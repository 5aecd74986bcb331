//! Properties that hold across calls: what a second call undoes and what a
//! state change keeps.

use vstd::prelude::*;

use crate::config::{default_bindings, is_default_config, string_views, Config};
use crate::input::{binding_fires, held_after, key_name, KeyState};
use crate::output::Output;
use crate::text::{is_ascii_text, key_lowercase};
use crate::layout::LayoutType;
use crate::state::{current_after_switch, next_layout_spec, pointer_button_spec, MouseMode};

verus! {

/// Asking for an existing workspace always leaves it the current one, the one
/// shown, whether a switch happened or it was current already; asking for one
/// that does not exist changes nothing.
pub proof fn lemma_switch_shows_requested_workspace(count: nat, current: usize, idx: usize)
    ensures
        idx < count ==> current_after_switch(count, current, idx) == idx,
        idx >= count ==> current_after_switch(count, current, idx) == current,
{
}

/// Pressing a key that was not held and releasing it again leaves the held
/// keys as they were.
pub proof fn lemma_press_then_release_restores(held: Set<u32>, key: u32)
    requires
        !held.contains(key),
    ensures
        held_after(held_after(held, key, KeyState::Pressed), key, KeyState::Released) == held,
{
    assert(held_after(held_after(held, key, KeyState::Pressed), key, KeyState::Released) =~= held);
}

/// Adding an output under a name that is not known and removing that name
/// again leaves the outputs as they were.
pub proof fn lemma_add_then_remove_output_restores(
    outputs: Map<Seq<char>, Output>,
    after_add: Map<Seq<char>, Output>,
    after_remove: Map<Seq<char>, Output>,
    name: Seq<char>,
)
    requires
        !outputs.dom().contains(name),
        after_add.remove(name) == outputs.remove(name),
        after_remove == after_add.remove(name),
    ensures
        after_remove == outputs,
{
    assert(outputs.remove(name) =~= outputs);
}

/// Releasing the pointer button always ends a drag, whatever the mode was;
/// pressing on a window with the super key held always starts moving it.
pub proof fn lemma_drag_starts_and_ends(mode: MouseMode, clicked: bool, super_held: bool)
    ensures
        pointer_button_spec(mode, false, clicked, super_held).mode == MouseMode::Idle,
        pointer_button_spec(mode, true, true, true).mode == MouseMode::Moving,
{
}

/// Cycling through the layouts comes back to the layout it started from after
/// six steps, and no sooner.
pub proof fn lemma_layout_cycle_returns(layout: LayoutType)
    ensures
        next_layout_spec(next_layout_spec(next_layout_spec(next_layout_spec(next_layout_spec(
            next_layout_spec(layout),
        ))))) == layout,
        next_layout_spec(layout) != layout,
        next_layout_spec(next_layout_spec(layout)) != layout,
        next_layout_spec(next_layout_spec(next_layout_spec(layout))) != layout,
        next_layout_spec(next_layout_spec(next_layout_spec(next_layout_spec(layout)))) != layout,
        next_layout_spec(next_layout_spec(next_layout_spec(next_layout_spec(next_layout_spec(layout)))))
            != layout,
{
}

/// Under the default configuration, holding super and return (whatever else
/// is held) fires the first binding, which launches the terminal; holding super
/// and q fires the second, which closes the focused window.
pub proof fn lemma_default_terminal_and_close_fire(c: Config, pressed: Set<u32>)
    requires
        is_default_config(c),
    ensures
        c.keybindings.bindings@[0].command@ == "alacritty"@,
        pressed.contains(133) && pressed.contains(36) ==> binding_fires(
            c.keybindings.bindings@[0],
            pressed,
        ),
        c.keybindings.bindings@[1].command@ == "close"@,
        pressed.contains(133) && pressed.contains(24) ==> binding_fires(
            c.keybindings.bindings@[1],
            pressed,
        ),
{
    reveal_strlit("SUPER");
    reveal_strlit("RETURN");
    reveal_strlit("Q");
    reveal_strlit("super");
    reveal_strlit("return");
    reveal_strlit("q");
    let b0 = c.keybindings.bindings@[0];
    let b1 = c.keybindings.bindings@[1];
    assert(string_views(b0.keys@) == default_bindings()[0].0);
    assert(string_views(b1.keys@) == default_bindings()[1].0);
    assert(b0.keys@.len() == 2);
    assert(b1.keys@.len() == 2);
    assert(b0.keys@[0]@ == "SUPER"@ && b0.keys@[1]@ == "RETURN"@) by {
        assert(string_views(b0.keys@)[0] == b0.keys@[0]@);
        assert(string_views(b0.keys@)[1] == b0.keys@[1]@);
    }
    assert(b1.keys@[0]@ == "SUPER"@ && b1.keys@[1]@ == "Q"@) by {
        assert(string_views(b1.keys@)[0] == b1.keys@[0]@);
        assert(string_views(b1.keys@)[1] == b1.keys@[1]@);
    }
    assert(is_ascii_text("SUPER"@) && is_ascii_text("RETURN"@) && is_ascii_text("Q"@));
    assert(key_lowercase("SUPER"@) =~= key_name(133));
    assert(key_lowercase("RETURN"@) =~= key_name(36));
    assert(key_lowercase("Q"@) =~= key_name(24));
}

} // verus!
