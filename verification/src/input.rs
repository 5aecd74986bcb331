//! Keyboard state and keybinding resolution.

use std::collections::HashSet;

use vstd::prelude::*;

use vstd::std_specs::hash::spec_hash_keys_iter;
use vstd::std_specs::iter::IteratorSpec;

use crate::config::{string_views, KeyBinding, KeybindingsConfig};
use crate::text::{
    decimal, digit, digit_char, lemma_decimal_injective, lemma_decimal_length, key_lowercase, push_char,
    push_decimal, str_eq, to_lowercase, numbered,
};

verus! {

broadcast use vstd::std_specs::hash::group_hash_axioms;

/// Whether a key went down or came up.
#[derive(Debug, Clone, Copy, PartialEq, Eq, Structural)]
pub enum KeyState {
    Released,
    Pressed,
}

/// What the compositor does in answer to a key event.
#[derive(Debug)]
pub enum KeyResponse {
    /// Stop the compositor.
    Quit,
    /// Run these binding commands, in order.
    Run(Vec<String>),
    /// Nothing to do.
    Nothing,
}

/// A direction on screen.
#[derive(Debug, Clone, Copy, PartialEq, Eq, Structural)]
pub enum Direction {
    Left,
    Down,
    Up,
    Right,
}

/// What running a binding command means.
#[derive(Debug, Clone, Copy, PartialEq, Eq, Structural)]
pub enum CommandAction {
    /// Close the focused window (`close`).
    CloseFocused,
    /// Stop the compositor (`quit`).
    Quit,
    /// Show the workspace with this index (`workspace N`, N from 1 to 9, index N - 1).
    SwitchWorkspace(usize),
    /// Move the focused window to the workspace with this index (`move-to-workspace N`).
    MoveToWorkspace(usize),
    /// Focus the nearest window in a direction (`focus left`, `focus down`, ...).
    Focus(Direction),
    /// Exchange the focused window with the nearest one in a direction (`move left`, ...).
    MoveWindow(Direction),
    /// Toggle fullscreen on the focused window (`fullscreen`).
    ToggleFullscreen,
    /// Toggle floating on the focused window (`floating`).
    ToggleFloating,
    /// Switch to the next layout (`cycle-layout`).
    CycleLayout,
    /// Hand the command to the shell.
    Spawn,
}

/// Tracks which keys are held.
pub struct InputManager {
    pub pressed_keys: HashSet<u32>,
}

/// The raw keycode whose press stops the compositor.
pub const QUIT_KEYCODE: u32 = 1;

/// The xkb keycode of the left super key, which bindings call `super`.
pub const SUPER_KEYCODE: u32 = 133;

/// The word that bindings use for a key with a name of its own. Keycodes are
/// xkb keycodes (the evdev code plus eight): the left super and shift keys,
/// return, space, the digit keys 1 to 9 and the letters that default bindings
/// use; keycode 37 keeps the name `w` that it has always had.
pub open spec fn key_word(key: u32) -> Option<Seq<char>> {
    if key == SUPER_KEYCODE {
        Some("super"@)
    } else if key == 50 {
        Some("shift"@)
    } else if key == 36 {
        Some("return"@)
    } else if key == 65 {
        Some("space"@)
    } else if key == 24 {
        Some("q"@)
    } else if key == 37 {
        Some("w"@)
    } else if key == 27 {
        Some("r"@)
    } else if key == 38 {
        Some("a"@)
    } else if key == 39 {
        Some("s"@)
    } else if key == 40 {
        Some("d"@)
    } else if key == 41 {
        Some("f"@)
    } else if key == 43 {
        Some("h"@)
    } else if key == 44 {
        Some("j"@)
    } else if key == 45 {
        Some("k"@)
    } else if key == 46 {
        Some("l"@)
    } else if 10 <= key <= 18 {
        Some(seq![digit_char(key - 9)])
    } else {
        None
    }
}

/// The name under which bindings refer to a keycode: its word, or `key`
/// followed by its decimal code.
pub open spec fn key_name(key: u32) -> Seq<char> {
    match key_word(key) {
        Some(w) => w,
        None => "key"@ + decimal(key as nat),
    }
}

/// Every keycode has a name of its own: different keycodes never share a name.
pub proof fn lemma_key_names_distinct(a: u32, b: u32)
    requires
        a != b,
    ensures
        key_name(a) != key_name(b),
{
    reveal_strlit("super");
    reveal_strlit("shift");
    reveal_strlit("return");
    reveal_strlit("space");
    reveal_strlit("q");
    reveal_strlit("w");
    reveal_strlit("r");
    reveal_strlit("a");
    reveal_strlit("s");
    reveal_strlit("d");
    reveal_strlit("f");
    reveal_strlit("h");
    reveal_strlit("j");
    reveal_strlit("k");
    reveal_strlit("l");
    reveal_strlit("key");
    match (key_word(a), key_word(b)) {
        (None, None) => {
            if key_name(a) == key_name(b) {
                assert(key_name(a).subrange(3, key_name(a).len() as int) =~= decimal(a as nat));
                assert(key_name(b).subrange(3, key_name(b).len() as int) =~= decimal(b as nat));
                lemma_decimal_injective(a as nat, b as nat);
            }
        },
        (Some(w), None) => {
            lemma_decimal_length(b as nat);
            assert(w.len() != key_name(b).len() || w[0] != key_name(b)[0]);
        },
        (None, Some(w)) => {
            lemma_decimal_length(a as nat);
            assert(w.len() != key_name(a).len() || w[0] != key_name(a)[0]);
        },
        (Some(wa), Some(wb)) => {
            assert(wa.len() != wb.len() || wa[0] != wb[0] || wa[1] != wb[1]);
        },
    }
}

/// The held keys after `key` goes down (it joins them) or comes up (it leaves
/// them).
pub open spec fn held_after(held: Set<u32>, key: u32, state: KeyState) -> Set<u32> {
    match state {
        KeyState::Pressed => held.insert(key),
        KeyState::Released => held.remove(key),
    }
}

/// Some held key has the name `name`.
pub open spec fn name_is_held(pressed: Set<u32>, name: Seq<char>) -> bool {
    exists|k: u32| pressed.contains(k) && #[trigger] key_name(k) == name
}

/// Every key of the binding, lowercased, is the name of a held key.
pub open spec fn binding_fires(b: KeyBinding, pressed: Set<u32>) -> bool {
    forall|j: int| 0 <= j < b.keys@.len() ==> name_is_held(pressed, key_lowercase(#[trigger] b.keys@[j]@))
}

/// The commands of the bindings that fire, in the order of the bindings.
pub open spec fn fired_commands(bindings: Seq<KeyBinding>, pressed: Set<u32>) -> Seq<Seq<char>>
    decreases bindings.len(),
{
    if bindings.len() == 0 {
        seq![]
    } else {
        let earlier = fired_commands(bindings.drop_last(), pressed);
        if binding_fires(bindings.last(), pressed) {
            earlier.push(bindings.last().command@)
        } else {
            earlier
        }
    }
}

/// The name that bindings use for `key`: a few keys have a word of their own,
/// every other key is called `key` followed by its decimal code.
pub fn keycode_to_name(key: u32) -> (name: String)
    ensures
        name@ == key_name(key),
{
    if key == SUPER_KEYCODE {
        String::from_str("super")
    } else if key == 50 {
        String::from_str("shift")
    } else if key == 36 {
        String::from_str("return")
    } else if key == 65 {
        String::from_str("space")
    } else if key == 24 {
        String::from_str("q")
    } else if key == 37 {
        String::from_str("w")
    } else if key == 27 {
        String::from_str("r")
    } else if key == 38 {
        String::from_str("a")
    } else if key == 39 {
        String::from_str("s")
    } else if key == 40 {
        String::from_str("d")
    } else if key == 41 {
        String::from_str("f")
    } else if key == 43 {
        String::from_str("h")
    } else if key == 44 {
        String::from_str("j")
    } else if key == 45 {
        String::from_str("k")
    } else if key == 46 {
        String::from_str("l")
    } else if 10 <= key && key <= 18 {
        let mut name = String::new();
        push_char(&mut name, digit((key - 9) as u64));
        assert(name@ =~= seq![digit_char((key - 9) as int)]);
        name
    } else {
        let mut name = String::from_str("key");
        push_decimal(&mut name, key as u64);
        name
    }
}

/// Whether `name` is one of `names`.
pub fn name_listed(name: &String, names: &Vec<String>) -> (r: bool)
    ensures
        r == string_views(names@).contains(name@),
{
    let mut i: usize = 0;
    while i < names.len()
        invariant
            0 <= i <= names.len(),
            forall|j: int| 0 <= j < i ==> names@[j]@ != name@,
        decreases names.len() - i,
    {
        if names[i] == *name {
            assert(string_views(names@)[i as int] == name@);
            return true;
        }
        i += 1;
    }
    assert(!string_views(names@).contains(name@));
    false
}

/// Whether every one of `required` is one of `names`.
pub fn all_listed(required: &Vec<String>, names: &Vec<String>) -> (r: bool)
    ensures
        r == (forall|j: int|
            0 <= j < required@.len() ==> string_views(names@).contains(#[trigger] required@[j]@)),
{
    let mut i: usize = 0;
    while i < required.len()
        invariant
            0 <= i <= required.len(),
            forall|j: int| 0 <= j < i ==> string_views(names@).contains(#[trigger] required@[j]@),
        decreases required.len() - i,
    {
        if !name_listed(&required[i], names) {
            return false;
        }
        i += 1;
    }
    true
}

/// The number from 1 to 9 that follows `prefix` in `command`, if `command` is
/// exactly `prefix` and that digit.
pub open spec fn command_number(command: Seq<char>, prefix: Seq<char>) -> Option<int> {
    if exists|n: int| 1 <= n <= 9 && command == #[trigger] numbered(prefix, n) {
        Some(choose|n: int| 1 <= n <= 9 && command == #[trigger] numbered(prefix, n))
    } else {
        None
    }
}

/// What a binding command means; a command that names no action of the
/// compositor goes to the shell.
pub open spec fn command_meaning(c: Seq<char>) -> CommandAction {
    if c == "close"@ {
        CommandAction::CloseFocused
    } else if c == "quit"@ {
        CommandAction::Quit
    } else if c == "fullscreen"@ {
        CommandAction::ToggleFullscreen
    } else if c == "floating"@ {
        CommandAction::ToggleFloating
    } else if c == "cycle-layout"@ {
        CommandAction::CycleLayout
    } else if c == "focus left"@ {
        CommandAction::Focus(Direction::Left)
    } else if c == "focus down"@ {
        CommandAction::Focus(Direction::Down)
    } else if c == "focus up"@ {
        CommandAction::Focus(Direction::Up)
    } else if c == "focus right"@ {
        CommandAction::Focus(Direction::Right)
    } else if c == "move left"@ {
        CommandAction::MoveWindow(Direction::Left)
    } else if c == "move down"@ {
        CommandAction::MoveWindow(Direction::Down)
    } else if c == "move up"@ {
        CommandAction::MoveWindow(Direction::Up)
    } else if c == "move right"@ {
        CommandAction::MoveWindow(Direction::Right)
    } else if command_number(c, "workspace "@) is Some {
        CommandAction::SwitchWorkspace((command_number(c, "workspace "@).unwrap() - 1) as usize)
    } else if command_number(c, "move-to-workspace "@) is Some {
        CommandAction::MoveToWorkspace(
            (command_number(c, "move-to-workspace "@).unwrap() - 1) as usize,
        )
    } else {
        CommandAction::Spawn
    }
}

/// A command names at most one number after a prefix.
proof fn lemma_numbered_unique(prefix: Seq<char>, n: int, m: int)
    requires
        1 <= n <= 9,
        1 <= m <= 9,
        numbered(prefix, n) == numbered(prefix, m),
    ensures
        n == m,
{
    assert(numbered(prefix, n).last() == digit_char(n));
    assert(numbered(prefix, m).last() == digit_char(m));
}

/// The number from 1 to 9 that follows `prefix` in `command`.
fn parse_command_number(command: &str, prefix: &str) -> (r: Option<usize>)
    ensures
        r matches Some(n) ==> command_number(command@, prefix@) == Some(n as int),
        r is None ==> command_number(command@, prefix@) is None,
{
    let mut n: usize = 1;
    while n <= 9
        invariant
            1 <= n <= 10,
            forall|m: int| 1 <= m < n ==> command@ != #[trigger] numbered(prefix@, m),
        decreases 10 - n,
    {
        let mut candidate = String::from_str(prefix);
        push_char(&mut candidate, digit(n as u64));
        if str_eq(command, candidate.as_str()) {
            proof {
                assert(candidate@ =~= numbered(prefix@, n as int));
                let k = choose|k: int| 1 <= k <= 9 && command@ == #[trigger] numbered(prefix@, k);
                lemma_numbered_unique(prefix@, n as int, k);
            }
            return Some(n);
        }
        assert(candidate@ =~= numbered(prefix@, n as int));
        n += 1;
    }
    None
}

/// What running `command` means: one of the compositor's own actions when
/// the command names one, otherwise a shell command.
pub fn command_action(command: &str) -> (action: CommandAction)
    ensures
        action == command_meaning(command@),
{
    if str_eq(command, "close") {
        CommandAction::CloseFocused
    } else if str_eq(command, "quit") {
        CommandAction::Quit
    } else if str_eq(command, "fullscreen") {
        CommandAction::ToggleFullscreen
    } else if str_eq(command, "floating") {
        CommandAction::ToggleFloating
    } else if str_eq(command, "cycle-layout") {
        CommandAction::CycleLayout
    } else if str_eq(command, "focus left") {
        CommandAction::Focus(Direction::Left)
    } else if str_eq(command, "focus down") {
        CommandAction::Focus(Direction::Down)
    } else if str_eq(command, "focus up") {
        CommandAction::Focus(Direction::Up)
    } else if str_eq(command, "focus right") {
        CommandAction::Focus(Direction::Right)
    } else if str_eq(command, "move left") {
        CommandAction::MoveWindow(Direction::Left)
    } else if str_eq(command, "move down") {
        CommandAction::MoveWindow(Direction::Down)
    } else if str_eq(command, "move up") {
        CommandAction::MoveWindow(Direction::Up)
    } else if str_eq(command, "move right") {
        CommandAction::MoveWindow(Direction::Right)
    } else if let Some(n) = parse_command_number(command, "workspace ") {
        CommandAction::SwitchWorkspace(n - 1)
    } else if let Some(n) = parse_command_number(command, "move-to-workspace ") {
        CommandAction::MoveToWorkspace(n - 1)
    } else {
        CommandAction::Spawn
    }
}

impl InputManager {
    /// A manager with no key held.
    pub fn new() -> (m: Self)
        ensures
            m.pressed_keys@ == Set::<u32>::empty(),
    {
        InputManager { pressed_keys: HashSet::new() }
    }

    /// The names of the held keys, each once.
    pub fn pressed_key_names(&self) -> (names: Vec<String>)
        ensures
            string_views(names@).no_duplicates(),
            forall|name: Seq<char>|
                #![trigger string_views(names@).contains(name)]
                string_views(names@).contains(name) <==> name_is_held(self.pressed_keys@, name),
    {
        let mut names: Vec<String> = Vec::new();
        let ghost keys: Seq<u32> = spec_hash_keys_iter(&self.pressed_keys).remaining().unref();
        assert(keys.to_set() == self.pressed_keys@);
        for k in it: self.pressed_keys.iter()
            invariant
                names@.len() == it.index(),
                it.seq() == spec_hash_keys_iter(&self.pressed_keys).remaining(),
                keys == it.seq().unref(),
                forall|j: int| 0 <= j < it.index() ==> #[trigger] names@[j]@ == key_name(keys[j]),
        {
            names.push(keycode_to_name(*k));
        }
        proof {
            assert(keys.len() == names@.len());
            assert(spec_hash_keys_iter(&self.pressed_keys).remaining().no_duplicates());
            assert forall|a: int, b: int|
                0 <= a < names@.len() && 0 <= b < names@.len() && a != b implies string_views(
                    names@,
                )[a] != string_views(names@)[b] by {
                assert(keys[a] == *spec_hash_keys_iter(&self.pressed_keys).remaining()[a]);
                assert(keys[b] == *spec_hash_keys_iter(&self.pressed_keys).remaining()[b]);
                if keys[a] != keys[b] {
                    lemma_key_names_distinct(keys[a], keys[b]);
                }
            }
            assert forall|name: Seq<char>| #![trigger string_views(names@).contains(name)]
                string_views(names@).contains(name) <==> name_is_held(self.pressed_keys@, name) by {
                if string_views(names@).contains(name) {
                    let j = choose|j: int| 0 <= j < names@.len() && string_views(names@)[j] == name;
                    let k = keys[j];
                    assert(keys.to_set().contains(k));
                    assert(self.pressed_keys@.contains(k));
                    assert(key_name(k) == name);
                }
                if name_is_held(self.pressed_keys@, name) {
                    let k = choose|k: u32| self.pressed_keys@.contains(k) && key_name(k) == name;
                    assert(keys.to_set().contains(k));
                    let j = choose|j: int| 0 <= j < keys.len() && keys[j] == k;
                    assert(string_views(names@)[j] == name);
                }
            }
        }
        names
    }

    /// The commands of the bindings whose keys, lowercased, are all held; in
    /// the order of the bindings.
    pub fn check_keybindings(&self, bindings: &Vec<KeyBinding>) -> (commands: Vec<String>)
        ensures
            string_views(commands@) == fired_commands(bindings@, self.pressed_keys@),
    {
        let pressed = self.pressed_key_names();
        let mut commands: Vec<String> = Vec::new();
        let mut i: usize = 0;
        while i < bindings.len()
            invariant
                0 <= i <= bindings.len(),
                forall|name: Seq<char>|
                    #![trigger string_views(pressed@).contains(name)]
                    string_views(pressed@).contains(name) <==> name_is_held(
                        self.pressed_keys@,
                        name,
                    ),
                string_views(commands@) == fired_commands(
                    bindings@.take(i as int),
                    self.pressed_keys@,
                ),
            decreases bindings.len() - i,
        {
            let binding = &bindings[i];
            let mut required: Vec<String> = Vec::new();
            let mut j: usize = 0;
            while j < binding.keys.len()
                invariant
                    0 <= j <= binding.keys.len(),
                    required@.len() == j,
                    forall|m: int|
                        0 <= m < j ==> #[trigger] required@[m]@ == key_lowercase(binding.keys@[m]@),
                decreases binding.keys.len() - j,
            {
                required.push(to_lowercase(binding.keys[j].as_str()));
                j += 1;
            }
            let fires = all_listed(&required, &pressed);
            assert(fires == binding_fires(*binding, self.pressed_keys@)) by {
                if fires {
                    assert forall|m: int| 0 <= m < binding.keys@.len() implies name_is_held(
                        self.pressed_keys@,
                        key_lowercase(#[trigger] binding.keys@[m]@),
                    ) by {
                        assert(string_views(pressed@).contains(required@[m]@));
                    }
                } else {
                    let m = choose|m: int|
                        0 <= m < required@.len() && !string_views(pressed@).contains(
                            #[trigger] required@[m]@,
                        );
                    assert(!name_is_held(self.pressed_keys@, key_lowercase(binding.keys@[m]@)));
                }
            }
            let ghost before = commands@;
            if fires {
                commands.push(binding.command.clone());
            }
            proof {
                let taken = bindings@.take(i + 1);
                assert(taken.drop_last() =~= bindings@.take(i as int));
                assert(taken.last() == *binding);
                assert(string_views(commands@) =~= fired_commands(taken, self.pressed_keys@));
            }
            i += 1;
        }
        assert(bindings@.take(bindings@.len() as int) =~= bindings@);
        commands
    }

    /// Records a key event. A press of the quit key asks to stop; any other
    /// press resolves the key bindings against the keys now held; a release
    /// asks for nothing.
    pub fn handle_keyboard_event(
        &mut self,
        keybindings: &KeybindingsConfig,
        keycode: u32,
        key_state: KeyState,
    ) -> (response: KeyResponse)
        ensures
            final(self).pressed_keys@ == held_after(old(self).pressed_keys@, keycode, key_state),
            key_state == KeyState::Pressed ==> {
                &&& keycode == QUIT_KEYCODE ==> response is Quit
                &&& keycode != QUIT_KEYCODE ==> (response matches KeyResponse::Run(commands)
                    && string_views(commands@) == fired_commands(
                    keybindings.bindings@,
                    final(self).pressed_keys@,
                ))
            },
            key_state == KeyState::Released ==> response is Nothing,
    {
        match key_state {
            KeyState::Pressed => {
                self.pressed_keys.insert(keycode);
                if keycode == QUIT_KEYCODE {
                    return KeyResponse::Quit;
                }
                KeyResponse::Run(self.check_keybindings(&keybindings.bindings))
            },
            KeyState::Released => {
                self.pressed_keys.remove(&keycode);
                KeyResponse::Nothing
            },
        }
    }
}

} // verus!
