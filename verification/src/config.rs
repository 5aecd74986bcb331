//! The compositor's configuration and its defaults.
//!
//! Pointer acceleration and window opacity are fractional settings; they are
//! kept beside this configuration by the program that loads it.

use vstd::prelude::*;

use crate::text::{digit, digit_char, numbered, push_char};

verus! {

/// The whole configuration.
#[derive(Debug, Clone)]
pub struct Config {
    pub general: GeneralConfig,
    pub input: InputConfig,
    pub output: OutputConfig,
    pub layout: LayoutConfig,
    pub appearance: AppearanceConfig,
    pub keybindings: KeybindingsConfig,
    pub window_rules: Vec<WindowRule>,
}

/// Programs to start, environment and reloading.
#[derive(Debug, Clone)]
pub struct GeneralConfig {
    pub autostart: Vec<String>,
    pub env: Vec<(String, String)>,
    pub reload_config_on_change: bool,
}

/// Input devices.
#[derive(Debug, Clone)]
pub struct InputConfig {
    pub keyboard: KeyboardConfig,
    pub tablet: TabletConfig,
}

/// Key repeat and keymap.
#[derive(Debug, Clone)]
pub struct KeyboardConfig {
    pub repeat_rate: i32,
    pub repeat_delay: i32,
    pub xkb_layout: String,
    pub xkb_options: String,
}

/// Tablet input.
#[derive(Debug, Clone, Copy)]
pub struct TabletConfig {
    pub relative_motion: bool,
}

/// The output's scale, sync and mode.
#[derive(Debug, Clone, Copy)]
pub struct OutputConfig {
    pub scale: u32,
    pub adaptive_sync: bool,
    pub mode: OutputMode,
}

/// A display mode.
#[derive(Debug, Clone, Copy)]
pub struct OutputMode {
    pub width: u32,
    pub height: u32,
    pub refresh_rate: u32,
}

/// Layout selection, gaps and borders.
#[derive(Debug, Clone)]
pub struct LayoutConfig {
    pub default: String,
    pub gaps: GapsConfig,
    pub borders: BorderConfig,
}

/// Space between windows and around the screen edge.
#[derive(Debug, Clone, Copy)]
pub struct GapsConfig {
    pub inner: u32,
    pub outer: u32,
}

/// Border width and colors.
#[derive(Debug, Clone)]
pub struct BorderConfig {
    pub width: u32,
    pub focused: String,
    pub unfocused: String,
    pub urgent: String,
}

/// Visual effects.
#[derive(Debug, Clone)]
pub struct AppearanceConfig {
    pub blur: BlurConfig,
    pub shadows: ShadowConfig,
    pub animations: AnimationConfig,
}

/// Background blur.
#[derive(Debug, Clone, Copy)]
pub struct BlurConfig {
    pub enabled: bool,
    pub size: u32,
    pub passes: u32,
}

/// Window shadows.
#[derive(Debug, Clone)]
pub struct ShadowConfig {
    pub enabled: bool,
    pub blur_size: u32,
    pub color: String,
}

/// Window movement animations.
#[derive(Debug, Clone)]
pub struct AnimationConfig {
    pub enabled: bool,
    pub duration_ms: u32,
    pub easing: String,
}

/// The modifier key and the key bindings.
#[derive(Debug, Clone)]
pub struct KeybindingsConfig {
    pub modifier: String,
    pub bindings: Vec<KeyBinding>,
}

/// A command run when all of `keys` are held.
#[derive(Debug, Clone)]
pub struct KeyBinding {
    pub keys: Vec<String>,
    pub command: String,
    pub description: Option<String>,
}

/// Window placement by application id and title.
#[derive(Debug, Clone)]
pub struct WindowRule {
    pub app_id: Option<String>,
    pub title: Option<String>,
    pub floating: Option<bool>,
    pub fullscreen: Option<bool>,
    pub workspace: Option<u32>,
    pub size: Option<(u32, u32)>,
    pub position: Option<(i32, i32)>,
}

/// The views of a list of strings.
pub open spec fn string_views(v: Seq<String>) -> Seq<Seq<char>> {
    v.map_values(|s: String| s@)
}

/// A key binding with exactly the given keys, command and description.
pub open spec fn binding_is(
    b: KeyBinding,
    keys: Seq<Seq<char>>,
    command: Seq<char>,
    description: Seq<char>,
) -> bool {
    &&& string_views(b.keys@) == keys
    &&& b.command@ == command
    &&& b.description matches Some(d) && d@ == description
}

/// A default binding: its keys, its command and its description.
pub type BindingSpec = (Seq<Seq<char>>, Seq<char>, Seq<char>);

/// The launcher that the default bindings start.
pub open spec fn launcher_command() -> Seq<char> {
    "wofi --show drun"@
}

/// The bindings that move the focused window to workspace 1 to 9 and those
/// that switch to workspace 1 to 9.
pub open spec fn workspace_bindings() -> Seq<BindingSpec> {
    Seq::new(
        9,
        |i: int|
            (
                seq!["SUPER"@, "SHIFT"@, seq![digit_char(i + 1)]],
                numbered("move-to-workspace "@, i + 1),
                numbered("Move window to workspace "@, i + 1),
            ),
    ) + Seq::new(
        9,
        |i: int|
            (
                seq!["SUPER"@, seq![digit_char(i + 1)]],
                numbered("workspace "@, i + 1),
                numbered("Switch to workspace "@, i + 1),
            ),
    )
}

/// The default key bindings, in the order in which they are resolved. The
/// terminal and close bindings come first, as they always have, and the other
/// documented bindings follow. A binding fires whenever all its keys are held,
/// so SUPER+SHIFT+Q fires SUPER+Q too: the window is closed, then the
/// compositor quits. Among the later bindings, one with shift comes before
/// the one without it.
pub open spec fn default_bindings() -> Seq<BindingSpec> {
    seq![
        (seq!["SUPER"@, "RETURN"@], "alacritty"@, "Launch terminal"@),
        (seq!["SUPER"@, "Q"@], "close"@, "Close window"@),
        (seq!["SUPER"@, "SHIFT"@, "Q"@], "quit"@, "Quit compositor"@),
        (seq!["SUPER"@, "D"@], launcher_command(), "Launch application launcher"@),
    ] + workspace_bindings() + seq![
        (seq!["SUPER"@, "SHIFT"@, "H"@], "move left"@, "Move window left"@),
        (seq!["SUPER"@, "SHIFT"@, "J"@], "move down"@, "Move window down"@),
        (seq!["SUPER"@, "SHIFT"@, "K"@], "move up"@, "Move window up"@),
        (seq!["SUPER"@, "SHIFT"@, "L"@], "move right"@, "Move window right"@),
        (seq!["SUPER"@, "H"@], "focus left"@, "Move focus left"@),
        (seq!["SUPER"@, "J"@], "focus down"@, "Move focus down"@),
        (seq!["SUPER"@, "K"@], "focus up"@, "Move focus up"@),
        (seq!["SUPER"@, "L"@], "focus right"@, "Move focus right"@),
        (seq!["SUPER"@, "F"@], "fullscreen"@, "Toggle fullscreen"@),
        (seq!["SUPER"@, "SPACE"@], "floating"@, "Toggle floating"@),
        (seq!["SUPER"@, "R"@], "cycle-layout"@, "Cycle layouts"@),
    ]
}

/// The default configuration, field by field.
pub open spec fn is_default_config(c: Config) -> bool {
    &&& c.general.autostart@.len() == 0
    &&& c.general.env@.len() == 0
    &&& !c.general.reload_config_on_change
    &&& c.input.keyboard.repeat_rate == 25
    &&& c.input.keyboard.repeat_delay == 600
    &&& c.input.keyboard.xkb_layout@ == "us"@
    &&& c.input.keyboard.xkb_options@ == ""@
    &&& !c.input.tablet.relative_motion
    &&& c.output.scale == 1
    &&& c.output.adaptive_sync
    &&& c.output.mode.width == 1920
    &&& c.output.mode.height == 1080
    &&& c.output.mode.refresh_rate == 60
    &&& c.layout.default@ == "dwindle"@
    &&& c.layout.gaps.inner == 8
    &&& c.layout.gaps.outer == 8
    &&& c.layout.borders.width == 2
    &&& c.layout.borders.focused@ == "#89b4fa"@
    &&& c.layout.borders.unfocused@ == "#45475a"@
    &&& c.layout.borders.urgent@ == "#f38ba8"@
    &&& c.appearance.blur.enabled
    &&& c.appearance.blur.size == 8
    &&& c.appearance.blur.passes == 2
    &&& c.appearance.shadows.enabled
    &&& c.appearance.shadows.blur_size == 16
    &&& c.appearance.shadows.color@ == "#000000"@
    &&& c.appearance.animations.enabled
    &&& c.appearance.animations.duration_ms == 200
    &&& c.appearance.animations.easing@ == "ease-out-cubic"@
    &&& c.keybindings.modifier@ == "SUPER"@
    &&& c.keybindings.bindings@.len() == default_bindings().len()
    &&& forall|i: int|
        0 <= i < default_bindings().len() ==> binding_is(
            #[trigger] c.keybindings.bindings@[i],
            default_bindings()[i].0,
            default_bindings()[i].1,
            default_bindings()[i].2,
        )
    &&& c.window_rules@.len() == 0
}

/// A binding of the given keys, command and description.
fn make_binding(keys: &[&str], command: String, description: String) -> (b: KeyBinding)
    ensures
        binding_is(b, keys@.map_values(|k: &str| k@), command@, description@),
{
    let mut key_strings: Vec<String> = Vec::new();
    let mut i: usize = 0;
    while i < keys.len()
        invariant
            0 <= i <= keys@.len(),
            key_strings@.len() == i,
            forall|j: int| 0 <= j < i ==> #[trigger] key_strings@[j]@ == keys@[j]@,
        decreases keys@.len() - i,
    {
        key_strings.push(String::from_str(keys[i]));
        i += 1;
    }
    let b = KeyBinding { keys: key_strings, command, description: Some(description) };
    assert(string_views(b.keys@) =~= keys@.map_values(|k: &str| k@));
    b
}

/// Appends the binding of `keys`, `command` and `description`.
fn push_binding(bindings: &mut Vec<KeyBinding>, keys: &[&str], command: &str, description: &str)
    ensures
        final(bindings)@.len() == old(bindings)@.len() + 1,
        forall|j: int| 0 <= j < old(bindings)@.len() ==> final(bindings)@[j] == old(bindings)@[j],
        binding_is(
            final(bindings)@[old(bindings)@.len() as int],
            keys@.map_values(|k: &str| k@),
            command@,
            description@,
        ),
{
    bindings.push(make_binding(keys, String::from_str(command), String::from_str(description)));
}

/// `prefix` followed by the digit `n`.
fn numbered_string(prefix: &str, n: u64) -> (s: String)
    requires
        n < 10,
    ensures
        s@ == numbered(prefix@, n as int),
{
    let mut s = String::from_str(prefix);
    push_char(&mut s, digit(n));
    s
}

/// The default bindings.
fn default_binding_vec() -> (bindings: Vec<KeyBinding>)
    ensures
        bindings@.len() == default_bindings().len(),
        forall|i: int|
            0 <= i < default_bindings().len() ==> binding_is(
                #[trigger] bindings@[i],
                default_bindings()[i].0,
                default_bindings()[i].1,
                default_bindings()[i].2,
            ),
{
    let ghost all = default_bindings();
    let mut bindings: Vec<KeyBinding> = Vec::new();
    push_binding(&mut bindings, &["SUPER", "RETURN"], "alacritty", "Launch terminal");
    push_binding(&mut bindings, &["SUPER", "Q"], "close", "Close window");
    push_binding(&mut bindings, &["SUPER", "SHIFT", "Q"], "quit", "Quit compositor");
    push_binding(&mut bindings, &["SUPER", "D"], "wofi --show drun", "Launch application launcher");
    proof {
        assert forall|i: int| 0 <= i < 4 implies binding_is(
            #[trigger] bindings@[i],
            all[i].0,
            all[i].1,
            all[i].2,
        ) by {
            if i == 0 {
                assert(seq!["SUPER", "RETURN"].map_values(|k: &str| k@) =~= all[0].0);
            } else if i == 1 {
                assert(seq!["SUPER", "Q"].map_values(|k: &str| k@) =~= all[1].0);
            } else if i == 2 {
                assert(seq!["SUPER", "SHIFT", "Q"].map_values(|k: &str| k@) =~= all[2].0);
            } else {
                assert(seq!["SUPER", "D"].map_values(|k: &str| k@) =~= all[3].0);
            }
        }
    }
    let mut n: u64 = 1;
    while n <= 9
        invariant
            1 <= n <= 10,
            all == default_bindings(),
            bindings@.len() == 4 + (n - 1),
            forall|i: int| 0 <= i < bindings@.len() ==> binding_is(
                #[trigger] bindings@[i],
                all[i].0,
                all[i].1,
                all[i].2,
            ),
        decreases 10 - n,
    {
        let d = digit_string(n);
        let keys: [&str; 3] = ["SUPER", "SHIFT", d.as_str()];
        let command = numbered_string("move-to-workspace ", n);
        let description = numbered_string("Move window to workspace ", n);
        let ghost before = bindings@;
        bindings.push(make_binding(&keys, command, description));
        proof {
            let k = before.len() as int;
            assert(keys@.map_values(|k: &str| k@) =~= all[k].0);
            assert forall|i: int| 0 <= i < bindings@.len() implies binding_is(
                #[trigger] bindings@[i],
                all[i].0,
                all[i].1,
                all[i].2,
            ) by {
                if i < k {
                    assert(bindings@[i] == before[i]);
                }
            }
        }
        n += 1;
    }
    let mut n: u64 = 1;
    while n <= 9
        invariant
            1 <= n <= 10,
            all == default_bindings(),
            bindings@.len() == 13 + (n - 1),
            forall|i: int| 0 <= i < bindings@.len() ==> binding_is(
                #[trigger] bindings@[i],
                all[i].0,
                all[i].1,
                all[i].2,
            ),
        decreases 10 - n,
    {
        let d = digit_string(n);
        let keys: [&str; 2] = ["SUPER", d.as_str()];
        let command = numbered_string("workspace ", n);
        let description = numbered_string("Switch to workspace ", n);
        let ghost before = bindings@;
        bindings.push(make_binding(&keys, command, description));
        proof {
            let k = before.len() as int;
            assert(keys@.map_values(|k: &str| k@) =~= all[k].0);
            assert forall|i: int| 0 <= i < bindings@.len() implies binding_is(
                #[trigger] bindings@[i],
                all[i].0,
                all[i].1,
                all[i].2,
            ) by {
                if i < k {
                    assert(bindings@[i] == before[i]);
                }
            }
        }
        n += 1;
    }
    let ghost before = bindings@;
    push_binding(&mut bindings, &["SUPER", "SHIFT", "H"], "move left", "Move window left");
    push_binding(&mut bindings, &["SUPER", "SHIFT", "J"], "move down", "Move window down");
    push_binding(&mut bindings, &["SUPER", "SHIFT", "K"], "move up", "Move window up");
    push_binding(&mut bindings, &["SUPER", "SHIFT", "L"], "move right", "Move window right");
    push_binding(&mut bindings, &["SUPER", "H"], "focus left", "Move focus left");
    push_binding(&mut bindings, &["SUPER", "J"], "focus down", "Move focus down");
    push_binding(&mut bindings, &["SUPER", "K"], "focus up", "Move focus up");
    push_binding(&mut bindings, &["SUPER", "L"], "focus right", "Move focus right");
    push_binding(&mut bindings, &["SUPER", "F"], "fullscreen", "Toggle fullscreen");
    push_binding(&mut bindings, &["SUPER", "SPACE"], "floating", "Toggle floating");
    push_binding(&mut bindings, &["SUPER", "R"], "cycle-layout", "Cycle layouts");
    proof {
        assert(bindings@.len() == all.len());
        assert forall|i: int| 0 <= i < all.len() implies binding_is(
            #[trigger] bindings@[i],
            all[i].0,
            all[i].1,
            all[i].2,
        ) by {
            if i < 22 {
                assert(bindings@[i] == before[i]);
            } else if i == 22 {
                assert(seq!["SUPER", "SHIFT", "H"].map_values(|k: &str| k@) =~= all[i].0);
            } else if i == 23 {
                assert(seq!["SUPER", "SHIFT", "J"].map_values(|k: &str| k@) =~= all[i].0);
            } else if i == 24 {
                assert(seq!["SUPER", "SHIFT", "K"].map_values(|k: &str| k@) =~= all[i].0);
            } else if i == 25 {
                assert(seq!["SUPER", "SHIFT", "L"].map_values(|k: &str| k@) =~= all[i].0);
            } else if i == 26 {
                assert(seq!["SUPER", "H"].map_values(|k: &str| k@) =~= all[i].0);
            } else if i == 27 {
                assert(seq!["SUPER", "J"].map_values(|k: &str| k@) =~= all[i].0);
            } else if i == 28 {
                assert(seq!["SUPER", "K"].map_values(|k: &str| k@) =~= all[i].0);
            } else if i == 29 {
                assert(seq!["SUPER", "L"].map_values(|k: &str| k@) =~= all[i].0);
            } else if i == 30 {
                assert(seq!["SUPER", "F"].map_values(|k: &str| k@) =~= all[i].0);
            } else if i == 31 {
                assert(seq!["SUPER", "SPACE"].map_values(|k: &str| k@) =~= all[i].0);
            } else {
                assert(seq!["SUPER", "R"].map_values(|k: &str| k@) =~= all[i].0);
            }
        }
    }
    bindings
}

/// The digit `n` as a one-character string.
fn digit_string(n: u64) -> (s: String)
    requires
        n < 10,
    ensures
        s@ == seq![digit_char(n as int)],
{
    let mut s = String::new();
    push_char(&mut s, digit(n));
    assert(s@ =~= seq![digit_char(n as int)]);
    s
}

impl Default for Config {
    fn default() -> (c: Self)
        ensures
            is_default_config(c),
    {
        let bindings = default_binding_vec();
        Config {
            general: GeneralConfig {
                autostart: Vec::new(),
                env: Vec::new(),
                reload_config_on_change: false,
            },
            input: InputConfig {
                keyboard: KeyboardConfig {
                    repeat_rate: 25,
                    repeat_delay: 600,
                    xkb_layout: String::from_str("us"),
                    xkb_options: String::from_str(""),
                },
                tablet: TabletConfig { relative_motion: false },
            },
            output: OutputConfig {
                scale: 1,
                adaptive_sync: true,
                mode: OutputMode { width: 1920, height: 1080, refresh_rate: 60 },
            },
            layout: LayoutConfig {
                default: String::from_str("dwindle"),
                gaps: GapsConfig { inner: 8, outer: 8 },
                borders: BorderConfig {
                    width: 2,
                    focused: String::from_str("#89b4fa"),
                    unfocused: String::from_str("#45475a"),
                    urgent: String::from_str("#f38ba8"),
                },
            },
            appearance: AppearanceConfig {
                blur: BlurConfig { enabled: true, size: 8, passes: 2 },
                shadows: ShadowConfig {
                    enabled: true,
                    blur_size: 16,
                    color: String::from_str("#000000"),
                },
                animations: AnimationConfig {
                    enabled: true,
                    duration_ms: 200,
                    easing: String::from_str("ease-out-cubic"),
                },
            },
            keybindings: KeybindingsConfig { modifier: String::from_str("SUPER"), bindings },
            window_rules: Vec::new(),
        }
    }
}

} // verus!
