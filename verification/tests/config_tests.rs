use aurorawm::config::Config;

#[test]
fn default_config_values() {
    let c = Config::default();
    assert!(c.general.autostart.is_empty());
    assert!(c.general.env.is_empty());
    assert!(!c.general.reload_config_on_change);
    assert_eq!(c.input.keyboard.repeat_rate, 25);
    assert_eq!(c.input.keyboard.repeat_delay, 600);
    assert_eq!(c.input.keyboard.xkb_layout, "us");
    assert_eq!(c.input.keyboard.xkb_options, "");
    assert!(!c.input.tablet.relative_motion);
    assert_eq!(c.output.scale, 1);
    assert!(c.output.adaptive_sync);
    assert_eq!((c.output.mode.width, c.output.mode.height, c.output.mode.refresh_rate), (1920, 1080, 60));
    assert_eq!(c.layout.default, "dwindle");
    assert_eq!((c.layout.gaps.inner, c.layout.gaps.outer), (8, 8));
    assert_eq!(c.layout.borders.width, 2);
    assert_eq!(c.layout.borders.focused, "#89b4fa");
    assert_eq!(c.layout.borders.unfocused, "#45475a");
    assert_eq!(c.layout.borders.urgent, "#f38ba8");
    assert!(c.appearance.blur.enabled);
    assert_eq!((c.appearance.blur.size, c.appearance.blur.passes), (8, 2));
    assert!(c.appearance.shadows.enabled);
    assert_eq!(c.appearance.shadows.blur_size, 16);
    assert_eq!(c.appearance.shadows.color, "#000000");
    assert!(c.appearance.animations.enabled);
    assert_eq!(c.appearance.animations.duration_ms, 200);
    assert_eq!(c.appearance.animations.easing, "ease-out-cubic");
    assert_eq!(c.keybindings.modifier, "SUPER");
    assert!(c.window_rules.is_empty());
}

fn keys(v: &[&str]) -> Vec<String> {
    v.iter().map(|k| k.to_string()).collect()
}

#[test]
fn default_bindings_match_documented_keys() {
    let c = Config::default();
    let b = &c.keybindings.bindings;
    assert_eq!(b.len(), 33);
    let expect = |i: usize, k: &[&str], command: &str, description: &str| {
        assert_eq!(b[i].keys, keys(k));
        assert_eq!(b[i].command, command);
        assert_eq!(b[i].description.as_deref(), Some(description));
    };
    expect(0, &["SUPER", "RETURN"], "alacritty", "Launch terminal");
    expect(1, &["SUPER", "Q"], "close", "Close window");
    expect(2, &["SUPER", "SHIFT", "Q"], "quit", "Quit compositor");
    expect(3, &["SUPER", "D"], "wofi --show drun", "Launch application launcher");
    expect(4, &["SUPER", "SHIFT", "1"], "move-to-workspace 1", "Move window to workspace 1");
    expect(12, &["SUPER", "SHIFT", "9"], "move-to-workspace 9", "Move window to workspace 9");
    expect(13, &["SUPER", "1"], "workspace 1", "Switch to workspace 1");
    expect(17, &["SUPER", "5"], "workspace 5", "Switch to workspace 5");
    expect(21, &["SUPER", "9"], "workspace 9", "Switch to workspace 9");
    expect(22, &["SUPER", "SHIFT", "H"], "move left", "Move window left");
    expect(25, &["SUPER", "SHIFT", "L"], "move right", "Move window right");
    expect(26, &["SUPER", "H"], "focus left", "Move focus left");
    expect(27, &["SUPER", "J"], "focus down", "Move focus down");
    expect(28, &["SUPER", "K"], "focus up", "Move focus up");
    expect(29, &["SUPER", "L"], "focus right", "Move focus right");
    expect(30, &["SUPER", "F"], "fullscreen", "Toggle fullscreen");
    expect(31, &["SUPER", "SPACE"], "floating", "Toggle floating");
    expect(32, &["SUPER", "R"], "cycle-layout", "Cycle layouts");
}
