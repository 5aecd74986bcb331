use aurorawm::config::Config;
use aurorawm::input::{
    all_listed, command_action, keycode_to_name, CommandAction, Direction, InputManager, KeyResponse, KeyState,
};

fn run(resp: KeyResponse) -> Vec<String> {
    match resp {
        KeyResponse::Run(c) => c,
        other => panic!("expected commands, got {:?}", other),
    }
}

#[test]
fn key_names() {
    assert_eq!(keycode_to_name(133), "super");
    assert_eq!(keycode_to_name(50), "shift");
    assert_eq!(keycode_to_name(36), "return");
    assert_eq!(keycode_to_name(65), "space");
    assert_eq!(keycode_to_name(24), "q");
    assert_eq!(keycode_to_name(37), "w");
    assert_eq!(keycode_to_name(27), "r");
    assert_eq!(keycode_to_name(38), "a");
    assert_eq!(keycode_to_name(39), "s");
    assert_eq!(keycode_to_name(40), "d");
    assert_eq!(keycode_to_name(41), "f");
    assert_eq!(keycode_to_name(43), "h");
    assert_eq!(keycode_to_name(44), "j");
    assert_eq!(keycode_to_name(45), "k");
    assert_eq!(keycode_to_name(46), "l");
    assert_eq!(keycode_to_name(10), "1");
    assert_eq!(keycode_to_name(14), "5");
    assert_eq!(keycode_to_name(18), "9");
    assert_eq!(keycode_to_name(19), "key19");
    assert_eq!(keycode_to_name(64), "key64");
    assert_eq!(keycode_to_name(25), "key25");
    assert_eq!(keycode_to_name(0), "key0");
    assert_eq!(keycode_to_name(4294967295), "key4294967295");
}

#[test]
fn new_manager_holds_nothing() {
    let m = InputManager::new();
    assert!(m.pressed_keys.is_empty());
}

#[test]
fn super_return_launches_terminal() {
    let config = Config::default();
    let mut m = InputManager::new();
    assert!(run(m.handle_keyboard_event(&config.keybindings, 133, KeyState::Pressed)).is_empty());
    assert_eq!(
        run(m.handle_keyboard_event(&config.keybindings, 36, KeyState::Pressed)),
        vec!["alacritty".to_string()]
    );
}

#[test]
fn bindings_fire_when_all_keys_held() {
    let config = Config::default();
    let mut m = InputManager::new();
    assert!(run(m.handle_keyboard_event(&config.keybindings, 133, KeyState::Pressed)).is_empty());
    assert_eq!(
        run(m.handle_keyboard_event(&config.keybindings, 36, KeyState::Pressed)),
        vec!["alacritty".to_string()]
    );
    assert_eq!(
        run(m.handle_keyboard_event(&config.keybindings, 24, KeyState::Pressed)),
        vec!["alacritty".to_string(), "close".to_string()]
    );
    assert!(matches!(
        m.handle_keyboard_event(&config.keybindings, 36, KeyState::Released),
        KeyResponse::Nothing
    ));
    assert_eq!(
        run(m.handle_keyboard_event(&config.keybindings, 24, KeyState::Pressed)),
        vec!["close".to_string()]
    );
    assert!(m.pressed_keys.contains(&133) && m.pressed_keys.contains(&24));
    assert!(!m.pressed_keys.contains(&36));
}

#[test]
fn default_bindings_follow_the_keys() {
    let config = Config::default();
    let mut m = InputManager::new();
    m.handle_keyboard_event(&config.keybindings, 133, KeyState::Pressed);
    assert_eq!(
        run(m.handle_keyboard_event(&config.keybindings, 40, KeyState::Pressed)),
        vec!["wofi --show drun".to_string()]
    );
    m.handle_keyboard_event(&config.keybindings, 40, KeyState::Released);
    assert_eq!(
        run(m.handle_keyboard_event(&config.keybindings, 12, KeyState::Pressed)),
        vec!["workspace 3".to_string()]
    );
    m.handle_keyboard_event(&config.keybindings, 12, KeyState::Released);
    assert_eq!(
        run(m.handle_keyboard_event(&config.keybindings, 43, KeyState::Pressed)),
        vec!["focus left".to_string()]
    );
    m.handle_keyboard_event(&config.keybindings, 43, KeyState::Released);
    assert_eq!(
        run(m.handle_keyboard_event(&config.keybindings, 41, KeyState::Pressed)),
        vec!["fullscreen".to_string()]
    );
    m.handle_keyboard_event(&config.keybindings, 41, KeyState::Released);
    assert_eq!(
        run(m.handle_keyboard_event(&config.keybindings, 65, KeyState::Pressed)),
        vec!["floating".to_string()]
    );
    m.handle_keyboard_event(&config.keybindings, 65, KeyState::Released);
    assert_eq!(
        run(m.handle_keyboard_event(&config.keybindings, 27, KeyState::Pressed)),
        vec!["cycle-layout".to_string()]
    );
    m.handle_keyboard_event(&config.keybindings, 27, KeyState::Released);
    m.handle_keyboard_event(&config.keybindings, 50, KeyState::Pressed);
    assert_eq!(
        run(m.handle_keyboard_event(&config.keybindings, 24, KeyState::Pressed)),
        vec!["close".to_string(), "quit".to_string()]
    );
    m.handle_keyboard_event(&config.keybindings, 24, KeyState::Released);
    assert_eq!(
        run(m.handle_keyboard_event(&config.keybindings, 18, KeyState::Pressed)),
        vec!["move-to-workspace 9".to_string(), "workspace 9".to_string()]
    );
    m.handle_keyboard_event(&config.keybindings, 18, KeyState::Released);
    assert_eq!(
        run(m.handle_keyboard_event(&config.keybindings, 46, KeyState::Pressed)),
        vec!["move right".to_string(), "focus right".to_string()]
    );
}

#[test]
fn escape_quits() {
    let config = Config::default();
    let mut m = InputManager::new();
    assert!(matches!(
        m.handle_keyboard_event(&config.keybindings, 1, KeyState::Pressed),
        KeyResponse::Quit
    ));
    assert!(m.pressed_keys.contains(&1));
}

#[test]
fn press_then_release_restores() {
    let config = Config::default();
    let mut m = InputManager::new();
    m.handle_keyboard_event(&config.keybindings, 133, KeyState::Pressed);
    m.handle_keyboard_event(&config.keybindings, 99, KeyState::Pressed);
    m.handle_keyboard_event(&config.keybindings, 99, KeyState::Released);
    assert_eq!(m.pressed_keys.len(), 1);
    assert!(m.pressed_keys.contains(&133));
}

#[test]
fn binding_by_key_code_name_and_without_keys() {
    let mut config = Config::default();
    config.keybindings.bindings[0].keys = vec!["KEY99".to_string()];
    config.keybindings.bindings[1].keys = vec![];
    let mut m = InputManager::new();
    assert_eq!(
        run(m.handle_keyboard_event(&config.keybindings, 99, KeyState::Pressed)),
        vec!["alacritty".to_string(), "close".to_string()]
    );
}

#[test]
fn pressed_names_list_each_key() {
    let config = Config::default();
    let mut m = InputManager::new();
    m.handle_keyboard_event(&config.keybindings, 133, KeyState::Pressed);
    m.handle_keyboard_event(&config.keybindings, 7, KeyState::Pressed);
    let mut names = m.pressed_key_names();
    names.sort();
    assert_eq!(names, vec!["key7".to_string(), "super".to_string()]);
}

#[test]
fn commands() {
    assert_eq!(command_action("close"), CommandAction::CloseFocused);
    assert_eq!(command_action("quit"), CommandAction::Quit);
    assert_eq!(command_action("workspace 1"), CommandAction::SwitchWorkspace(0));
    assert_eq!(command_action("workspace 3"), CommandAction::SwitchWorkspace(2));
    assert_eq!(command_action("move-to-workspace 9"), CommandAction::MoveToWorkspace(8));
    assert_eq!(command_action("focus left"), CommandAction::Focus(Direction::Left));
    assert_eq!(command_action("focus down"), CommandAction::Focus(Direction::Down));
    assert_eq!(command_action("focus up"), CommandAction::Focus(Direction::Up));
    assert_eq!(command_action("focus right"), CommandAction::Focus(Direction::Right));
    assert_eq!(command_action("move left"), CommandAction::MoveWindow(Direction::Left));
    assert_eq!(command_action("move right"), CommandAction::MoveWindow(Direction::Right));
    assert_eq!(command_action("fullscreen"), CommandAction::ToggleFullscreen);
    assert_eq!(command_action("floating"), CommandAction::ToggleFloating);
    assert_eq!(command_action("cycle-layout"), CommandAction::CycleLayout);
    assert_eq!(command_action("workspace 0"), CommandAction::Spawn);
    assert_eq!(command_action("workspace 10"), CommandAction::Spawn);
    assert_eq!(command_action("workspace"), CommandAction::Spawn);
    assert_eq!(command_action("focus"), CommandAction::Spawn);
    assert_eq!(command_action("alacritty"), CommandAction::Spawn);
    assert_eq!(command_action("Close"), CommandAction::Spawn);
}

fn strings(v: &[&str]) -> Vec<String> {
    v.iter().map(|s| s.to_string()).collect()
}

#[test]
fn lowercased_keys_against_held_names() {
    let held = strings(&["super", "shift", "q"]);
    assert!(all_listed(&strings(&["super", "q"]), &held));
    assert!(all_listed(&strings(&[]), &held));
    assert!(!all_listed(&strings(&["super", "d"]), &held));
    assert!(!all_listed(&strings(&["SUPER", "q"]), &held));
    assert!(!all_listed(&strings(&["super"]), &strings(&[])));
}
