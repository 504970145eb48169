use rogue::config_manager::{ConfigManager, Key};

#[test]
fn it_should_have_default_keybinds() {
    let cm = ConfigManager::new();

    let keybinds = cm.get_keybinds();

    assert_eq!(keybinds.get(Key::w), Some("+forward"));
    assert_eq!(keybinds.get(Key::s), Some("+back"));
    assert_eq!(keybinds.get(Key::a), Some("+moveleft"));
    assert_eq!(keybinds.get(Key::d), Some("+moveright"));
}

#[test]
fn it_should_load_config_from_file() {
    let cm = ConfigManager::new();

    cm.execute("assets/config.cfg");
}

#[test]
fn unbound_key_has_no_command() {
    let cm = ConfigManager::new();
    assert_eq!(cm.get_keybinds().get(Key::W), None);
}
