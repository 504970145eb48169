use rogue::command_manager::CommandManager;
use rogue::input::{handle_key, InputType};

#[test]
fn it_should_check_if_an_event_is_command() {
    let command_event = "key 150";

    let cm = CommandManager::new();
    let event_is_command = cm.is_command_event(command_event);

    assert!(event_is_command);
}

#[test]
fn it_should_create_moveforward_command() {
    let _command_event = "key 119";

    let _cm = CommandManager::new();
}

#[test]
fn it_should_execute_input_command() {}

#[test]
fn other_events_are_not_commands() {
    let cm = CommandManager::new();
    assert!(cm.is_command_event("  key"));
    assert!(!cm.is_command_event("keys 1"));
    assert!(!cm.is_command_event("quit"));
    assert!(!cm.is_command_event(""));
    assert!(!cm.is_command_event("   "));
}

#[test]
fn key_codes_map_to_requests() {
    assert_eq!(handle_key(119), Some(InputType::Move(0, -1)));
    assert_eq!(handle_key(115), Some(InputType::Move(0, 1)));
    assert_eq!(handle_key(100), Some(InputType::Move(1, 0)));
    assert_eq!(handle_key(97), Some(InputType::Move(-1, 0)));
    assert_eq!(handle_key(113), Some(InputType::Exit));
    assert_eq!(handle_key(5), None);
    let mut cm = CommandManager::new();
    assert!(cm.handle_input(119).is_none());
}

#[test]
fn key_events_carry_their_code() {
    let cm = CommandManager::new();
    assert_eq!(cm.get_key_event_input("key 150"), Some(150));
    assert_eq!(cm.get_key_event_input("  key\t119  "), Some(119));
    assert_eq!(cm.get_key_event_input("key -3"), Some(-3));
    assert_eq!(cm.get_key_event_input("key +7"), Some(7));
    assert_eq!(cm.get_key_event_input("key -2147483648"), Some(i32::MIN));
    assert_eq!(cm.get_key_event_input("key 2147483647"), Some(i32::MAX));
    assert_eq!(cm.get_key_event_input("key 2147483648"), None);
    assert_eq!(cm.get_key_event_input("key 99999999999"), None);
    assert_eq!(cm.get_key_event_input("key"), None);
    assert_eq!(cm.get_key_event_input("key abc"), None);
    assert_eq!(cm.get_key_event_input("key -"), None);
    assert_eq!(cm.get_key_event_input("quit 5"), None);
    assert_eq!(cm.get_key_event_input(""), None);
}
