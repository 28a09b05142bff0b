use screen_share::command::InputCommand;
use screen_share::input_events::{
    injection_events, keyboard_keys, mouse_button_code, mouse_buttons, RawEvent, VirtualDevice,
};

fn ev(kind: u16, code: u16, value: i32) -> RawEvent {
    RawEvent { kind, code, value }
}

#[test]
fn codes_match_evdev() {
    assert_eq!(mouse_button_code(0), Some(evdev::Key::BTN_LEFT.code()));
    assert_eq!(mouse_button_code(1), Some(evdev::Key::BTN_MIDDLE.code()));
    assert_eq!(mouse_button_code(2), Some(evdev::Key::BTN_RIGHT.code()));
    assert_eq!(mouse_button_code(3), Some(evdev::Key::BTN_SIDE.code()));
    assert_eq!(mouse_button_code(4), Some(evdev::Key::BTN_EXTRA.code()));
    assert_eq!(mouse_button_code(5), None);
    assert_eq!(screen_share::input_events::EV_ABS, evdev::EventType::ABSOLUTE.0);
    assert_eq!(screen_share::input_events::EV_REL, evdev::EventType::RELATIVE.0);
    assert_eq!(screen_share::input_events::EV_KEY, evdev::EventType::KEY.0);
    assert_eq!(screen_share::input_events::EV_SYN, evdev::EventType::SYNCHRONIZATION.0);
    assert_eq!(screen_share::input_events::REL_WHEEL, evdev::RelativeAxisType::REL_WHEEL.0);
    assert_eq!(screen_share::input_events::ABS_Y, evdev::AbsoluteAxisType::ABS_Y.0);
}

#[test]
fn events_of_each_command() {
    let (d, e) = injection_events(&InputCommand::MouseMove { x: 100, y: 200 }).unwrap();
    assert_eq!(d, VirtualDevice::Mouse);
    assert_eq!(e, vec![ev(3, 0, 100), ev(3, 1, 200), ev(0, 0, 0)]);
    let (d, e) = injection_events(&InputCommand::MouseButton { button: 2, pressed: true }).unwrap();
    assert_eq!(d, VirtualDevice::Mouse);
    assert_eq!(e, vec![ev(1, 0x111, 1), ev(0, 0, 0)]);
    let (_, e) = injection_events(&InputCommand::MouseScroll { dy: -3 }).unwrap();
    assert_eq!(e, vec![ev(2, 8, -3), ev(0, 0, 0)]);
    let (d, e) = injection_events(&InputCommand::Key { code: 30, pressed: false }).unwrap();
    assert_eq!(d, VirtualDevice::Keyboard);
    assert_eq!(e, vec![ev(1, 30, 0), ev(0, 0, 0)]);
}

#[test]
fn commands_that_inject_nothing() {
    assert!(injection_events(&InputCommand::Key { code: 0, pressed: true }).is_none());
    assert!(injection_events(&InputCommand::Key { code: 256, pressed: true }).is_none());
    assert!(injection_events(&InputCommand::MouseButton { button: 9, pressed: true }).is_none());
    assert!(injection_events(&InputCommand::ClipboardRequest).is_none());
    assert!(injection_events(&InputCommand::Ping { timestamp: 1 }).is_none());
    assert!(injection_events(&InputCommand::MouseMoveRelative { dx: 1, dy: 1 }).is_none());
}

#[test]
fn device_capabilities() {
    let keys = keyboard_keys();
    assert_eq!(keys.len(), 255);
    assert_eq!(keys[0], 1);
    assert_eq!(keys[254], 255);
    assert_eq!(mouse_buttons(), vec![0x110, 0x111, 0x112, 0x113, 0x114]);
}
