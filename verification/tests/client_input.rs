use screen_share::input_events::{injection_events, VirtualDevice};
use screen_share::client_input::{
    display_key_up, display_motion, key_down_action, key_up_action, mouse_button_index,
    ClientLoop, DisplayKeyAction, DisplayState, KeyAction, MouseButton,
};
use screen_share::command::InputCommand;
use screen_share::keymap::{map_scancode_to_linux, Scancode};

#[test]
fn scancodes_map_to_linux_codes() {
    assert_eq!(map_scancode_to_linux(Scancode::A), 30);
    assert_eq!(map_scancode_to_linux(Scancode::Num0), 11);
    assert_eq!(map_scancode_to_linux(Scancode::Return), 28);
    assert_eq!(map_scancode_to_linux(Scancode::LCtrl), 29);
    assert_eq!(map_scancode_to_linux(Scancode::RAlt), 100);
    assert_eq!(map_scancode_to_linux(Scancode::Up), 103);
    assert_eq!(map_scancode_to_linux(Scancode::F11), 87);
    assert_eq!(map_scancode_to_linux(Scancode::F12), 88);
    assert_eq!(map_scancode_to_linux(Scancode::Other), 0);
}

#[test]
fn mouse_buttons_are_numbered() {
    assert_eq!(mouse_button_index(MouseButton::Left), Some(0));
    assert_eq!(mouse_button_index(MouseButton::Middle), Some(1));
    assert_eq!(mouse_button_index(MouseButton::Right), Some(2));
    assert_eq!(mouse_button_index(MouseButton::X1), Some(3));
    assert_eq!(mouse_button_index(MouseButton::X2), Some(4));
    assert_eq!(mouse_button_index(MouseButton::Other), None);
}

#[test]
fn shortcuts_paste_and_copy() {
    assert_eq!(key_down_action(Scancode::V, true, false), KeyAction::PasteLocalClipboard);
    assert_eq!(key_down_action(Scancode::V, false, true), KeyAction::PasteLocalClipboard);
    match key_down_action(Scancode::C, true, false) {
        KeyAction::CopyRemote(keys) => assert_eq!(keys.len(), 4),
        _ => panic!("copy"),
    }
    assert_eq!(key_up_action(Scancode::C, true, false), KeyAction::Ignore);
    assert_eq!(key_up_action(Scancode::V, false, true), KeyAction::Ignore);
}

#[test]
fn plain_keys_are_forwarded() {
    assert_eq!(
        key_down_action(Scancode::V, false, false),
        KeyAction::Send(InputCommand::Key { code: 47, pressed: true })
    );
    assert_eq!(
        key_up_action(Scancode::A, true, false),
        KeyAction::Send(InputCommand::Key { code: 30, pressed: false })
    );
    assert_eq!(key_down_action(Scancode::Other, false, false), KeyAction::Ignore);
}

#[test]
fn pointer_motion_is_throttled() {
    let mut l = ClientLoop::new(0);
    // Within 7 ms of the last send: held back.
    assert_eq!(l.on_mouse_motion(10, 20, 3_000), None);
    assert_eq!(l.pending_mouse, Some((10, 20)));
    assert_eq!(l.on_mouse_motion(11, 21, 8_000), Some(InputCommand::MouseMove { x: 11, y: 21 }));
    assert_eq!(l.pending_mouse, None);
    assert_eq!(l.last_mouse_send, 8_000);
    // A held-back position goes out before a click.
    assert_eq!(l.on_mouse_motion(12, 22, 9_000), None);
    let sent = l.on_mouse_button(MouseButton::Left, true, 9_500);
    assert_eq!(
        sent,
        vec![
            InputCommand::MouseMove { x: 12, y: 22 },
            InputCommand::MouseButton { button: 0, pressed: true }
        ]
    );
    assert_eq!(l.on_mouse_button(MouseButton::Other, false, 9_600), vec![]);
}

#[test]
fn loop_flushes_pings_and_counts_frames() {
    let mut l = ClientLoop::new(0);
    l.on_mouse_motion(1, 1, 1_000);
    l.on_frame();
    l.on_frame();
    assert_eq!(l.end_of_events(5_000, 77), vec![]);
    assert_eq!(l.end_of_events(8_000, 77), vec![InputCommand::MouseMove { x: 1, y: 1 }]);
    assert_eq!(l.end_of_events(500_000, 99), vec![InputCommand::Ping { timestamp: 99 }]);
    assert_eq!(l.last_ping_time, 500_000);
    assert_eq!(l.current_fps, 0);
    assert_eq!(l.end_of_events(1_000_000, 100), vec![InputCommand::Ping { timestamp: 100 }]);
    assert_eq!(l.current_fps, 2);
    assert_eq!(l.frame_count, 0);
}

#[test]
fn linux_client_window_keys() {
    let mut d = DisplayState { fullscreen: false };
    assert!(matches!(d.key_down(Scancode::F11), DisplayKeyAction::ToggleFullscreen(true)));
    assert!(d.fullscreen);
    assert!(matches!(d.key_down(Scancode::F11), DisplayKeyAction::ToggleFullscreen(false)));
    match d.key_down(Scancode::B) {
        DisplayKeyAction::Send(c) => assert_eq!(c, InputCommand::Key { code: 48, pressed: true }),
        _ => panic!("send"),
    }
    assert_eq!(display_key_up(Scancode::B), Some(InputCommand::Key { code: 48, pressed: false }));
    assert_eq!(display_key_up(Scancode::Other), None);
}

#[test]
fn linux_client_motion() {
    assert_eq!(display_motion(5, 6, 0, 0), vec![InputCommand::MouseMove { x: 5, y: 6 }]);
    assert_eq!(
        display_motion(5, 6, -2, 0),
        vec![InputCommand::MouseMove { x: 5, y: 6 }, InputCommand::MouseMoveRelative { dx: -2, dy: 0 }]
    );
}

#[test]
fn forwarded_keys_and_buttons_are_injected() {
    for sc in [Scancode::A, Scancode::Z, Scancode::Num9, Scancode::RGui, Scancode::F12, Scancode::PageDown] {
        let code = map_scancode_to_linux(sc);
        let (d, e) = injection_events(&InputCommand::Key { code, pressed: true }).unwrap();
        assert_eq!(d, VirtualDevice::Keyboard);
        assert_eq!(e[0].code, code);
    }
    for b in [MouseButton::Left, MouseButton::Middle, MouseButton::Right, MouseButton::X1, MouseButton::X2] {
        let button = mouse_button_index(b).unwrap();
        let (d, _) = injection_events(&InputCommand::MouseButton { button, pressed: false }).unwrap();
        assert_eq!(d, VirtualDevice::Mouse);
    }
}
