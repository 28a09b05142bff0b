use screen_share::command::{
    clipboard_reply, control_action, copy_key_sequence, paste_key_sequence, round_trip_ms,
    round_trip_ms_u32, ControlAction, ControlResponse, InputCommand,
};

fn key(code: u16, pressed: bool) -> InputCommand {
    InputCommand::Key { code, pressed }
}

#[test]
fn ping_is_answered_with_its_timestamp() {
    match control_action(InputCommand::Ping { timestamp: 1234 }) {
        ControlAction::Reply(r) => assert_eq!(r, ControlResponse::Pong { timestamp: 1234 }),
        _ => panic!("a ping is answered"),
    }
}

#[test]
fn clipboard_request_reads_the_clipboard() {
    assert!(matches!(control_action(InputCommand::ClipboardRequest), ControlAction::ReplyWithClipboard));
    assert_eq!(
        clipboard_reply(Some("abc".to_string())),
        Some(ControlResponse::ClipboardSync { text: "abc".to_string() })
    );
    assert_eq!(clipboard_reply(None), None);
}

#[test]
fn paste_sets_clipboard_then_presses_ctrl_v() {
    match control_action(InputCommand::ClipboardPaste { text: "hello".to_string() }) {
        ControlAction::Paste { text, keys } => {
            assert_eq!(text, "hello");
            assert_eq!(keys, vec![key(29, true), key(47, true), key(47, false), key(29, false)]);
        },
        _ => panic!("a paste pastes"),
    }
    assert_eq!(paste_key_sequence().len(), 4);
}

#[test]
fn other_commands_are_forwarded() {
    let cmds = vec![
        InputCommand::MouseMove { x: 1, y: 2 },
        InputCommand::MouseMoveRelative { dx: -3, dy: 4 },
        InputCommand::MouseButton { button: 2, pressed: true },
        InputCommand::MouseScroll { dy: -1 },
        key(30, true),
    ];
    for c in cmds {
        match control_action(c.clone()) {
            ControlAction::Forward(f) => assert_eq!(f, c),
            _ => panic!("forwarded"),
        }
    }
}

#[test]
fn copy_shortcut_is_ctrl_c() {
    assert_eq!(copy_key_sequence(), vec![key(29, true), key(46, true), key(46, false), key(29, false)]);
}

#[test]
fn round_trip_times() {
    assert_eq!(round_trip_ms(1500, 1000), 500);
    assert_eq!(round_trip_ms(900, 1000), 0);
    assert_eq!(round_trip_ms_u32(0x1_0000_0005, 0), 5);
}

#[test]
fn replies_become_client_events() {
    use_response_event();
}

fn use_response_event() {
    assert_eq!(
        screen_share::command::response_event(ControlResponse::Pong { timestamp: 100 }, 130),
        screen_share::command::ResponseEvent::Latency(30)
    );
    assert_eq!(
        screen_share::command::response_event(
            ControlResponse::ClipboardSync { text: "x".to_string() },
            0
        ),
        screen_share::command::ResponseEvent::Clipboard("x".to_string())
    );
}
