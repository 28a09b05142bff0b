use screen_share::browser_capture::{self, frame_duration_ms};
use screen_share::browser_session::{
    browser_input_command, is_input_channel, offer_failure_ends_session, signal_action, socket_step,
    stream_continues, stream_stays_active, BrowserInput, OfferStage, PeerState, ReadOutcome,
    SignalAction, SignalMessage, SocketEvent, SocketStep,
};
use screen_share::command::InputCommand;

fn msg(kind: Option<&str>) -> SignalMessage {
    SignalMessage {
        kind: kind.map(|s| s.to_string()),
        sdp: None,
        candidate: None,
        sdp_mid: None,
        sdp_mline_index: None,
    }
}

#[test]
fn signalling_offer_and_candidates() {
    let mut m = msg(Some("offer"));
    m.sdp = Some("v=0".to_string());
    assert!(matches!(signal_action(m), SignalAction::AcceptOffer(s) if s == "v=0"));
    assert!(matches!(signal_action(msg(Some("offer"))), SignalAction::OfferWithoutSdp));
    let mut c = msg(Some("ice_candidate"));
    c.candidate = Some("candidate:1".to_string());
    c.sdp_mid = Some("0".to_string());
    c.sdp_mline_index = Some(65537);
    match signal_action(c) {
        SignalAction::AddCandidate { candidate, sdp_mid, sdp_mline_index } => {
            assert_eq!(candidate, "candidate:1");
            assert_eq!(sdp_mid.as_deref(), Some("0"));
            assert_eq!(sdp_mline_index, Some(1));
        },
        _ => panic!("candidate"),
    }
    let mut e = msg(Some("ice_candidate"));
    e.candidate = Some(String::new());
    assert!(matches!(signal_action(e), SignalAction::EndOfCandidates));
    assert!(matches!(signal_action(msg(Some("bye"))), SignalAction::UnknownType(t) if t == "bye"));
    assert!(matches!(signal_action(msg(None)), SignalAction::MissingType));
}

#[test]
fn session_end_conditions() {
    assert!(!offer_failure_ends_session(OfferStage::ParseOffer));
    assert!(offer_failure_ends_session(OfferStage::SetRemoteDescription));
    assert!(offer_failure_ends_session(OfferStage::CreateAnswer));
    assert!(offer_failure_ends_session(OfferStage::SetLocalDescription));
    assert_eq!(socket_step(SocketEvent::Text), SocketStep::Handle);
    assert_eq!(socket_step(SocketEvent::OtherFrame), SocketStep::Skip);
    assert_eq!(socket_step(SocketEvent::Close), SocketStep::End);
    assert_eq!(socket_step(SocketEvent::Error), SocketStep::End);
    assert!(stream_stays_active(PeerState::Connected));
    assert!(stream_stays_active(PeerState::Connecting));
    assert!(!stream_stays_active(PeerState::Disconnected));
    assert!(!stream_stays_active(PeerState::Failed));
    assert!(!stream_stays_active(PeerState::Closed));
    assert!(is_input_channel("input"));
    assert!(!is_input_channel("chat"));
    assert!(stream_continues(true, &ReadOutcome::Data(10)));
    assert!(!stream_continues(true, &ReadOutcome::Data(0)));
    assert!(!stream_continues(false, &ReadOutcome::Data(10)));
    assert!(!stream_continues(true, &ReadOutcome::TimedOut));
    assert!(!stream_continues(true, &ReadOutcome::Failed));
}

fn input(t: &str) -> BrowserInput {
    BrowserInput { t: Some(t.to_string()), x: None, y: None, b: None, d: None, dy: None, c: None }
}

#[test]
fn data_channel_messages() {
    let mut m = input("mm");
    m.x = Some(5);
    m.y = Some(-7);
    assert_eq!(browser_input_command(&m), Some(InputCommand::MouseMoveRelative { dx: 5, dy: -7 }));
    let mut b = input("mb");
    b.b = Some(258);
    b.d = Some(true);
    assert_eq!(browser_input_command(&b), Some(InputCommand::MouseButton { button: 2, pressed: true }));
    let mut w = input("mw");
    w.dy = Some(3);
    assert_eq!(browser_input_command(&w), Some(InputCommand::MouseScroll { dy: 3 }));
    let mut k = input("k");
    k.c = Some(30);
    assert_eq!(browser_input_command(&k), Some(InputCommand::Key { code: 30, pressed: false }));
    assert_eq!(browser_input_command(&input("zz")), None);
    assert_eq!(browser_input_command(&input("mm")), Some(InputCommand::MouseMoveRelative { dx: 0, dy: 0 }));
}

#[test]
fn browser_capture_defaults_and_args() {
    let c = browser_capture::CaptureConfig::from_environment(None, Some("/dev/dri/renderD129".to_string()));
    assert_eq!(c.drm_device, "/dev/dri/card1");
    assert_eq!(c.render_device, "/dev/dri/renderD129");
    assert_eq!((c.framerate, c.gop_size), (30, 30));
    assert_eq!(c.bitrate, "4M");
    let args = browser_capture::ffmpeg_args(&c);
    assert_eq!(args.len(), 43);
    assert_eq!(args[4], "drm=drm:/dev/dri/renderD129");
    assert_eq!(args[14], "30");
    assert_eq!(args[args.len() - 1], "pipe:1");
    assert_eq!(frame_duration_ms(30), 33);
    assert_eq!(frame_duration_ms(60), 16);
}
