//! The browser variant's session: what the signalling messages of a
//! WebSocket ask for, what the input data channel's messages inject, and
//! when the session ends.

use crate::command::InputCommand;
use crate::text::str_eq;
use vstd::prelude::*;

verus! {

/// Public STUN server used for NAT discovery.
pub const STUN_SERVER: &'static str = "stun:stun.l.google.com:19302";

/// RTP clock rate of the video track.
pub const VIDEO_CLOCK_RATE: u32 = 90_000;

/// Label of the data channel that carries input.
pub const INPUT_CHANNEL_LABEL: &'static str = "input";

/// Seconds without encoder output after which the stream stops.
pub const READ_TIMEOUT_SECS: u64 = 5;

/// Delay before the encoder starts, letting the peers negotiate.
pub const STREAM_START_DELAY_MS: u64 = 500;

/// The fields of a signalling message from the browser; each is `None`
/// when missing or of another JSON type.
pub struct SignalMessage {
    pub kind: Option<String>,
    pub sdp: Option<String>,
    pub candidate: Option<String>,
    pub sdp_mid: Option<String>,
    pub sdp_mline_index: Option<u64>,
}

/// What a signalling message asks for.
pub enum SignalAction {
    /// Take this SDP offer and answer it.
    AcceptOffer(String),
    /// An offer without SDP: ignored.
    OfferWithoutSdp,
    /// Add this remote ICE candidate.
    AddCandidate { candidate: String, sdp_mid: Option<String>, sdp_mline_index: Option<u16> },
    /// An empty candidate: gathering is over; nothing to do.
    EndOfCandidates,
    /// A message of another type: ignored.
    UnknownType(String),
    /// A message without type: ignored.
    MissingType,
}

/// The model of a signalling action.
pub enum SignalDecision {
    AcceptOffer(Seq<char>),
    OfferWithoutSdp,
    AddCandidate(Seq<char>, Option<Seq<char>>, Option<u16>),
    EndOfCandidates,
    UnknownType(Seq<char>),
    MissingType,
}

/// The characters of an optional string.
pub open spec fn opt_chars(s: Option<String>) -> Option<Seq<char>> {
    match s {
        Some(v) => Some(v@),
        None => None,
    }
}

/// The model of an action.
pub open spec fn signal_view(a: SignalAction) -> SignalDecision {
    match a {
        SignalAction::AcceptOffer(sdp) => SignalDecision::AcceptOffer(sdp@),
        SignalAction::OfferWithoutSdp => SignalDecision::OfferWithoutSdp,
        SignalAction::AddCandidate { candidate, sdp_mid, sdp_mline_index } => SignalDecision::AddCandidate(
            candidate@,
            opt_chars(sdp_mid),
            sdp_mline_index,
        ),
        SignalAction::EndOfCandidates => SignalDecision::EndOfCandidates,
        SignalAction::UnknownType(t) => SignalDecision::UnknownType(t@),
        SignalAction::MissingType => SignalDecision::MissingType,
    }
}

/// What a message asks for: an `offer` is answered, an `ice_candidate`
/// with a non-empty candidate is added (its line index cut to 16 bits),
/// anything else is ignored.
pub open spec fn signal_decision(m: SignalMessage) -> SignalDecision {
    match opt_chars(m.kind) {
        Some(t) => if t == "offer"@ {
            match opt_chars(m.sdp) {
                Some(sdp) => SignalDecision::AcceptOffer(sdp),
                None => SignalDecision::OfferWithoutSdp,
            }
        } else if t == "ice_candidate"@ {
            match opt_chars(m.candidate) {
                Some(c) => if c.len() == 0 {
                    SignalDecision::EndOfCandidates
                } else {
                    SignalDecision::AddCandidate(
                        c,
                        opt_chars(m.sdp_mid),
                        match m.sdp_mline_index {
                            Some(n) => Some(n as u16),
                            None => None,
                        },
                    )
                },
                None => SignalDecision::EndOfCandidates,
            }
        } else {
            SignalDecision::UnknownType(t)
        },
        None => SignalDecision::MissingType,
    }
}

/// What the signalling message `m` asks for.
pub fn signal_action(m: SignalMessage) -> (a: SignalAction)
    ensures
        signal_view(a) == signal_decision(m),
{
    match m.kind {
        Some(t) => {
            if str_eq(t.as_str(), "offer") {
                match m.sdp {
                    Some(sdp) => SignalAction::AcceptOffer(sdp),
                    None => SignalAction::OfferWithoutSdp,
                }
            } else if str_eq(t.as_str(), "ice_candidate") {
                match m.candidate {
                    Some(c) => {
                        if c.as_str().unicode_len() == 0 {
                            SignalAction::EndOfCandidates
                        } else {
                            let idx = match m.sdp_mline_index {
                                Some(n) => Some(n as u16),
                                None => None,
                            };
                            SignalAction::AddCandidate {
                                candidate: c,
                                sdp_mid: m.sdp_mid,
                                sdp_mline_index: idx,
                            }
                        }
                    },
                    None => SignalAction::EndOfCandidates,
                }
            } else {
                SignalAction::UnknownType(t)
            }
        },
        None => SignalAction::MissingType,
    }
}

/// The steps of answering an offer.
#[derive(Debug, Clone, Copy, PartialEq, Eq, Structural)]
pub enum OfferStage {
    /// Reading the offer's SDP.
    ParseOffer,
    /// Setting it as the remote description.
    SetRemoteDescription,
    /// Creating the answer.
    CreateAnswer,
    /// Setting the answer as the local description.
    SetLocalDescription,
}

/// Whether a failure at `stage` ends the session: an unreadable offer is
/// skipped, a failure of the peer connection ends it.
pub fn offer_failure_ends_session(stage: OfferStage) -> (ends: bool)
    ensures
        ends == (stage != OfferStage::ParseOffer),
{
    match stage {
        OfferStage::ParseOffer => false,
        _ => true,
    }
}

/// What arrived on the WebSocket.
#[derive(Debug, Clone, Copy, PartialEq, Eq, Structural)]
pub enum SocketEvent {
    Text,
    Close,
    /// Binary, ping or pong frames.
    OtherFrame,
    Error,
}

/// What the session does with it.
#[derive(Debug, Clone, Copy, PartialEq, Eq, Structural)]
pub enum SocketStep {
    /// Read the text as a signalling message.
    Handle,
    /// Wait for the next frame.
    Skip,
    /// Close the peer connection and end.
    End,
}

/// Text is handled, other frames are skipped, a close or an error ends the
/// session.
pub fn socket_step(e: SocketEvent) -> (s: SocketStep)
    ensures
        s == match e {
            SocketEvent::Text => SocketStep::Handle,
            SocketEvent::OtherFrame => SocketStep::Skip,
            SocketEvent::Close => SocketStep::End,
            SocketEvent::Error => SocketStep::End,
        },
{
    match e {
        SocketEvent::Text => SocketStep::Handle,
        SocketEvent::OtherFrame => SocketStep::Skip,
        SocketEvent::Close => SocketStep::End,
        SocketEvent::Error => SocketStep::End,
    }
}

/// States of the peer connection.
#[derive(Debug, Clone, Copy, PartialEq, Eq, Structural)]
pub enum PeerState {
    Unspecified,
    New,
    Connecting,
    Connected,
    Disconnected,
    Failed,
    Closed,
}

/// Whether the stream goes on in `state`: it stops once the connection
/// failed, closed or was lost.
pub fn stream_stays_active(state: PeerState) -> (active: bool)
    ensures
        active == !(state == PeerState::Failed || state == PeerState::Closed || state
            == PeerState::Disconnected),
{
    match state {
        PeerState::Failed | PeerState::Closed | PeerState::Disconnected => false,
        _ => true,
    }
}

/// Whether a data channel carries input: its label is `input`.
pub fn is_input_channel(label: &str) -> (r: bool)
    ensures
        r == (label@ == INPUT_CHANNEL_LABEL@),
{
    str_eq(label, INPUT_CHANNEL_LABEL)
}

/// What one read of the encoder's output gave.
pub enum ReadOutcome {
    /// `n` bytes (0 at the end of the stream).
    Data(usize),
    Failed,
    TimedOut,
}

/// Whether the stream sends the bytes read and goes on: only while the
/// connection is active and the read gave data.
pub fn stream_continues(active: bool, read: &ReadOutcome) -> (go: bool)
    ensures
        go == (active && match read {
            ReadOutcome::Data(n) => *n > 0,
            _ => false,
        }),
{
    if !active {
        return false;
    }
    match read {
        ReadOutcome::Data(n) => *n > 0,
        _ => false,
    }
}

/// The fields of an input message from the data channel; each is `None`
/// when missing or of another JSON type.
pub struct BrowserInput {
    pub t: Option<String>,
    pub x: Option<i64>,
    pub y: Option<i64>,
    pub b: Option<u64>,
    pub d: Option<bool>,
    pub dy: Option<i64>,
    pub c: Option<u64>,
}

/// `v` or 0.
pub open spec fn or_zero_i(v: Option<i64>) -> i64 {
    match v {
        Some(n) => n,
        None => 0,
    }
}

/// `v` or 0.
pub open spec fn or_zero_u(v: Option<u64>) -> u64 {
    match v {
        Some(n) => n,
        None => 0,
    }
}

/// `v` or false.
pub open spec fn or_false(v: Option<bool>) -> bool {
    match v {
        Some(b) => b,
        None => false,
    }
}

/// The command of an input message: `mm` relative motion, `mb` a button,
/// `mw` the wheel, `k` a key; a missing number counts as 0 and a missing
/// flag as released, and numbers are cut to the field's width. Other
/// messages inject nothing.
pub open spec fn browser_command(m: BrowserInput) -> Option<InputCommand> {
    match opt_chars(m.t) {
        Some(t) => if t == "mm"@ {
            Some(
                InputCommand::MouseMoveRelative {
                    dx: or_zero_i(m.x) as i32,
                    dy: or_zero_i(m.y) as i32,
                },
            )
        } else if t == "mb"@ {
            Some(InputCommand::MouseButton { button: or_zero_u(m.b) as u8, pressed: or_false(m.d) })
        } else if t == "mw"@ {
            Some(InputCommand::MouseScroll { dy: or_zero_i(m.dy) as i32 })
        } else if t == "k"@ {
            Some(InputCommand::Key { code: or_zero_u(m.c) as u16, pressed: or_false(m.d) })
        } else {
            None
        },
        None => None,
    }
}

/// The command an input message injects, if any.
pub fn browser_input_command(m: &BrowserInput) -> (cmd: Option<InputCommand>)
    ensures
        cmd == browser_command(*m),
{
    let x: i64 = match m.x {
        Some(v) => v,
        None => 0,
    };
    let y: i64 = match m.y {
        Some(v) => v,
        None => 0,
    };
    let b: u64 = match m.b {
        Some(v) => v,
        None => 0,
    };
    let d: bool = match m.d {
        Some(v) => v,
        None => false,
    };
    let dy: i64 = match m.dy {
        Some(v) => v,
        None => 0,
    };
    let c: u64 = match m.c {
        Some(v) => v,
        None => 0,
    };
    match &m.t {
        Some(t) => {
            let t = t.as_str();
            if str_eq(t, "mm") {
                Some(InputCommand::MouseMoveRelative { dx: x as i32, dy: y as i32 })
            } else if str_eq(t, "mb") {
                Some(InputCommand::MouseButton { button: b as u8, pressed: d })
            } else if str_eq(t, "mw") {
                Some(InputCommand::MouseScroll { dy: dy as i32 })
            } else if str_eq(t, "k") {
                Some(InputCommand::Key { code: c as u16, pressed: d })
            } else {
                None
            }
        },
        None => None,
    }
}

/// Law: a signalling message of type `offer` is answered with its SDP
/// (ignored without one); one of type `ice_candidate` adds its candidate,
/// with its media id and its line index cut to 16 bits, unless the
/// candidate is empty or missing, which ends gathering; any other type is
/// ignored by name, and a message without type is ignored.
pub proof fn law_signal_messages(m: SignalMessage)
    ensures
        m.kind matches Some(k) && k@ == "offer"@ ==> signal_decision(m) == match m.sdp {
            Some(sdp) => SignalDecision::AcceptOffer(sdp@),
            None => SignalDecision::OfferWithoutSdp,
        },
        m.kind matches Some(k) && k@ == "ice_candidate"@ ==> signal_decision(m) == match m.candidate {
            Some(c) => if c@.len() > 0 {
                SignalDecision::AddCandidate(
                    c@,
                    match m.sdp_mid {
                        Some(mid) => Some(mid@),
                        None => None,
                    },
                    match m.sdp_mline_index {
                        Some(n) => Some((n % 0x1_0000) as u16),
                        None => None,
                    },
                )
            } else {
                SignalDecision::EndOfCandidates
            },
            None => SignalDecision::EndOfCandidates,
        },
        m.kind matches Some(k) ==> (k@ != "offer"@ && k@ != "ice_candidate"@ ==> signal_decision(m)
            == SignalDecision::UnknownType(k@)),
        m.kind is None ==> signal_decision(m) == SignalDecision::MissingType,
{
    reveal_strlit("offer");
    reveal_strlit("ice_candidate");
    assert("offer"@.len() == 5 && "ice_candidate"@.len() == 13);
    if let Some(n) = m.sdp_mline_index {
        assert((n as u16) == (n % 0x1_0000) as u16) by (bit_vector);
    }
}

/// The message's type is `name`.
pub open spec fn has_type(m: BrowserInput, name: Seq<char>) -> bool {
    m.t matches Some(t) && t@ == name
}

/// Law: an input message of type `k` or `mb` presses the key or button when
/// its `d` field is `true`, and releases it when `d` is `false` or missing;
/// a key message names the key by its `c` field and a button message the
/// button by its `b` field (0 when missing, cut to the field's width). A
/// `mw` message scrolls by its `dy` field and an `mm` message moves by its
/// `x` and `y` fields (0 when missing). Any other type, or none, injects
/// nothing.
pub proof fn law_browser_input_fields(m: BrowserInput)
    ensures
        has_type(m, "k"@) ==> browser_command(m) == Some(
            (InputCommand::Key {
                code: match m.c {
                    Some(c) => (c % 0x1_0000) as u16,
                    None => 0u16,
                },
                pressed: m.d == Some(true),
            }),
        ),
        has_type(m, "mb"@) ==> browser_command(m) == Some(
            (InputCommand::MouseButton {
                button: match m.b {
                    Some(b) => (b % 0x100) as u8,
                    None => 0u8,
                },
                pressed: m.d == Some(true),
            }),
        ),
        has_type(m, "mw"@) && m.dy is None ==> browser_command(m) == Some(
            (InputCommand::MouseScroll { dy: 0 }),
        ),
        has_type(m, "mm"@) && m.x is None && m.y is None ==> browser_command(m) == Some(
            (InputCommand::MouseMoveRelative { dx: 0, dy: 0 }),
        ),
        !has_type(m, "k"@) && !has_type(m, "mb"@) && !has_type(m, "mw"@) && !has_type(m, "mm"@)
            ==> browser_command(m) is None,
{
    reveal_strlit("k");
    reveal_strlit("mb");
    reveal_strlit("mw");
    reveal_strlit("mm");
    assert("k"@.len() == 1 && "mb"@.len() == 2 && "mw"@[1] == 'w' && "mm"@[1] == 'm'
        && "mb"@[1] == 'b');
    if let Some(c) = m.c {
        assert((c as u16) == (c % 0x1_0000) as u16) by (bit_vector);
    }
    if let Some(b) = m.b {
        assert((b as u8) == (b % 0x100) as u8) by (bit_vector);
    }
}

} // verus!
