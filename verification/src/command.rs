//! Control-channel messages and the server's answer to each of them.
//!
//! Every message travels as one JSON object per line over the TCP control
//! channel. The library decides what a message means; the programs around it
//! read and write the lines.

use vstd::prelude::*;

verus! {

/// Linux key code of the left Ctrl key.
pub const KEY_LEFTCTRL: u16 = 29;

/// Linux key code of the C key.
pub const KEY_C: u16 = 46;

/// Linux key code of the V key.
pub const KEY_V: u16 = 47;

/// Pause, in milliseconds, between the key events of a simulated Ctrl+V.
pub const PASTE_KEY_DELAY_MS: u64 = 15;

/// Delay, in milliseconds, between a simulated Ctrl+C and the request for
/// the remote clipboard.
pub const COPY_REQUEST_DELAY_MS: u64 = 150;

/// A command from a client to the server.
#[derive(Debug, Clone, PartialEq)]
pub enum InputCommand {
    /// Absolute pointer position, each axis normalised to 0..=32767.
    MouseMove { x: i32, y: i32 },
    /// Relative pointer motion in pixels.
    MouseMoveRelative { dx: i32, dy: i32 },
    /// Mouse button (0 left, 1 middle, 2 right, 3 side, 4 extra).
    MouseButton { button: u8, pressed: bool },
    /// Wheel motion (positive is up).
    MouseScroll { dy: i32 },
    /// Keyboard key, as a Linux evdev key code.
    Key { code: u16, pressed: bool },
    /// Put `text` on the server's clipboard and paste it.
    ClipboardPaste { text: String },
    /// Ask for the server's clipboard.
    ClipboardRequest,
    /// Latency probe carrying the client's clock in milliseconds.
    Ping { timestamp: u64 },
}

/// A reply from the server.
#[derive(Debug, Clone, PartialEq)]
pub enum ControlResponse {
    /// The server's clipboard.
    ClipboardSync { text: String },
    /// Answer to a `Ping`, echoing its timestamp.
    Pong { timestamp: u64 },
}

/// What the control server does with one command.
pub enum ControlAction {
    /// Send this reply back at once.
    Reply(ControlResponse),
    /// Read the local clipboard; send it back if it could be read.
    ReplyWithClipboard,
    /// Put `text` on the local clipboard, then inject `keys` one by one,
    /// `PASTE_KEY_DELAY_MS` apart.
    Paste { text: String, keys: Vec<InputCommand> },
    /// Hand the command to the input injector.
    Forward(InputCommand),
}

/// One key event.
pub open spec fn key(code: u16, pressed: bool) -> InputCommand {
    InputCommand::Key { code, pressed }
}

/// Ctrl+V as four key events: Ctrl down, V down, V up, Ctrl up.
pub open spec fn paste_keys() -> Seq<InputCommand> {
    seq![key(KEY_LEFTCTRL, true), key(KEY_V, true), key(KEY_V, false), key(KEY_LEFTCTRL, false)]
}

/// Ctrl+C as four key events: Ctrl down, C down, C up, Ctrl up.
pub open spec fn copy_keys() -> Seq<InputCommand> {
    seq![key(KEY_LEFTCTRL, true), key(KEY_C, true), key(KEY_C, false), key(KEY_LEFTCTRL, false)]
}

/// The server's decision for a command.
pub open spec fn control_decision(cmd: InputCommand) -> ControlDecision {
    match cmd {
        InputCommand::Ping { timestamp } => ControlDecision::Reply(
            ControlResponse::Pong { timestamp },
        ),
        InputCommand::ClipboardRequest => ControlDecision::ReplyWithClipboard,
        InputCommand::ClipboardPaste { text } => ControlDecision::Paste(text@, paste_keys()),
        other => ControlDecision::Forward(other),
    }
}

/// The model of a `ControlAction`.
pub enum ControlDecision {
    Reply(ControlResponse),
    ReplyWithClipboard,
    Paste(Seq<char>, Seq<InputCommand>),
    Forward(InputCommand),
}

/// The model of an action.
pub open spec fn action_view(a: ControlAction) -> ControlDecision {
    match a {
        ControlAction::Reply(r) => ControlDecision::Reply(r),
        ControlAction::ReplyWithClipboard => ControlDecision::ReplyWithClipboard,
        ControlAction::Paste { text, keys } => ControlDecision::Paste(text@, keys@),
        ControlAction::Forward(c) => ControlDecision::Forward(c),
    }
}

/// The four key events of Ctrl+V.
pub fn paste_key_sequence() -> (keys: Vec<InputCommand>)
    ensures
        keys@ == paste_keys(),
{
    let keys = vec![
        InputCommand::Key { code: KEY_LEFTCTRL, pressed: true },
        InputCommand::Key { code: KEY_V, pressed: true },
        InputCommand::Key { code: KEY_V, pressed: false },
        InputCommand::Key { code: KEY_LEFTCTRL, pressed: false },
    ];
    assert(keys@ =~= paste_keys());
    keys
}

/// The four key events of Ctrl+C.
pub fn copy_key_sequence() -> (keys: Vec<InputCommand>)
    ensures
        keys@ == copy_keys(),
{
    let keys = vec![
        InputCommand::Key { code: KEY_LEFTCTRL, pressed: true },
        InputCommand::Key { code: KEY_C, pressed: true },
        InputCommand::Key { code: KEY_C, pressed: false },
        InputCommand::Key { code: KEY_LEFTCTRL, pressed: false },
    ];
    assert(keys@ =~= copy_keys());
    keys
}

/// What the control server does with `cmd`: a `Ping` is answered with a
/// `Pong` carrying the same timestamp, a clipboard request with the local
/// clipboard, a paste puts the text on the clipboard and presses Ctrl+V,
/// and every other command goes to the input injector.
pub fn control_action(cmd: InputCommand) -> (a: ControlAction)
    ensures
        action_view(a) == control_decision(cmd),
{
    match cmd {
        InputCommand::Ping { timestamp } => ControlAction::Reply(
            ControlResponse::Pong { timestamp },
        ),
        InputCommand::ClipboardRequest => ControlAction::ReplyWithClipboard,
        InputCommand::ClipboardPaste { text } => {
            let keys = paste_key_sequence();
            ControlAction::Paste { text, keys }
        },
        other => ControlAction::Forward(other),
    }
}

/// The answer to a clipboard request, given what reading the local
/// clipboard gave: the text when it could be read, nothing otherwise.
pub fn clipboard_reply(read: Option<String>) -> (r: Option<ControlResponse>)
    ensures
        match read {
            Some(text) => r == Some(ControlResponse::ClipboardSync { text }),
            None => r is None,
        },
{
    match read {
        Some(text) => Some(ControlResponse::ClipboardSync { text }),
        None => None,
    }
}

/// Round-trip time in milliseconds of a `Pong` echoing `sent`, received at
/// `now` (0 when the clock went backwards).
pub fn round_trip_ms(now: u64, sent: u64) -> (rtt: u64)
    ensures
        rtt == if now >= sent { now - sent } else { 0 },
{
    now.saturating_sub(sent)
}

/// The round-trip time as the window client keeps it: the low 32 bits of
/// `round_trip_ms`.
pub fn round_trip_ms_u32(now: u64, sent: u64) -> (rtt: u32)
    ensures
        rtt == (if now >= sent { now - sent } else { 0 }) as u32,
{
    round_trip_ms(now, sent) as u32
}

/// What a client does with a reply from the server.
#[derive(Debug, Clone, PartialEq)]
pub enum ResponseEvent {
    /// A latency probe came back after this many milliseconds.
    Latency(u64),
    /// The server's clipboard, to put on the local one.
    Clipboard(String),
}

/// What a client does with `r`, received at `now` (milliseconds of the
/// clock that stamped the probe).
pub fn response_event(r: ControlResponse, now: u64) -> (e: ResponseEvent)
    ensures
        e == match r {
            ControlResponse::Pong { timestamp } => ResponseEvent::Latency(
                if now >= timestamp {
                    (now - timestamp) as u64
                } else {
                    0
                },
            ),
            ControlResponse::ClipboardSync { text } => ResponseEvent::Clipboard(text),
        },
{
    match r {
        ControlResponse::Pong { timestamp } => ResponseEvent::Latency(round_trip_ms(now, timestamp)),
        ControlResponse::ClipboardSync { text } => ResponseEvent::Clipboard(text),
    }
}

/// Law: pasting on the server types Ctrl+V and copying types Ctrl+C, in
/// evdev's numbers: `KEY_LEFTCTRL` (29) down, `KEY_V` (47) or `KEY_C` (46)
/// down, the same key up, then Ctrl up; every key pressed is released, the
/// last pressed first. A paste command puts its text on the clipboard
/// before those keys; a ping is answered at once with a pong carrying its
/// timestamp; a clipboard request is answered with the clipboard; every
/// other command goes to the input injector unchanged.
pub proof fn law_shortcuts_and_control(cmd: InputCommand)
    ensures
        paste_keys() == seq![
            InputCommand::Key { code: 29, pressed: true },
            InputCommand::Key { code: 47, pressed: true },
            InputCommand::Key { code: 47, pressed: false },
            InputCommand::Key { code: 29, pressed: false },
        ],
        copy_keys() == seq![
            InputCommand::Key { code: 29, pressed: true },
            InputCommand::Key { code: 46, pressed: true },
            InputCommand::Key { code: 46, pressed: false },
            InputCommand::Key { code: 29, pressed: false },
        ],
        cmd matches InputCommand::Ping { timestamp } ==> control_decision(cmd)
            == ControlDecision::Reply(ControlResponse::Pong { timestamp }),
        cmd matches InputCommand::ClipboardPaste { text } ==> control_decision(cmd)
            == ControlDecision::Paste(text@, paste_keys()),
        cmd is ClipboardRequest ==> control_decision(cmd) == ControlDecision::ReplyWithClipboard,
        !(cmd is Ping || cmd is ClipboardPaste || cmd is ClipboardRequest) ==> control_decision(cmd)
            == ControlDecision::Forward(cmd),
{
}

} // verus!
