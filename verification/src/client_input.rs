//! The clients' input loop: what each keyboard and mouse event sends to the
//! server, pointer-motion throttling, latency probes and the frame-rate
//! counter.

use crate::command::{copy_keys, copy_key_sequence, paste_keys, InputCommand, KEY_C, KEY_V};
use crate::input_events::{button_code, injection, key_value, syn, RawEvent, VirtualDevice, EV_KEY};
use crate::keymap::{linux_keycode, map_scancode_to_linux, Scancode};
use vstd::prelude::*;

verus! {

/// Shortest time between two pointer-position messages, in microseconds.
pub const MOUSE_SEND_INTERVAL_US: u64 = 7_000;

/// Time between two latency probes, in microseconds.
pub const PING_INTERVAL_US: u64 = 500_000;

/// Length of the frame-rate window, in microseconds.
pub const FPS_WINDOW_US: u64 = 1_000_000;

/// Mouse buttons as the windowing layer reports them.
#[derive(Debug, Clone, Copy, PartialEq, Eq, Structural)]
pub enum MouseButton {
    Left,
    Middle,
    Right,
    X1,
    X2,
    Other,
}

/// The button number sent to the server (0 left, 1 middle, 2 right, 3 and
/// 4 the side buttons); none for other buttons.
pub open spec fn button_index(b: MouseButton) -> Option<u8> {
    match b {
        MouseButton::Left => Some(0),
        MouseButton::Middle => Some(1),
        MouseButton::Right => Some(2),
        MouseButton::X1 => Some(3),
        MouseButton::X2 => Some(4),
        MouseButton::Other => None,
    }
}

/// The number sent to the server for mouse button `b`.
pub fn mouse_button_index(b: MouseButton) -> (r: Option<u8>)
    ensures
        r == button_index(b),
{
    match b {
        MouseButton::Left => Some(0),
        MouseButton::Middle => Some(1),
        MouseButton::Right => Some(2),
        MouseButton::X1 => Some(3),
        MouseButton::X2 => Some(4),
        MouseButton::Other => None,
    }
}

/// What a key event of the window client does.
#[derive(Debug, Clone, PartialEq)]
pub enum KeyAction {
    /// Send the local clipboard with `ClipboardPaste`.
    PasteLocalClipboard,
    /// Send these key events, then, after `COPY_REQUEST_DELAY_MS`, a
    /// `ClipboardRequest`.
    CopyRemote(Vec<InputCommand>),
    /// Send this command.
    Send(InputCommand),
    /// Nothing.
    Ignore,
}

/// The model of a key action.
pub enum KeyDecision {
    PasteLocalClipboard,
    CopyRemote(Seq<InputCommand>),
    Send(InputCommand),
    Ignore,
}

/// The model of an action.
pub open spec fn key_action_view(a: KeyAction) -> KeyDecision {
    match a {
        KeyAction::PasteLocalClipboard => KeyDecision::PasteLocalClipboard,
        KeyAction::CopyRemote(keys) => KeyDecision::CopyRemote(keys@),
        KeyAction::Send(c) => KeyDecision::Send(c),
        KeyAction::Ignore => KeyDecision::Ignore,
    }
}

/// A key press: with Ctrl or the GUI key held, V pastes the local clipboard
/// and C copies on the server; any other forwarded key is pressed on the
/// server.
pub open spec fn key_down_decision(sc: Scancode, ctrl: bool, gui: bool) -> KeyDecision {
    if (ctrl || gui) && sc == Scancode::V {
        KeyDecision::PasteLocalClipboard
    } else if (ctrl || gui) && sc == Scancode::C {
        KeyDecision::CopyRemote(copy_keys())
    } else if linux_keycode(sc) > 0 {
        KeyDecision::Send(InputCommand::Key { code: linux_keycode(sc), pressed: true })
    } else {
        KeyDecision::Ignore
    }
}

/// A key release: the release of V or C with Ctrl or the GUI key held is
/// swallowed; any other forwarded key is released on the server.
pub open spec fn key_up_decision(sc: Scancode, ctrl: bool, gui: bool) -> KeyDecision {
    if (ctrl || gui) && (sc == Scancode::V || sc == Scancode::C) {
        KeyDecision::Ignore
    } else if linux_keycode(sc) > 0 {
        KeyDecision::Send(InputCommand::Key { code: linux_keycode(sc), pressed: false })
    } else {
        KeyDecision::Ignore
    }
}

/// What pressing `sc` does, with the Ctrl and GUI modifier states.
pub fn key_down_action(sc: Scancode, ctrl: bool, gui: bool) -> (a: KeyAction)
    ensures
        key_action_view(a) == key_down_decision(sc, ctrl, gui),
{
    if (ctrl || gui) && sc == Scancode::V {
        KeyAction::PasteLocalClipboard
    } else if (ctrl || gui) && sc == Scancode::C {
        KeyAction::CopyRemote(copy_key_sequence())
    } else {
        let code = map_scancode_to_linux(sc);
        if code > 0 {
            KeyAction::Send(InputCommand::Key { code, pressed: true })
        } else {
            KeyAction::Ignore
        }
    }
}

/// What releasing `sc` does, with the Ctrl and GUI modifier states.
pub fn key_up_action(sc: Scancode, ctrl: bool, gui: bool) -> (a: KeyAction)
    ensures
        key_action_view(a) == key_up_decision(sc, ctrl, gui),
{
    if (ctrl || gui) && (sc == Scancode::V || sc == Scancode::C) {
        KeyAction::Ignore
    } else {
        let code = map_scancode_to_linux(sc);
        if code > 0 {
            KeyAction::Send(InputCommand::Key { code, pressed: false })
        } else {
            KeyAction::Ignore
        }
    }
}

/// Law: the copy shortcut presses and releases, on the server, exactly the
/// keys that the server's paste handling presses for V, with C in its
/// place; and no key event the window client sends for a forwarded key is
/// one of the swallowed V or C releases.
pub proof fn law_copy_shortcut_is_ctrl_c(sc: Scancode, ctrl: bool, gui: bool)
    requires
        ctrl || gui,
        sc == Scancode::C,
    ensures
        key_down_decision(sc, ctrl, gui) == KeyDecision::CopyRemote(copy_keys()),
        key_up_decision(sc, ctrl, gui) == KeyDecision::Ignore,
        copy_keys()[1] == (InputCommand::Key { code: KEY_C, pressed: true }),
        linux_keycode(Scancode::C) == KEY_C,
        linux_keycode(Scancode::V) == KEY_V,
{
}

/// Law: every key the clients forward is injected by the server as a press
/// or release of the same code on the virtual keyboard.
pub proof fn law_forwarded_keys_are_injected(sc: Scancode, pressed: bool)
    requires
        sc != Scancode::Other,
    ensures
        injection(InputCommand::Key { code: linux_keycode(sc), pressed }) == Some(
            (
                VirtualDevice::Keyboard,
                seq![RawEvent { kind: EV_KEY, code: linux_keycode(sc), value: key_value(pressed) }, syn()],
            ),
        ),
{
    crate::keymap::law_keycodes_in_keyboard_range(sc);
}

/// Law: every mouse button the clients number is injected by the server as
/// a press or release of a button of the virtual mouse.
pub proof fn law_forwarded_buttons_are_injected(b: MouseButton, pressed: bool)
    requires
        b != MouseButton::Other,
    ensures
        button_code(button_index(b).unwrap()) is Some,
        injection(InputCommand::MouseButton { button: button_index(b).unwrap(), pressed }) == Some(
            (
                VirtualDevice::Mouse,
                seq![
                    RawEvent {
                        kind: EV_KEY,
                        code: button_code(button_index(b).unwrap()).unwrap(),
                        value: key_value(pressed),
                    },
                    syn(),
                ],
            ),
        ),
{
}

/// Law: the key events of the copy and paste shortcuts are all injected on
/// the virtual keyboard.
pub proof fn law_shortcut_keys_are_injected()
    ensures
        forall|i: int|
            0 <= i < 4 ==> ((#[trigger] injection(copy_keys()[i])) matches Some((d, _)) && d
                == VirtualDevice::Keyboard),
        forall|i: int|
            0 <= i < 4 ==> ((#[trigger] injection(paste_keys()[i])) matches Some((d, _)) && d
                == VirtualDevice::Keyboard),
{
    assert(copy_keys().len() == 4 && paste_keys().len() == 4);
}

/// Law: keys go to the server in pairs. Without Ctrl or the GUI key, every
/// forwarded key's press sends a press of its Linux code and its release a
/// release of the same code, and a key that is not forwarded sends
/// nothing. With Ctrl or the GUI key, V sends the local clipboard and C
/// copies on the server (Ctrl+C there), and neither release is sent; every
/// other key still goes as a press and a release of its code.
pub proof fn law_key_press_release_pairs(sc: Scancode, ctrl: bool, gui: bool)
    ensures
        !((ctrl || gui) && (sc == Scancode::V || sc == Scancode::C)) && sc != Scancode::Other ==> {
            &&& linux_keycode(sc) > 0
            &&& key_down_decision(sc, ctrl, gui) == KeyDecision::Send(
                InputCommand::Key { code: linux_keycode(sc), pressed: true },
            )
            &&& key_up_decision(sc, ctrl, gui) == KeyDecision::Send(
                InputCommand::Key { code: linux_keycode(sc), pressed: false },
            )
        },
        sc == Scancode::Other ==> key_down_decision(sc, ctrl, gui) == KeyDecision::Ignore
            && key_up_decision(sc, ctrl, gui) == KeyDecision::Ignore,
        (ctrl || gui) && sc == Scancode::V ==> key_down_decision(sc, ctrl, gui)
            == KeyDecision::PasteLocalClipboard && key_up_decision(sc, ctrl, gui)
            == KeyDecision::Ignore,
        (ctrl || gui) && sc == Scancode::C ==> key_down_decision(sc, ctrl, gui)
            == KeyDecision::CopyRemote(
            seq![
                InputCommand::Key { code: 29, pressed: true },
                InputCommand::Key { code: 46, pressed: true },
                InputCommand::Key { code: 46, pressed: false },
                InputCommand::Key { code: 29, pressed: false },
            ],
        ) && key_up_decision(sc, ctrl, gui) == KeyDecision::Ignore,
{
    crate::keymap::law_keycodes_in_keyboard_range(sc);
}

/// Law: the window client's timing, in microseconds of its clock: the
/// pointer position goes out at most once every 7 ms, a latency probe every
/// half second, and the frame rate is counted over one-second windows.
/// Around the clipboard, the server waits 15 ms between the keys of a
/// paste and the client 150 ms between a copy and its clipboard request.
pub proof fn law_client_timing()
    ensures
        MOUSE_SEND_INTERVAL_US == 7 * 1000,
        PING_INTERVAL_US == 500 * 1000,
        FPS_WINDOW_US == 1000 * 1000,
        crate::command::PASTE_KEY_DELAY_MS == 15,
        crate::command::COPY_REQUEST_DELAY_MS == 150,
{
}

/// The command for a pointer position.
pub open spec fn mouse_move(p: (i32, i32)) -> InputCommand {
    InputCommand::MouseMove { x: p.0, y: p.1 }
}

/// Time elapsed between `since` and `now` (0 if the clock went back).
pub open spec fn elapsed(now: u64, since: u64) -> u64 {
    if now >= since {
        (now - since) as u64
    } else {
        0
    }
}

/// The state of a window client's event loop. Times are microseconds of a
/// monotonic clock.
pub struct ClientLoop {
    /// Latest pointer position not yet sent.
    pub pending_mouse: Option<(i32, i32)>,
    /// When a pointer position was last sent.
    pub last_mouse_send: u64,
    /// Frames shown in the current frame-rate window.
    pub frame_count: u32,
    /// Frames shown in the last complete window.
    pub current_fps: u32,
    /// When the current frame-rate window began.
    pub last_fps_time: u64,
    /// When the last latency probe was sent.
    pub last_ping_time: u64,
}

fn since(now: u64, then: u64) -> (r: u64)
    ensures
        r == elapsed(now, then),
{
    if now >= then {
        now - then
    } else {
        0
    }
}

impl ClientLoop {
    /// The loop's state when it starts at `now`.
    pub fn new(now: u64) -> (r: Self)
        ensures
            r.pending_mouse is None,
            r.last_mouse_send == now,
            r.frame_count == 0,
            r.current_fps == 0,
            r.last_fps_time == now,
            r.last_ping_time == now,
    {
        ClientLoop {
            pending_mouse: None,
            last_mouse_send: now,
            frame_count: 0,
            current_fps: 0,
            last_fps_time: now,
            last_ping_time: now,
        }
    }

    /// The pointer moved to `(x, y)` (normalised): the position is kept, and
    /// sent at once if the last one went out at least
    /// `MOUSE_SEND_INTERVAL_US` ago.
    pub fn on_mouse_motion(&mut self, x: i32, y: i32, now: u64) -> (sent: Option<InputCommand>)
        ensures
            final(self).frame_count == old(self).frame_count,
            final(self).current_fps == old(self).current_fps,
            final(self).last_fps_time == old(self).last_fps_time,
            final(self).last_ping_time == old(self).last_ping_time,
            if elapsed(now, old(self).last_mouse_send) >= MOUSE_SEND_INTERVAL_US {
                &&& sent == Some(mouse_move((x, y)))
                &&& final(self).pending_mouse is None
                &&& final(self).last_mouse_send == now
            } else {
                &&& sent is None
                &&& final(self).pending_mouse == Some((x, y))
                &&& final(self).last_mouse_send == old(self).last_mouse_send
            },
    {
        self.pending_mouse = Some((x, y));
        if since(now, self.last_mouse_send) >= MOUSE_SEND_INTERVAL_US {
            self.pending_mouse = None;
            self.last_mouse_send = now;
            Some(InputCommand::MouseMove { x, y })
        } else {
            None
        }
    }

    /// A mouse button changed: the pending position goes out first, then
    /// the button, if it is one of the five the server knows.
    pub fn on_mouse_button(&mut self, button: MouseButton, pressed: bool, now: u64) -> (sent: Vec<
        InputCommand,
    >)
        ensures
            final(self).pending_mouse is None,
            final(self).last_mouse_send == if old(self).pending_mouse is Some {
                now
            } else {
                old(self).last_mouse_send
            },
            final(self).frame_count == old(self).frame_count,
            final(self).current_fps == old(self).current_fps,
            final(self).last_fps_time == old(self).last_fps_time,
            final(self).last_ping_time == old(self).last_ping_time,
            sent@ == (match old(self).pending_mouse {
                Some(p) => seq![mouse_move(p)],
                None => seq![],
            }) + (match button_index(button) {
                Some(b) => seq![InputCommand::MouseButton { button: b, pressed }],
                None => seq![],
            }),
    {
        let mut sent: Vec<InputCommand> = Vec::new();
        match self.pending_mouse {
            Some((mx, my)) => {
                sent.push(InputCommand::MouseMove { x: mx, y: my });
                self.last_mouse_send = now;
            },
            None => {},
        }
        self.pending_mouse = None;
        match mouse_button_index(button) {
            Some(b) => {
                sent.push(InputCommand::MouseButton { button: b, pressed });
            },
            None => {},
        }
        assert(sent@ =~= (match old(self).pending_mouse {
            Some(p) => seq![mouse_move(p)],
            None => seq![],
        }) + (match button_index(button) {
            Some(b) => seq![InputCommand::MouseButton { button: b, pressed }],
            None => seq![],
        }));
        sent
    }

    /// End of one pass over the pending events at `now` (`wall_ms` is the
    /// wall clock in milliseconds): a position held back goes out once the
    /// interval has passed, a latency probe every `PING_INTERVAL_US`, and
    /// the frame-rate window closes every `FPS_WINDOW_US`.
    pub fn end_of_events(&mut self, now: u64, wall_ms: u64) -> (sent: Vec<InputCommand>)
        ensures
            ({
                let flush = old(self).pending_mouse is Some && elapsed(now, old(self).last_mouse_send)
                    >= MOUSE_SEND_INTERVAL_US;
                let ping = elapsed(now, old(self).last_ping_time) >= PING_INTERVAL_US;
                let fps = elapsed(now, old(self).last_fps_time) >= FPS_WINDOW_US;
                &&& sent@ == (if flush {
                    seq![mouse_move(old(self).pending_mouse.unwrap())]
                } else {
                    seq![]
                }) + (if ping {
                    seq![InputCommand::Ping { timestamp: wall_ms }]
                } else {
                    seq![]
                })
                &&& final(self).pending_mouse == if flush {
                    None
                } else {
                    old(self).pending_mouse
                }
                &&& final(self).last_mouse_send == if flush {
                    now
                } else {
                    old(self).last_mouse_send
                }
                &&& final(self).last_ping_time == if ping {
                    now
                } else {
                    old(self).last_ping_time
                }
                &&& final(self).current_fps == if fps {
                    old(self).frame_count
                } else {
                    old(self).current_fps
                }
                &&& final(self).frame_count == if fps {
                    0
                } else {
                    old(self).frame_count
                }
                &&& final(self).last_fps_time == if fps {
                    now
                } else {
                    old(self).last_fps_time
                }
            }),
    {
        let mut sent: Vec<InputCommand> = Vec::new();
        if self.pending_mouse.is_some() && since(now, self.last_mouse_send)
            >= MOUSE_SEND_INTERVAL_US {
            match self.pending_mouse {
                Some((mx, my)) => {
                    sent.push(InputCommand::MouseMove { x: mx, y: my });
                },
                None => {},
            }
            self.pending_mouse = None;
            self.last_mouse_send = now;
        }
        let ghost after_flush = sent@;
        if since(now, self.last_ping_time) >= PING_INTERVAL_US {
            sent.push(InputCommand::Ping { timestamp: wall_ms });
            self.last_ping_time = now;
        }
        if since(now, self.last_fps_time) >= FPS_WINDOW_US {
            self.current_fps = self.frame_count;
            self.frame_count = 0;
            self.last_fps_time = now;
        }
        let ghost flush = old(self).pending_mouse is Some && elapsed(now, old(self).last_mouse_send)
            >= MOUSE_SEND_INTERVAL_US;
        assert(after_flush =~= (if flush {
            seq![mouse_move(old(self).pending_mouse.unwrap())]
        } else {
            seq![]
        }));
        assert(sent@ =~= after_flush + (if elapsed(now, old(self).last_ping_time)
            >= PING_INTERVAL_US {
            seq![InputCommand::Ping { timestamp: wall_ms }]
        } else {
            seq![]
        }));
        sent
    }

    /// A frame was shown.
    pub fn on_frame(&mut self)
        requires
            old(self).frame_count < u32::MAX,
        ensures
            final(self).frame_count == old(self).frame_count + 1,
            final(self).current_fps == old(self).current_fps,
            final(self).pending_mouse == old(self).pending_mouse,
            final(self).last_mouse_send == old(self).last_mouse_send,
            final(self).last_fps_time == old(self).last_fps_time,
            final(self).last_ping_time == old(self).last_ping_time,
    {
        self.frame_count = self.frame_count + 1;
    }
}

/// The Linux client's display state.
pub struct DisplayState {
    pub fullscreen: bool,
}

/// What a key press does in the Linux client's window.
pub enum DisplayKeyAction {
    /// Switch between windowed and full-screen display.
    ToggleFullscreen(bool),
    /// Send this command.
    Send(InputCommand),
    /// Nothing.
    Ignore,
}

impl DisplayState {
    /// A key press (repeats excluded): F11 switches full screen; any other
    /// forwarded key is pressed on the server.
    pub fn key_down(&mut self, sc: Scancode) -> (a: DisplayKeyAction)
        ensures
            sc == Scancode::F11 ==> final(self).fullscreen == !old(self).fullscreen && a
                == DisplayKeyAction::ToggleFullscreen(!old(self).fullscreen),
            sc != Scancode::F11 ==> final(self).fullscreen == old(self).fullscreen && a == if linux_keycode(
                sc,
            ) > 0 {
                DisplayKeyAction::Send(InputCommand::Key { code: linux_keycode(sc), pressed: true })
            } else {
                DisplayKeyAction::Ignore
            },
    {
        if sc == Scancode::F11 {
            self.fullscreen = !self.fullscreen;
            return DisplayKeyAction::ToggleFullscreen(self.fullscreen);
        }
        let code = map_scancode_to_linux(sc);
        if code > 0 {
            DisplayKeyAction::Send(InputCommand::Key { code, pressed: true })
        } else {
            DisplayKeyAction::Ignore
        }
    }
}

/// A key release (repeats excluded) in the Linux client's window.
pub fn display_key_up(sc: Scancode) -> (cmd: Option<InputCommand>)
    ensures
        cmd == if linux_keycode(sc) > 0 {
            Some(InputCommand::Key { code: linux_keycode(sc), pressed: false })
        } else {
            None
        },
{
    let code = map_scancode_to_linux(sc);
    if code > 0 {
        Some(InputCommand::Key { code, pressed: false })
    } else {
        None
    }
}

/// Pointer motion in the Linux client's window: the normalised position,
/// then the relative motion when there is any.
pub fn display_motion(norm_x: i32, norm_y: i32, xrel: i32, yrel: i32) -> (cmds: Vec<InputCommand>)
    ensures
        cmds@ == seq![InputCommand::MouseMove { x: norm_x, y: norm_y }] + if xrel != 0 || yrel
            != 0 {
            seq![InputCommand::MouseMoveRelative { dx: xrel, dy: yrel }]
        } else {
            seq![]
        },
{
    let mut cmds = vec![InputCommand::MouseMove { x: norm_x, y: norm_y }];
    if xrel != 0 || yrel != 0 {
        cmds.push(InputCommand::MouseMoveRelative { dx: xrel, dy: yrel });
    }
    assert(cmds@ =~= seq![InputCommand::MouseMove { x: norm_x, y: norm_y }] + if xrel != 0
        || yrel != 0 {
        seq![InputCommand::MouseMoveRelative { dx: xrel, dy: yrel }]
    } else {
        seq![]
    });
    cmds
}

} // verus!
