//! How control commands become the raw events that the server
//! writes to its virtual uinput mouse and keyboard.

use crate::command::InputCommand;
use vstd::prelude::*;

verus! {

/// `EV_SYN`: end of an event packet.
pub const EV_SYN: u16 = 0x00;

/// `EV_KEY`: key or button state.
pub const EV_KEY: u16 = 0x01;

/// `EV_REL`: relative axis.
pub const EV_REL: u16 = 0x02;

/// `EV_ABS`: absolute axis.
pub const EV_ABS: u16 = 0x03;

/// Absolute X axis.
pub const ABS_X: u16 = 0x00;

/// Absolute Y axis.
pub const ABS_Y: u16 = 0x01;

/// Vertical wheel.
pub const REL_WHEEL: u16 = 0x08;

/// Horizontal wheel.
pub const REL_HWHEEL: u16 = 0x06;

/// Left mouse button.
pub const BTN_LEFT: u16 = 0x110;

/// Right mouse button.
pub const BTN_RIGHT: u16 = 0x111;

/// Middle mouse button.
pub const BTN_MIDDLE: u16 = 0x112;

/// Side mouse button.
pub const BTN_SIDE: u16 = 0x113;

/// Extra mouse button.
pub const BTN_EXTRA: u16 = 0x114;

/// Largest value of either absolute axis of the virtual mouse.
pub const ABS_AXIS_MAX: i32 = 32767;

/// Largest key code that the virtual keyboard declares.
pub const MAX_KEY_CODE: u16 = 255;

/// One input event: type, code and value.
#[derive(Debug, Clone, Copy, PartialEq, Eq, Structural)]
pub struct RawEvent {
    pub kind: u16,
    pub code: u16,
    pub value: i32,
}

/// Which virtual device an event packet is written to.
#[derive(Debug, Clone, Copy, PartialEq, Eq, Structural)]
pub enum VirtualDevice {
    Mouse,
    Keyboard,
}

/// The event that closes a packet.
pub open spec fn syn() -> RawEvent {
    RawEvent { kind: EV_SYN, code: 0, value: 0 }
}

/// The value of a key event.
pub open spec fn key_value(pressed: bool) -> i32 {
    if pressed { 1 } else { 0 }
}

/// The evdev button code of a mouse button index, if the index names one
/// of the five buttons.
pub open spec fn button_code(button: u8) -> Option<u16> {
    if button == 0 {
        Some(BTN_LEFT)
    } else if button == 1 {
        Some(BTN_MIDDLE)
    } else if button == 2 {
        Some(BTN_RIGHT)
    } else if button == 3 {
        Some(BTN_SIDE)
    } else if button == 4 {
        Some(BTN_EXTRA)
    } else {
        None
    }
}

/// Whether the virtual keyboard accepts `code` (1..=255).
pub open spec fn valid_key_code(code: u16) -> bool {
    1 <= code <= MAX_KEY_CODE
}

/// The device and the event packet for a command, or nothing when the
/// command injects no input (unknown button, invalid key code, clipboard,
/// latency and relative-motion commands).
pub open spec fn injection(cmd: InputCommand) -> Option<(VirtualDevice, Seq<RawEvent>)> {
    match cmd {
        InputCommand::MouseMove { x, y } => Some(
            (
                VirtualDevice::Mouse,
                seq![
                    RawEvent { kind: EV_ABS, code: ABS_X, value: x },
                    RawEvent { kind: EV_ABS, code: ABS_Y, value: y },
                    syn(),
                ],
            ),
        ),
        InputCommand::MouseButton { button, pressed } => match button_code(button) {
            Some(code) => Some(
                (
                    VirtualDevice::Mouse,
                    seq![RawEvent { kind: EV_KEY, code, value: key_value(pressed) }, syn()],
                ),
            ),
            None => None,
        },
        InputCommand::MouseScroll { dy } => Some(
            (
                VirtualDevice::Mouse,
                seq![RawEvent { kind: EV_REL, code: REL_WHEEL, value: dy }, syn()],
            ),
        ),
        InputCommand::Key { code, pressed } => if valid_key_code(code) {
            Some(
                (
                    VirtualDevice::Keyboard,
                    seq![RawEvent { kind: EV_KEY, code, value: key_value(pressed) }, syn()],
                ),
            )
        } else {
            None
        },
        _ => None,
    }
}

/// The model of an injection result.
pub open spec fn injection_view(r: Option<(VirtualDevice, Vec<RawEvent>)>) -> Option<
    (VirtualDevice, Seq<RawEvent>),
> {
    match r {
        Some((d, evs)) => Some((d, evs@)),
        None => None,
    }
}

/// The evdev code of mouse button `button` (0 left, 1 middle, 2 right,
/// 3 side, 4 extra).
pub fn mouse_button_code(button: u8) -> (code: Option<u16>)
    ensures
        code == button_code(button),
{
    match button {
        0 => Some(BTN_LEFT),
        1 => Some(BTN_MIDDLE),
        2 => Some(BTN_RIGHT),
        3 => Some(BTN_SIDE),
        4 => Some(BTN_EXTRA),
        _ => None,
    }
}

/// The event packet that injects `cmd`, and the device it goes to.
pub fn injection_events(cmd: &InputCommand) -> (r: Option<(VirtualDevice, Vec<RawEvent>)>)
    ensures
        injection_view(r) == injection(*cmd),
{
    let sync = RawEvent { kind: EV_SYN, code: 0, value: 0 };
    match cmd {
        InputCommand::MouseMove { x, y } => {
            let evs = vec![
                RawEvent { kind: EV_ABS, code: ABS_X, value: *x },
                RawEvent { kind: EV_ABS, code: ABS_Y, value: *y },
                sync,
            ];
            assert(evs@ =~= injection(*cmd).unwrap().1);
            Some((VirtualDevice::Mouse, evs))
        },
        InputCommand::MouseButton { button, pressed } => match mouse_button_code(*button) {
            Some(code) => {
                let value: i32 = if *pressed { 1 } else { 0 };
                let evs = vec![RawEvent { kind: EV_KEY, code, value }, sync];
                assert(evs@ =~= injection(*cmd).unwrap().1);
                Some((VirtualDevice::Mouse, evs))
            },
            None => None,
        },
        InputCommand::MouseScroll { dy } => {
            let evs = vec![RawEvent { kind: EV_REL, code: REL_WHEEL, value: *dy }, sync];
            assert(evs@ =~= injection(*cmd).unwrap().1);
            Some((VirtualDevice::Mouse, evs))
        },
        InputCommand::Key { code, pressed } => {
            if *code == 0 || *code > MAX_KEY_CODE {
                None
            } else {
                let value: i32 = if *pressed { 1 } else { 0 };
                let evs = vec![RawEvent { kind: EV_KEY, code: *code, value }, sync];
                assert(evs@ =~= injection(*cmd).unwrap().1);
                Some((VirtualDevice::Keyboard, evs))
            }
        },
        _ => None,
    }
}

/// The buttons that the virtual mouse declares: left, right, middle, side,
/// extra.
pub fn mouse_buttons() -> (codes: Vec<u16>)
    ensures
        codes@ == seq![BTN_LEFT, BTN_RIGHT, BTN_MIDDLE, BTN_SIDE, BTN_EXTRA],
{
    let codes = vec![BTN_LEFT, BTN_RIGHT, BTN_MIDDLE, BTN_SIDE, BTN_EXTRA];
    assert(codes@ =~= seq![BTN_LEFT, BTN_RIGHT, BTN_MIDDLE, BTN_SIDE, BTN_EXTRA]);
    codes
}

/// The wheels that the virtual mouse declares: vertical and horizontal.
pub fn mouse_wheels() -> (codes: Vec<u16>)
    ensures
        codes@ == seq![REL_WHEEL, REL_HWHEEL],
{
    let codes = vec![REL_WHEEL, REL_HWHEEL];
    assert(codes@ =~= seq![REL_WHEEL, REL_HWHEEL]);
    codes
}

/// The keys that the virtual keyboard declares: every code from 1 to 255,
/// in increasing order.
pub fn keyboard_keys() -> (codes: Vec<u16>)
    ensures
        codes@.len() == MAX_KEY_CODE,
        forall|i: int| 0 <= i < codes@.len() ==> codes@[i] == i + 1,
{
    let mut codes: Vec<u16> = Vec::new();
    let mut code: u16 = 1;
    while code <= MAX_KEY_CODE
        invariant
            1 <= code <= MAX_KEY_CODE + 1,
            codes@.len() == code - 1,
            forall|i: int| 0 <= i < codes@.len() ==> codes@[i] == i + 1,
        decreases MAX_KEY_CODE + 1 - code,
    {
        codes.push(code);
        code = code + 1;
    }
    codes
}

/// Every command that injects a key event uses a code that the device it
/// goes to declares: a key code the keyboard declares, or one of the five
/// mouse buttons; and every packet ends with a synchronisation event.
pub proof fn law_injected_codes_declared(cmd: InputCommand)
    ensures
        match injection(cmd) {
            Some((dev, evs)) => {
                &&& evs.len() >= 2
                &&& evs.last() == syn()
                &&& forall|i: int|
                    0 <= i < evs.len() && #[trigger] evs[i].kind == EV_KEY ==> match dev {
                        VirtualDevice::Keyboard => valid_key_code(evs[i].code),
                        VirtualDevice::Mouse => seq![
                            BTN_LEFT,
                            BTN_RIGHT,
                            BTN_MIDDLE,
                            BTN_SIDE,
                            BTN_EXTRA,
                        ].contains(evs[i].code),
                    }
            },
            None => true,
        },
{
    match cmd {
        InputCommand::MouseButton { button, pressed } => {
            let s = seq![BTN_LEFT, BTN_RIGHT, BTN_MIDDLE, BTN_SIDE, BTN_EXTRA];
            assert(s[0] == BTN_LEFT && s[1] == BTN_RIGHT && s[2] == BTN_MIDDLE && s[3] == BTN_SIDE
                && s[4] == BTN_EXTRA);
        },
        _ => {},
    }
}

/// Law: what each command makes the server's devices do, in evdev's own
/// numbers (linux/input-event-codes.h). A key command with a code from 1 to
/// 255 writes, to the keyboard, `EV_KEY` (1) with that code and value 1 for
/// a press or 0 for a release. Mouse buttons 0 to 4 are `BTN_LEFT` (0x110),
/// `BTN_MIDDLE` (0x112), `BTN_RIGHT` (0x111), `BTN_SIDE` (0x113) and
/// `BTN_EXTRA` (0x114), written the same way to the mouse. An absolute move
/// writes `EV_ABS` (3) `ABS_X` (0) = x then `ABS_Y` (1) = y; a scroll writes
/// `EV_REL` (2) `REL_WHEEL` (8) = dy. Every packet ends with `EV_SYN` (0).
/// Other button numbers and key codes inject nothing.
pub proof fn law_injection_in_evdev_numbers(cmd: InputCommand)
    ensures
        cmd matches InputCommand::Key { code, pressed } ==> injection(cmd) == if 1 <= code <= 255 {
            Some(
                (
                    VirtualDevice::Keyboard,
                    seq![
                        RawEvent { kind: 1, code, value: if pressed { 1i32 } else { 0i32 } },
                        RawEvent { kind: 0, code: 0, value: 0 },
                    ],
                ),
            )
        } else {
            None
        },
        cmd matches InputCommand::MouseButton { button, pressed } ==> injection(cmd) == if button
            <= 4 {
            Some(
                (
                    VirtualDevice::Mouse,
                    seq![
                        RawEvent {
                            kind: 1,
                            code: if button == 0 {
                                0x110u16
                            } else if button == 1 {
                                0x112u16
                            } else if button == 2 {
                                0x111u16
                            } else if button == 3 {
                                0x113u16
                            } else {
                                0x114u16
                            },
                            value: if pressed { 1i32 } else { 0i32 },
                        },
                        RawEvent { kind: 0, code: 0, value: 0 },
                    ],
                ),
            )
        } else {
            None
        },
        cmd matches InputCommand::MouseMove { x, y } ==> injection(cmd) == Some(
            (
                VirtualDevice::Mouse,
                seq![
                    RawEvent { kind: 3, code: 0, value: x },
                    RawEvent { kind: 3, code: 1, value: y },
                    RawEvent { kind: 0, code: 0, value: 0 },
                ],
            ),
        ),
        cmd matches InputCommand::MouseScroll { dy } ==> injection(cmd) == Some(
            (
                VirtualDevice::Mouse,
                seq![RawEvent { kind: 2, code: 8, value: dy }, RawEvent { kind: 0, code: 0, value: 0 }],
            ),
        ),
{
}

} // verus!
