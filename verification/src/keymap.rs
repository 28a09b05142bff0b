//! The window client's keyboard: SDL scancodes and the Linux key codes the
//! server injects for them.

use vstd::prelude::*;

verus! {

/// The SDL keyboard scancodes that the window client forwards; every other
/// key is `Other`.
#[derive(Debug, Clone, Copy, PartialEq, Eq, Structural)]
pub enum Scancode {
    A,
    B,
    C,
    D,
    E,
    F,
    G,
    H,
    I,
    J,
    K,
    L,
    M,
    N,
    O,
    P,
    Q,
    R,
    S,
    T,
    U,
    V,
    W,
    X,
    Y,
    Z,
    Num1,
    Num2,
    Num3,
    Num4,
    Num5,
    Num6,
    Num7,
    Num8,
    Num9,
    Num0,
    Return,
    Escape,
    Backspace,
    Tab,
    Space,
    LShift,
    RShift,
    LCtrl,
    RCtrl,
    LAlt,
    RAlt,
    LGui,
    RGui,
    Minus,
    Equals,
    LeftBracket,
    RightBracket,
    Semicolon,
    Apostrophe,
    Grave,
    Backslash,
    Comma,
    Period,
    Slash,
    Up,
    Down,
    Left,
    Right,
    Insert,
    Delete,
    Home,
    End,
    PageUp,
    PageDown,
    CapsLock,
    NumLockClear,
    ScrollLock,
    F1,
    F2,
    F3,
    F4,
    F5,
    F6,
    F7,
    F8,
    F9,
    F10,
    F11,
    F12,
    Other,
}

/// The Linux evdev key code for a scancode; 0 for a key that is not
/// forwarded.
pub open spec fn linux_keycode(sc: Scancode) -> u16 {
    match sc {
        Scancode::A => 30,
        Scancode::B => 48,
        Scancode::C => 46,
        Scancode::D => 32,
        Scancode::E => 18,
        Scancode::F => 33,
        Scancode::G => 34,
        Scancode::H => 35,
        Scancode::I => 23,
        Scancode::J => 36,
        Scancode::K => 37,
        Scancode::L => 38,
        Scancode::M => 50,
        Scancode::N => 49,
        Scancode::O => 24,
        Scancode::P => 25,
        Scancode::Q => 16,
        Scancode::R => 19,
        Scancode::S => 31,
        Scancode::T => 20,
        Scancode::U => 22,
        Scancode::V => 47,
        Scancode::W => 17,
        Scancode::X => 45,
        Scancode::Y => 21,
        Scancode::Z => 44,
        Scancode::Num1 => 2,
        Scancode::Num2 => 3,
        Scancode::Num3 => 4,
        Scancode::Num4 => 5,
        Scancode::Num5 => 6,
        Scancode::Num6 => 7,
        Scancode::Num7 => 8,
        Scancode::Num8 => 9,
        Scancode::Num9 => 10,
        Scancode::Num0 => 11,
        Scancode::Return => 28,
        Scancode::Escape => 1,
        Scancode::Backspace => 14,
        Scancode::Tab => 15,
        Scancode::Space => 57,
        Scancode::LShift => 42,
        Scancode::RShift => 54,
        Scancode::LCtrl => 29,
        Scancode::RCtrl => 97,
        Scancode::LAlt => 56,
        Scancode::RAlt => 100,
        Scancode::LGui => 125,
        Scancode::RGui => 126,
        Scancode::Minus => 12,
        Scancode::Equals => 13,
        Scancode::LeftBracket => 26,
        Scancode::RightBracket => 27,
        Scancode::Semicolon => 39,
        Scancode::Apostrophe => 40,
        Scancode::Grave => 41,
        Scancode::Backslash => 43,
        Scancode::Comma => 51,
        Scancode::Period => 52,
        Scancode::Slash => 53,
        Scancode::Up => 103,
        Scancode::Down => 108,
        Scancode::Left => 105,
        Scancode::Right => 106,
        Scancode::Insert => 110,
        Scancode::Delete => 111,
        Scancode::Home => 102,
        Scancode::End => 107,
        Scancode::PageUp => 104,
        Scancode::PageDown => 109,
        Scancode::CapsLock => 58,
        Scancode::NumLockClear => 69,
        Scancode::ScrollLock => 70,
        Scancode::F1 => 59,
        Scancode::F2 => 60,
        Scancode::F3 => 61,
        Scancode::F4 => 62,
        Scancode::F5 => 63,
        Scancode::F6 => 64,
        Scancode::F7 => 65,
        Scancode::F8 => 66,
        Scancode::F9 => 67,
        Scancode::F10 => 68,
        Scancode::F11 => 87,
        Scancode::F12 => 88,
        Scancode::Other => 0,
    }
}

/// The Linux evdev key code for `scancode`, or 0 when the key is not
/// forwarded.
pub fn map_scancode_to_linux(scancode: Scancode) -> (code: u16)
    ensures
        code == linux_keycode(scancode),
{
    match scancode {
        Scancode::A => 30,
        Scancode::B => 48,
        Scancode::C => 46,
        Scancode::D => 32,
        Scancode::E => 18,
        Scancode::F => 33,
        Scancode::G => 34,
        Scancode::H => 35,
        Scancode::I => 23,
        Scancode::J => 36,
        Scancode::K => 37,
        Scancode::L => 38,
        Scancode::M => 50,
        Scancode::N => 49,
        Scancode::O => 24,
        Scancode::P => 25,
        Scancode::Q => 16,
        Scancode::R => 19,
        Scancode::S => 31,
        Scancode::T => 20,
        Scancode::U => 22,
        Scancode::V => 47,
        Scancode::W => 17,
        Scancode::X => 45,
        Scancode::Y => 21,
        Scancode::Z => 44,
        Scancode::Num1 => 2,
        Scancode::Num2 => 3,
        Scancode::Num3 => 4,
        Scancode::Num4 => 5,
        Scancode::Num5 => 6,
        Scancode::Num6 => 7,
        Scancode::Num7 => 8,
        Scancode::Num8 => 9,
        Scancode::Num9 => 10,
        Scancode::Num0 => 11,
        Scancode::Return => 28,
        Scancode::Escape => 1,
        Scancode::Backspace => 14,
        Scancode::Tab => 15,
        Scancode::Space => 57,
        Scancode::LShift => 42,
        Scancode::RShift => 54,
        Scancode::LCtrl => 29,
        Scancode::RCtrl => 97,
        Scancode::LAlt => 56,
        Scancode::RAlt => 100,
        Scancode::LGui => 125,
        Scancode::RGui => 126,
        Scancode::Minus => 12,
        Scancode::Equals => 13,
        Scancode::LeftBracket => 26,
        Scancode::RightBracket => 27,
        Scancode::Semicolon => 39,
        Scancode::Apostrophe => 40,
        Scancode::Grave => 41,
        Scancode::Backslash => 43,
        Scancode::Comma => 51,
        Scancode::Period => 52,
        Scancode::Slash => 53,
        Scancode::Up => 103,
        Scancode::Down => 108,
        Scancode::Left => 105,
        Scancode::Right => 106,
        Scancode::Insert => 110,
        Scancode::Delete => 111,
        Scancode::Home => 102,
        Scancode::End => 107,
        Scancode::PageUp => 104,
        Scancode::PageDown => 109,
        Scancode::CapsLock => 58,
        Scancode::NumLockClear => 69,
        Scancode::ScrollLock => 70,
        Scancode::F1 => 59,
        Scancode::F2 => 60,
        Scancode::F3 => 61,
        Scancode::F4 => 62,
        Scancode::F5 => 63,
        Scancode::F6 => 64,
        Scancode::F7 => 65,
        Scancode::F8 => 66,
        Scancode::F9 => 67,
        Scancode::F10 => 68,
        Scancode::F11 => 87,
        Scancode::F12 => 88,
        Scancode::Other => 0,
    }
}

/// Law: every key that is forwarded has a code that the server's virtual
/// keyboard accepts (1 to 255).
pub proof fn law_keycodes_in_keyboard_range(sc: Scancode)
    ensures
        linux_keycode(sc) != 0 <==> sc != Scancode::Other,
        linux_keycode(sc) <= 255,
{
}

/// Law: two different forwarded keys never give the same key code.
pub proof fn law_keycodes_distinct(a: Scancode, b: Scancode)
    requires
        a != b,
        a != Scancode::Other,
        b != Scancode::Other,
    ensures
        linux_keycode(a) != linux_keycode(b),
{
}

/// The letter keys of a US keyboard, row by row from the top, each row left
/// to right.
pub open spec fn letter_rows() -> Seq<Seq<Scancode>> {
    seq![
        seq![
            Scancode::Q,
            Scancode::W,
            Scancode::E,
            Scancode::R,
            Scancode::T,
            Scancode::Y,
            Scancode::U,
            Scancode::I,
            Scancode::O,
            Scancode::P,
        ],
        seq![
            Scancode::A,
            Scancode::S,
            Scancode::D,
            Scancode::F,
            Scancode::G,
            Scancode::H,
            Scancode::J,
            Scancode::K,
            Scancode::L,
        ],
        seq![Scancode::Z, Scancode::X, Scancode::C, Scancode::V, Scancode::B, Scancode::N, Scancode::M],
    ]
}

/// The evdev code of the first key of each letter row: `KEY_Q`, `KEY_A`,
/// `KEY_Z`.
pub open spec fn row_start_code(row: int) -> int {
    if row == 0 {
        16
    } else if row == 1 {
        30
    } else {
        44
    }
}

/// The digit keys 1 to 9 and 0, left to right.
pub open spec fn digit_row() -> Seq<Scancode> {
    seq![
        Scancode::Num1,
        Scancode::Num2,
        Scancode::Num3,
        Scancode::Num4,
        Scancode::Num5,
        Scancode::Num6,
        Scancode::Num7,
        Scancode::Num8,
        Scancode::Num9,
        Scancode::Num0,
    ]
}

/// The function keys F1 to F10.
pub open spec fn function_row() -> Seq<Scancode> {
    seq![
        Scancode::F1,
        Scancode::F2,
        Scancode::F3,
        Scancode::F4,
        Scancode::F5,
        Scancode::F6,
        Scancode::F7,
        Scancode::F8,
        Scancode::F9,
        Scancode::F10,
    ]
}

/// Law: a letter key is injected as the evdev key of the same letter. The
/// evdev codes run left to right along each keyboard row: `KEY_Q`..`KEY_P`
/// are 16..25, `KEY_A`..`KEY_L` are 30..38 and `KEY_Z`..`KEY_M` are 44..50,
/// so the key at position `i` of row `row` has the row's first code plus `i`.
pub proof fn law_letters_follow_keyboard_rows(row: int, i: int)
    requires
        0 <= row < 3,
        0 <= i < letter_rows()[row].len(),
    ensures
        linux_keycode(letter_rows()[row][i]) == row_start_code(row) + i,
{
    let r = letter_rows()[row];
    if row == 0 {
        assert(r[0] == Scancode::Q && r[1] == Scancode::W && r[2] == Scancode::E && r[3]
            == Scancode::R && r[4] == Scancode::T && r[5] == Scancode::Y && r[6] == Scancode::U
            && r[7] == Scancode::I && r[8] == Scancode::O && r[9] == Scancode::P);
    } else if row == 1 {
        assert(r[0] == Scancode::A && r[1] == Scancode::S && r[2] == Scancode::D && r[3]
            == Scancode::F && r[4] == Scancode::G && r[5] == Scancode::H && r[6] == Scancode::J
            && r[7] == Scancode::K && r[8] == Scancode::L);
    } else {
        assert(r[0] == Scancode::Z && r[1] == Scancode::X && r[2] == Scancode::C && r[3]
            == Scancode::V && r[4] == Scancode::B && r[5] == Scancode::N && r[6] == Scancode::M);
    }
}

/// Law: the digit keys 1..9, 0 are injected as `KEY_1`..`KEY_9`, `KEY_0`
/// (2..11), and F1..F10 as `KEY_F1`..`KEY_F10` (59..68), in key order.
pub proof fn law_digit_and_function_keys(i: int)
    requires
        0 <= i < 10,
    ensures
        linux_keycode(digit_row()[i]) == 2 + i,
        linux_keycode(function_row()[i]) == 59 + i,
{
    let d = digit_row();
    let f = function_row();
    assert(d[0] == Scancode::Num1 && d[1] == Scancode::Num2 && d[2] == Scancode::Num3 && d[3]
        == Scancode::Num4 && d[4] == Scancode::Num5 && d[5] == Scancode::Num6 && d[6]
        == Scancode::Num7 && d[7] == Scancode::Num8 && d[8] == Scancode::Num9 && d[9]
        == Scancode::Num0);
    assert(f[0] == Scancode::F1 && f[1] == Scancode::F2 && f[2] == Scancode::F3 && f[3]
        == Scancode::F4 && f[4] == Scancode::F5 && f[5] == Scancode::F6 && f[6] == Scancode::F7
        && f[7] == Scancode::F8 && f[8] == Scancode::F9 && f[9] == Scancode::F10);
}

/// Law: every other forwarded key is injected as the evdev key of the same
/// name (linux/input-event-codes.h): `KEY_ESC` 1, `KEY_MINUS` 12,
/// `KEY_EQUAL` 13, `KEY_BACKSPACE` 14, `KEY_TAB` 15, `KEY_LEFTBRACE` 26,
/// `KEY_RIGHTBRACE` 27, `KEY_ENTER` 28, `KEY_LEFTCTRL` 29, `KEY_SEMICOLON`
/// 39, `KEY_APOSTROPHE` 40, `KEY_GRAVE` 41, `KEY_LEFTSHIFT` 42,
/// `KEY_BACKSLASH` 43, `KEY_COMMA` 51, `KEY_DOT` 52, `KEY_SLASH` 53,
/// `KEY_RIGHTSHIFT` 54, `KEY_LEFTALT` 56, `KEY_SPACE` 57, `KEY_CAPSLOCK` 58,
/// `KEY_NUMLOCK` 69, `KEY_SCROLLLOCK` 70, `KEY_F11` 87, `KEY_F12` 88,
/// `KEY_RIGHTCTRL` 97, `KEY_RIGHTALT` 100, `KEY_HOME` 102, `KEY_UP` 103,
/// `KEY_PAGEUP` 104, `KEY_LEFT` 105, `KEY_RIGHT` 106, `KEY_END` 107,
/// `KEY_DOWN` 108, `KEY_PAGEDOWN` 109, `KEY_INSERT` 110, `KEY_DELETE` 111,
/// `KEY_LEFTMETA` 125, `KEY_RIGHTMETA` 126.
pub proof fn law_named_keys_keep_their_names()
    ensures
        linux_keycode(Scancode::Escape) == 1,
        linux_keycode(Scancode::Minus) == 12,
        linux_keycode(Scancode::Equals) == 13,
        linux_keycode(Scancode::Backspace) == 14,
        linux_keycode(Scancode::Tab) == 15,
        linux_keycode(Scancode::LeftBracket) == 26,
        linux_keycode(Scancode::RightBracket) == 27,
        linux_keycode(Scancode::Return) == 28,
        linux_keycode(Scancode::LCtrl) == 29,
        linux_keycode(Scancode::Semicolon) == 39,
        linux_keycode(Scancode::Apostrophe) == 40,
        linux_keycode(Scancode::Grave) == 41,
        linux_keycode(Scancode::LShift) == 42,
        linux_keycode(Scancode::Backslash) == 43,
        linux_keycode(Scancode::Comma) == 51,
        linux_keycode(Scancode::Period) == 52,
        linux_keycode(Scancode::Slash) == 53,
        linux_keycode(Scancode::RShift) == 54,
        linux_keycode(Scancode::LAlt) == 56,
        linux_keycode(Scancode::Space) == 57,
        linux_keycode(Scancode::CapsLock) == 58,
        linux_keycode(Scancode::NumLockClear) == 69,
        linux_keycode(Scancode::ScrollLock) == 70,
        linux_keycode(Scancode::F11) == 87,
        linux_keycode(Scancode::F12) == 88,
        linux_keycode(Scancode::RCtrl) == 97,
        linux_keycode(Scancode::RAlt) == 100,
        linux_keycode(Scancode::Home) == 102,
        linux_keycode(Scancode::Up) == 103,
        linux_keycode(Scancode::PageUp) == 104,
        linux_keycode(Scancode::Left) == 105,
        linux_keycode(Scancode::Right) == 106,
        linux_keycode(Scancode::End) == 107,
        linux_keycode(Scancode::Down) == 108,
        linux_keycode(Scancode::PageDown) == 109,
        linux_keycode(Scancode::Insert) == 110,
        linux_keycode(Scancode::Delete) == 111,
        linux_keycode(Scancode::LGui) == 125,
        linux_keycode(Scancode::RGui) == 126,
        linux_keycode(Scancode::Other) == 0,
{
}

} // verus!
