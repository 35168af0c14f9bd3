//! Input as CEF takes it: event flags, key codes and mouse clicks.

use vstd::prelude::*;
use vstd::string::*;

use crate::input::{
    Button, Code, Interaction, Key, KeyboardEvent, Location, Modifiers, MouseEvent, Named, Physical,
    ScrollDelta,
};

verus! {

/// The bits of CEF's event flags.
pub const EVENTFLAG_SHIFT_DOWN: u32 = 0x2;

pub const EVENTFLAG_CONTROL_DOWN: u32 = 0x4;

pub const EVENTFLAG_ALT_DOWN: u32 = 0x8;

pub const EVENTFLAG_LEFT_MOUSE_BUTTON: u32 = 0x10;

pub const EVENTFLAG_MIDDLE_MOUSE_BUTTON: u32 = 0x20;

pub const EVENTFLAG_RIGHT_MOUSE_BUTTON: u32 = 0x40;

pub const EVENTFLAG_IS_KEY_PAD: u32 = 0x200;

pub const EVENTFLAG_IS_LEFT: u32 = 0x400;

pub const EVENTFLAG_IS_RIGHT: u32 = 0x800;

pub const EVENTFLAG_IS_REPEAT: u32 = 0x2000;

/// How long after a click another one counts as its repetition.
pub const MULTI_CLICK_MILLIS: u64 = 500;

/// The shape of the pointer a page asks for. `Other` stands for all that have
/// no counterpart here.
#[derive(Clone, Copy, Debug, PartialEq, Eq, Structural)]
pub enum CursorType {
    Pointer,
    Ibeam,
    Cross,
    Hand,
    Grab,
    Grabbing,
    NotAllowed,
    EastWestResize,
    EastResize,
    WestResize,
    ColumnResize,
    NorthSouthResize,
    NorthResize,
    SouthResize,
    RowResize,
    ZoomIn,
    ZoomOut,
    Other,
}

/// The pointer that stands for the one a page asks for.
pub open spec fn cursor_interaction(cursor: CursorType) -> Interaction {
    match cursor {
        CursorType::Ibeam => Interaction::Text,
        CursorType::Cross => Interaction::Crosshair,
        CursorType::Hand => Interaction::Pointer,
        CursorType::Grab => Interaction::Grab,
        CursorType::Grabbing => Interaction::Grabbing,
        CursorType::NotAllowed => Interaction::NotAllowed,
        CursorType::EastWestResize => Interaction::ResizingHorizontally,
        CursorType::EastResize => Interaction::ResizingHorizontally,
        CursorType::WestResize => Interaction::ResizingHorizontally,
        CursorType::ColumnResize => Interaction::ResizingHorizontally,
        CursorType::NorthSouthResize => Interaction::ResizingVertically,
        CursorType::NorthResize => Interaction::ResizingVertically,
        CursorType::SouthResize => Interaction::ResizingVertically,
        CursorType::RowResize => Interaction::ResizingVertically,
        CursorType::ZoomIn => Interaction::ZoomIn,
        CursorType::ZoomOut => Interaction::ZoomOut,
        _ => Interaction::Idle,
    }
}

/// The pointer that stands for the one a page asks for.
pub fn cursor_type_to_interaction(cursor: CursorType) -> (interaction: Interaction)
    ensures
        interaction == cursor_interaction(cursor),
{
    match cursor {
        CursorType::Pointer => Interaction::Idle,
        CursorType::Ibeam => Interaction::Text,
        CursorType::Cross => Interaction::Crosshair,
        CursorType::Hand => Interaction::Pointer,
        CursorType::Grab => Interaction::Grab,
        CursorType::Grabbing => Interaction::Grabbing,
        CursorType::NotAllowed => Interaction::NotAllowed,
        CursorType::EastWestResize
        | CursorType::EastResize
        | CursorType::WestResize
        | CursorType::ColumnResize => Interaction::ResizingHorizontally,
        CursorType::NorthSouthResize
        | CursorType::NorthResize
        | CursorType::SouthResize
        | CursorType::RowResize => Interaction::ResizingVertically,
        CursorType::ZoomIn => Interaction::ZoomIn,
        CursorType::ZoomOut => Interaction::ZoomOut,
        CursorType::Other => Interaction::Idle,
    }
}

/// The flags for the modifier keys that are held.
pub open spec fn modifier_flags(modifiers: Modifiers) -> u32 {
    (if modifiers.shift {
        EVENTFLAG_SHIFT_DOWN
    } else {
        0u32
    }) | (if modifiers.control {
        EVENTFLAG_CONTROL_DOWN
    } else {
        0u32
    }) | (if modifiers.alt {
        EVENTFLAG_ALT_DOWN
    } else {
        0u32
    })
}

/// Convert keyboard modifiers to CEF event flags.
pub fn iced_modifiers_to_cef(modifiers: Modifiers) -> (flags: u32)
    ensures
        flags == modifier_flags(modifiers),
{
    let shift: u32 = if modifiers.shift {
        EVENTFLAG_SHIFT_DOWN
    } else {
        0
    };
    let control: u32 = if modifiers.control {
        EVENTFLAG_CONTROL_DOWN
    } else {
        0
    };
    let alt: u32 = if modifiers.alt {
        EVENTFLAG_ALT_DOWN
    } else {
        0
    };
    shift | control | alt
}

/// Convert the modifiers of a key event to CEF event flags.
pub fn iced_modifiers_to_cef_key(modifiers: Modifiers) -> (flags: u32)
    ensures
        flags == modifier_flags(modifiers),
{
    iced_modifiers_to_cef(modifiers)
}

/// The flags for where a key is and whether it repeated.
pub open spec fn location_flags(location: Location, repeat: bool) -> u32 {
    (match location {
        Location::Numpad => EVENTFLAG_IS_KEY_PAD,
        Location::Left => EVENTFLAG_IS_LEFT,
        Location::Right => EVENTFLAG_IS_RIGHT,
        Location::Standard => 0u32,
    }) | (if repeat {
        EVENTFLAG_IS_REPEAT
    } else {
        0u32
    })
}

/// Extra CEF event flags describing where a key is, and whether it repeated.
///
/// Without these, digits on the number pad look like those in the top row, left
/// and right modifiers are indistinguishable, and a held key never repeats.
pub fn key_location_flags(location: Location, repeat: bool) -> (flags: u32)
    ensures
        flags == location_flags(location, repeat),
{
    let place: u32 = match location {
        Location::Numpad => EVENTFLAG_IS_KEY_PAD,
        Location::Left => EVENTFLAG_IS_LEFT,
        Location::Right => EVENTFLAG_IS_RIGHT,
        Location::Standard => 0,
    };
    let again: u32 = if repeat {
        EVENTFLAG_IS_REPEAT
    } else {
        0
    };
    place | again
}

/// The flag for a mouse button that is held.
pub open spec fn button_flag(button: Button) -> u32 {
    match button {
        Button::Left => EVENTFLAG_LEFT_MOUSE_BUTTON,
        Button::Middle => EVENTFLAG_MIDDLE_MOUSE_BUTTON,
        Button::Right => EVENTFLAG_RIGHT_MOUSE_BUTTON,
        _ => 0,
    }
}

/// The CEF event flag for a held mouse button.
pub fn mouse_button_event_flag(button: Button) -> (flag: u32)
    ensures
        flag == button_flag(button),
{
    match button {
        Button::Left => EVENTFLAG_LEFT_MOUSE_BUTTON,
        Button::Middle => EVENTFLAG_MIDDLE_MOUSE_BUTTON,
        Button::Right => EVENTFLAG_RIGHT_MOUSE_BUTTON,
        _ => 0,
    }
}

/// A mouse button a page can be clicked with.
#[derive(Clone, Copy, Debug, PartialEq, Eq, Structural)]
pub enum MouseButtonType {
    Left,
    Middle,
    Right,
}

/// The button of a click, if it is one a page can be clicked with.
pub open spec fn click_button(button: Button) -> Option<MouseButtonType> {
    match button {
        Button::Left => Some(MouseButtonType::Left),
        Button::Middle => Some(MouseButtonType::Middle),
        Button::Right => Some(MouseButtonType::Right),
        _ => None,
    }
}

/// The button of a click, if it is one a page can be clicked with.
pub fn iced_button_to_cef(button: Button) -> (cef: Option<MouseButtonType>)
    ensures
        cef == click_button(button),
{
    match button {
        Button::Left => Some(MouseButtonType::Left),
        Button::Middle => Some(MouseButtonType::Middle),
        Button::Right => Some(MouseButtonType::Right),
        _ => None,
    }
}

/// A button has a flag of its own exactly when a page can be clicked with it.
pub proof fn law_button_flags(a: Button, b: Button)
    ensures
        click_button(a) is Some <==> button_flag(a) != 0,
        button_flag(a) == button_flag(b) && button_flag(a) != 0 ==> a == b,
{
}

/// The X11 keycode of a key on a PC105 keyboard, zero where there is none.
pub open spec fn x11_keycode(code: Code) -> i32 {
    match code {
        Code::Escape => 9,
        Code::Digit1 => 10,
        Code::Digit2 => 11,
        Code::Digit3 => 12,
        Code::Digit4 => 13,
        Code::Digit5 => 14,
        Code::Digit6 => 15,
        Code::Digit7 => 16,
        Code::Digit8 => 17,
        Code::Digit9 => 18,
        Code::Digit0 => 19,
        Code::Minus => 20,
        Code::Equal => 21,
        Code::Backspace => 22,
        Code::Tab => 23,
        Code::KeyQ => 24,
        Code::KeyW => 25,
        Code::KeyE => 26,
        Code::KeyR => 27,
        Code::KeyT => 28,
        Code::KeyY => 29,
        Code::KeyU => 30,
        Code::KeyI => 31,
        Code::KeyO => 32,
        Code::KeyP => 33,
        Code::BracketLeft => 34,
        Code::BracketRight => 35,
        Code::Enter => 36,
        Code::ControlLeft => 37,
        Code::KeyA => 38,
        Code::KeyS => 39,
        Code::KeyD => 40,
        Code::KeyF => 41,
        Code::KeyG => 42,
        Code::KeyH => 43,
        Code::KeyJ => 44,
        Code::KeyK => 45,
        Code::KeyL => 46,
        Code::Semicolon => 47,
        Code::Quote => 48,
        Code::Backquote => 49,
        Code::ShiftLeft => 50,
        Code::Backslash => 51,
        Code::KeyZ => 52,
        Code::KeyX => 53,
        Code::KeyC => 54,
        Code::KeyV => 55,
        Code::KeyB => 56,
        Code::KeyN => 57,
        Code::KeyM => 58,
        Code::Comma => 59,
        Code::Period => 60,
        Code::Slash => 61,
        Code::ShiftRight => 62,
        Code::NumpadMultiply => 63,
        Code::AltLeft => 64,
        Code::Space => 65,
        Code::CapsLock => 66,
        Code::F1 => 67,
        Code::F2 => 68,
        Code::F3 => 69,
        Code::F4 => 70,
        Code::F5 => 71,
        Code::F6 => 72,
        Code::F7 => 73,
        Code::F8 => 74,
        Code::F9 => 75,
        Code::F10 => 76,
        Code::NumLock => 77,
        Code::ScrollLock => 78,
        Code::Numpad7 => 79,
        Code::Numpad8 => 80,
        Code::Numpad9 => 81,
        Code::NumpadSubtract => 82,
        Code::Numpad4 => 83,
        Code::Numpad5 => 84,
        Code::Numpad6 => 85,
        Code::NumpadAdd => 86,
        Code::Numpad1 => 87,
        Code::Numpad2 => 88,
        Code::Numpad3 => 89,
        Code::Numpad0 => 90,
        Code::NumpadDecimal => 91,
        Code::F11 => 95,
        Code::F12 => 96,
        Code::NumpadEnter => 104,
        Code::ControlRight => 105,
        Code::NumpadDivide => 106,
        Code::AltRight => 108,
        Code::Home => 110,
        Code::ArrowUp => 111,
        Code::PageUp => 112,
        Code::ArrowLeft => 113,
        Code::ArrowRight => 114,
        Code::End => 115,
        Code::ArrowDown => 116,
        Code::PageDown => 117,
        Code::Insert => 118,
        Code::Delete => 119,
        Code::SuperLeft => 133,
        Code::SuperRight => 134,
        Code::ContextMenu => 135,
        Code::Other => 0,
    }
}

/// Map a physical key to the X11 hardware keycode CEF expects on Linux.
///
/// Chromium derives from it which physical key was used, independent of the
/// layout. Values are standard X11 keycodes for a PC105 keyboard; zero stands
/// for every other key.
pub fn physical_key_to_x11(physical: &Physical) -> (keycode: i32)
    ensures
        keycode == physical_keycode(*physical),
{
    match physical {
        Physical::Unidentified => 0,
        Physical::Code(code) => match code {
            Code::Escape => 9,
            Code::Digit1 => 10,
            Code::Digit2 => 11,
            Code::Digit3 => 12,
            Code::Digit4 => 13,
            Code::Digit5 => 14,
            Code::Digit6 => 15,
            Code::Digit7 => 16,
            Code::Digit8 => 17,
            Code::Digit9 => 18,
            Code::Digit0 => 19,
            Code::Minus => 20,
            Code::Equal => 21,
            Code::Backspace => 22,
            Code::Tab => 23,
            Code::KeyQ => 24,
            Code::KeyW => 25,
            Code::KeyE => 26,
            Code::KeyR => 27,
            Code::KeyT => 28,
            Code::KeyY => 29,
            Code::KeyU => 30,
            Code::KeyI => 31,
            Code::KeyO => 32,
            Code::KeyP => 33,
            Code::BracketLeft => 34,
            Code::BracketRight => 35,
            Code::Enter => 36,
            Code::ControlLeft => 37,
            Code::KeyA => 38,
            Code::KeyS => 39,
            Code::KeyD => 40,
            Code::KeyF => 41,
            Code::KeyG => 42,
            Code::KeyH => 43,
            Code::KeyJ => 44,
            Code::KeyK => 45,
            Code::KeyL => 46,
            Code::Semicolon => 47,
            Code::Quote => 48,
            Code::Backquote => 49,
            Code::ShiftLeft => 50,
            Code::Backslash => 51,
            Code::KeyZ => 52,
            Code::KeyX => 53,
            Code::KeyC => 54,
            Code::KeyV => 55,
            Code::KeyB => 56,
            Code::KeyN => 57,
            Code::KeyM => 58,
            Code::Comma => 59,
            Code::Period => 60,
            Code::Slash => 61,
            Code::ShiftRight => 62,
            Code::NumpadMultiply => 63,
            Code::AltLeft => 64,
            Code::Space => 65,
            Code::CapsLock => 66,
            Code::F1 => 67,
            Code::F2 => 68,
            Code::F3 => 69,
            Code::F4 => 70,
            Code::F5 => 71,
            Code::F6 => 72,
            Code::F7 => 73,
            Code::F8 => 74,
            Code::F9 => 75,
            Code::F10 => 76,
            Code::NumLock => 77,
            Code::ScrollLock => 78,
            Code::Numpad7 => 79,
            Code::Numpad8 => 80,
            Code::Numpad9 => 81,
            Code::NumpadSubtract => 82,
            Code::Numpad4 => 83,
            Code::Numpad5 => 84,
            Code::Numpad6 => 85,
            Code::NumpadAdd => 86,
            Code::Numpad1 => 87,
            Code::Numpad2 => 88,
            Code::Numpad3 => 89,
            Code::Numpad0 => 90,
            Code::NumpadDecimal => 91,
            Code::F11 => 95,
            Code::F12 => 96,
            Code::NumpadEnter => 104,
            Code::ControlRight => 105,
            Code::NumpadDivide => 106,
            Code::AltRight => 108,
            Code::Home => 110,
            Code::ArrowUp => 111,
            Code::PageUp => 112,
            Code::ArrowLeft => 113,
            Code::ArrowRight => 114,
            Code::End => 115,
            Code::ArrowDown => 116,
            Code::PageDown => 117,
            Code::Insert => 118,
            Code::Delete => 119,
            Code::SuperLeft => 133,
            Code::SuperRight => 134,
            Code::ContextMenu => 135,
            Code::Other => 0,
        },
    }
}

/// The X11 keycode of a physical key, zero where there is none.
pub open spec fn physical_keycode(physical: Physical) -> i32 {
    match physical {
        Physical::Code(code) => x11_keycode(code),
        Physical::Unidentified => 0,
    }
}

/// The key that has an X11 keycode on a PC105 keyboard.
pub open spec fn keycode_key(keycode: i32) -> Code {
    if keycode == 9 {
        Code::Escape
    } else if keycode == 10 {
        Code::Digit1
    } else if keycode == 11 {
        Code::Digit2
    } else if keycode == 12 {
        Code::Digit3
    } else if keycode == 13 {
        Code::Digit4
    } else if keycode == 14 {
        Code::Digit5
    } else if keycode == 15 {
        Code::Digit6
    } else if keycode == 16 {
        Code::Digit7
    } else if keycode == 17 {
        Code::Digit8
    } else if keycode == 18 {
        Code::Digit9
    } else if keycode == 19 {
        Code::Digit0
    } else if keycode == 20 {
        Code::Minus
    } else if keycode == 21 {
        Code::Equal
    } else if keycode == 22 {
        Code::Backspace
    } else if keycode == 23 {
        Code::Tab
    } else if keycode == 24 {
        Code::KeyQ
    } else if keycode == 25 {
        Code::KeyW
    } else if keycode == 26 {
        Code::KeyE
    } else if keycode == 27 {
        Code::KeyR
    } else if keycode == 28 {
        Code::KeyT
    } else if keycode == 29 {
        Code::KeyY
    } else if keycode == 30 {
        Code::KeyU
    } else if keycode == 31 {
        Code::KeyI
    } else if keycode == 32 {
        Code::KeyO
    } else if keycode == 33 {
        Code::KeyP
    } else if keycode == 34 {
        Code::BracketLeft
    } else if keycode == 35 {
        Code::BracketRight
    } else if keycode == 36 {
        Code::Enter
    } else if keycode == 37 {
        Code::ControlLeft
    } else if keycode == 38 {
        Code::KeyA
    } else if keycode == 39 {
        Code::KeyS
    } else if keycode == 40 {
        Code::KeyD
    } else if keycode == 41 {
        Code::KeyF
    } else if keycode == 42 {
        Code::KeyG
    } else if keycode == 43 {
        Code::KeyH
    } else if keycode == 44 {
        Code::KeyJ
    } else if keycode == 45 {
        Code::KeyK
    } else if keycode == 46 {
        Code::KeyL
    } else if keycode == 47 {
        Code::Semicolon
    } else if keycode == 48 {
        Code::Quote
    } else if keycode == 49 {
        Code::Backquote
    } else if keycode == 50 {
        Code::ShiftLeft
    } else if keycode == 51 {
        Code::Backslash
    } else if keycode == 52 {
        Code::KeyZ
    } else if keycode == 53 {
        Code::KeyX
    } else if keycode == 54 {
        Code::KeyC
    } else if keycode == 55 {
        Code::KeyV
    } else if keycode == 56 {
        Code::KeyB
    } else if keycode == 57 {
        Code::KeyN
    } else if keycode == 58 {
        Code::KeyM
    } else if keycode == 59 {
        Code::Comma
    } else if keycode == 60 {
        Code::Period
    } else if keycode == 61 {
        Code::Slash
    } else if keycode == 62 {
        Code::ShiftRight
    } else if keycode == 63 {
        Code::NumpadMultiply
    } else if keycode == 64 {
        Code::AltLeft
    } else if keycode == 65 {
        Code::Space
    } else if keycode == 66 {
        Code::CapsLock
    } else if keycode == 67 {
        Code::F1
    } else if keycode == 68 {
        Code::F2
    } else if keycode == 69 {
        Code::F3
    } else if keycode == 70 {
        Code::F4
    } else if keycode == 71 {
        Code::F5
    } else if keycode == 72 {
        Code::F6
    } else if keycode == 73 {
        Code::F7
    } else if keycode == 74 {
        Code::F8
    } else if keycode == 75 {
        Code::F9
    } else if keycode == 76 {
        Code::F10
    } else if keycode == 77 {
        Code::NumLock
    } else if keycode == 78 {
        Code::ScrollLock
    } else if keycode == 79 {
        Code::Numpad7
    } else if keycode == 80 {
        Code::Numpad8
    } else if keycode == 81 {
        Code::Numpad9
    } else if keycode == 82 {
        Code::NumpadSubtract
    } else if keycode == 83 {
        Code::Numpad4
    } else if keycode == 84 {
        Code::Numpad5
    } else if keycode == 85 {
        Code::Numpad6
    } else if keycode == 86 {
        Code::NumpadAdd
    } else if keycode == 87 {
        Code::Numpad1
    } else if keycode == 88 {
        Code::Numpad2
    } else if keycode == 89 {
        Code::Numpad3
    } else if keycode == 90 {
        Code::Numpad0
    } else if keycode == 91 {
        Code::NumpadDecimal
    } else if keycode == 95 {
        Code::F11
    } else if keycode == 96 {
        Code::F12
    } else if keycode == 104 {
        Code::NumpadEnter
    } else if keycode == 105 {
        Code::ControlRight
    } else if keycode == 106 {
        Code::NumpadDivide
    } else if keycode == 108 {
        Code::AltRight
    } else if keycode == 110 {
        Code::Home
    } else if keycode == 111 {
        Code::ArrowUp
    } else if keycode == 112 {
        Code::PageUp
    } else if keycode == 113 {
        Code::ArrowLeft
    } else if keycode == 114 {
        Code::ArrowRight
    } else if keycode == 115 {
        Code::End
    } else if keycode == 116 {
        Code::ArrowDown
    } else if keycode == 117 {
        Code::PageDown
    } else if keycode == 118 {
        Code::Insert
    } else if keycode == 119 {
        Code::Delete
    } else if keycode == 133 {
        Code::SuperLeft
    } else if keycode == 134 {
        Code::SuperRight
    } else if keycode == 135 {
        Code::ContextMenu
    } else {
        Code::Other
    }
}

proof fn lemma_keycode_names_key(code: Code)
    requires
        x11_keycode(code) != 0,
    ensures
        keycode_key(x11_keycode(code)) == code,
{
}

/// No two keys share a keycode, and every keycode is that of an X11 key.
pub proof fn law_keycodes_are_unique(a: Code, b: Code)
    ensures
        x11_keycode(a) == x11_keycode(b) && x11_keycode(a) != 0 ==> a == b,
        x11_keycode(a) == 0 || 9 <= x11_keycode(a) <= 135,
{
    if x11_keycode(a) == x11_keycode(b) && x11_keycode(a) != 0 {
        lemma_keycode_names_key(a);
        lemma_keycode_names_key(b);
    }
}

/// The last sixteen bits of a character.
pub open spec fn utf16_unit(c: char) -> u16 {
    (c as u32 % 0x1_0000) as u16
}

fn char_unit(c: char) -> (unit: u16)
    ensures
        unit == utf16_unit(c),
{
    (c as u32 % 0x1_0000) as u16
}

/// The Windows key code for a character: that of the key it is on. Punctuation
/// has codes of its own, since its characters are the codes of control keys.
pub open spec fn char_key_code(c: char) -> i32 {
    if 'a' <= c <= 'z' {
        ((c as i32) - 32) as i32
    } else if c == ' ' || '0' <= c <= '9' || 'A' <= c <= 'Z' {
        c as i32
    } else {
        punctuation_key_code(c)
    }
}

/// The Windows key code for a punctuation character: that of the key it is on
/// where the character itself is the code of another key.
pub open spec fn punctuation_key_code(c: char) -> i32 {
    if c == '.' || c == '>' {
        0xBE
    } else if c == ',' || c == '<' {
        0xBC
    } else if c == ';' || c == ':' {
        0xBA
    } else if c == '/' || c == '?' {
        0xBF
    } else if c == '`' || c == '~' {
        0xC0
    } else if c == '[' || c == '{' {
        0xDB
    } else if c == '\\' || c == '|' {
        0xDC
    } else if c == ']' || c == '}' {
        0xDD
    } else if c == '\'' || c == '"' {
        0xDE
    } else if c == '-' || c == '_' {
        0xBD
    } else if c == '=' || c == '+' {
        0xBB
    } else if c == '!' {
        0x31
    } else if c == '#' {
        0x33
    } else if c == '$' {
        0x34
    } else if c == '%' {
        0x35
    } else if c == '&' {
        0x37
    } else if c == '(' {
        0x39
    } else {
        c as i32
    }
}

fn char_to_key_code(c: char) -> (code: i32)
    ensures
        code == char_key_code(c),
{
    if 'a' <= c && c <= 'z' {
        (c as i32) - 32
    } else if c == ' ' || ('0' <= c && c <= '9') || ('A' <= c && c <= 'Z') {
        c as i32
    } else {
        if c == '.' || c == '>' {
            0xBE
        } else if c == ',' || c == '<' {
            0xBC
        } else if c == ';' || c == ':' {
            0xBA
        } else if c == '/' || c == '?' {
            0xBF
        } else if c == '`' || c == '~' {
            0xC0
        } else if c == '[' || c == '{' {
            0xDB
        } else if c == '\\' || c == '|' {
            0xDC
        } else if c == ']' || c == '}' {
            0xDD
        } else if c == '\'' || c == '"' {
            0xDE
        } else if c == '-' || c == '_' {
            0xBD
        } else if c == '=' || c == '+' {
            0xBB
        } else if c == '!' {
            0x31
        } else if c == '#' {
            0x33
        } else if c == '$' {
            0x34
        } else if c == '%' {
            0x35
        } else if c == '&' {
            0x37
        } else if c == '(' {
            0x39
        } else {
            c as i32
        }
    }
}

/// The Windows key code of a named key and the character it types, zero where
/// it types none.
pub open spec fn named_key_code(named: Named) -> Option<(i32, u16)> {
    match named {
        Named::Enter => Some((0x0D, 0x0D)),
        Named::Tab => Some((0x09, 0x09)),
        Named::Space => Some((0x20, 0x20)),
        Named::Backspace => Some((0x08, 0x08)),
        Named::Delete => Some((0x2E, 0)),
        Named::Escape => Some((0x1B, 0x1B)),
        Named::Insert => Some((0x2D, 0)),
        Named::Home => Some((0x24, 0)),
        Named::End => Some((0x23, 0)),
        Named::PageUp => Some((0x21, 0)),
        Named::PageDown => Some((0x22, 0)),
        Named::ArrowUp => Some((0x26, 0)),
        Named::ArrowDown => Some((0x28, 0)),
        Named::ArrowLeft => Some((0x25, 0)),
        Named::ArrowRight => Some((0x27, 0)),
        Named::F1 => Some((0x70, 0)),
        Named::F2 => Some((0x71, 0)),
        Named::F3 => Some((0x72, 0)),
        Named::F4 => Some((0x73, 0)),
        Named::F5 => Some((0x74, 0)),
        Named::F6 => Some((0x75, 0)),
        Named::F7 => Some((0x76, 0)),
        Named::F8 => Some((0x77, 0)),
        Named::F9 => Some((0x78, 0)),
        Named::F10 => Some((0x79, 0)),
        Named::F11 => Some((0x7A, 0)),
        Named::F12 => Some((0x7B, 0)),
        Named::Shift => Some((0x10, 0)),
        Named::Control => Some((0x11, 0)),
        Named::Alt => Some((0x12, 0)),
        Named::Super => Some((0x5B, 0)),
        Named::CapsLock => Some((0x14, 0)),
        _ => None,
    }
}

/// The Windows key code of a key and the character it types.
pub open spec fn key_code(key: Key) -> Option<(i32, u16)> {
    match key {
        Key::Character(text) => if text@.len() > 0 {
            Some((char_key_code(text@[0]), utf16_unit(text@[0])))
        } else {
            None
        },
        Key::Named(named) => named_key_code(named),
        Key::Unidentified => None,
    }
}

fn named_to_cef(named: Named) -> (code: Option<(i32, u16)>)
    ensures
        code == named_key_code(named),
{
    match named {
        Named::Enter => Some((0x0D, 0x0D)),
        Named::Tab => Some((0x09, 0x09)),
        Named::Space => Some((0x20, 0x20)),
        Named::Backspace => Some((0x08, 0x08)),
        Named::Delete => Some((0x2E, 0)),
        Named::Escape => Some((0x1B, 0x1B)),
        Named::Insert => Some((0x2D, 0)),
        Named::Home => Some((0x24, 0)),
        Named::End => Some((0x23, 0)),
        Named::PageUp => Some((0x21, 0)),
        Named::PageDown => Some((0x22, 0)),
        Named::ArrowUp => Some((0x26, 0)),
        Named::ArrowDown => Some((0x28, 0)),
        Named::ArrowLeft => Some((0x25, 0)),
        Named::ArrowRight => Some((0x27, 0)),
        Named::F1 => Some((0x70, 0)),
        Named::F2 => Some((0x71, 0)),
        Named::F3 => Some((0x72, 0)),
        Named::F4 => Some((0x73, 0)),
        Named::F5 => Some((0x74, 0)),
        Named::F6 => Some((0x75, 0)),
        Named::F7 => Some((0x76, 0)),
        Named::F8 => Some((0x77, 0)),
        Named::F9 => Some((0x78, 0)),
        Named::F10 => Some((0x79, 0)),
        Named::F11 => Some((0x7A, 0)),
        Named::F12 => Some((0x7B, 0)),
        Named::Shift => Some((0x10, 0)),
        Named::Control => Some((0x11, 0)),
        Named::Alt => Some((0x12, 0)),
        Named::Super => Some((0x5B, 0)),
        Named::CapsLock => Some((0x14, 0)),
        _ => None,
    }
}

/// The Windows key code of a key and the character it types.
pub fn iced_key_to_cef(key: &Key) -> (code: Option<(i32, u16)>)
    ensures
        code == key_code(*key),
{
    match key {
        Key::Character(text) => {
            let text: &str = text.as_str();
            if text.is_empty() {
                None
            } else {
                let c: char = text.get_char(0);
                Some((char_to_key_code(c), char_unit(c)))
            }
        },
        Key::Named(named) => named_to_cef(*named),
        Key::Unidentified => None,
    }
}

/// A letter has the same key code in either case, and no letter, digit or
/// punctuation character of ASCII has the key code of a named key: typing one
/// never acts as a control key.
pub proof fn law_characters_do_not_act_as_control_keys(c: char, named: Named)
    requires
        ' ' < c <= '~',
    ensures
        'a' <= c <= 'z' ==> char_key_code(c) == char_key_code(((c as u32) - 32) as char),
        named_key_code(named) matches Some((code, _)) ==> code != char_key_code(c),
{
}

/// What a key event tells the page.
#[derive(Clone, Copy, Debug, PartialEq, Eq, Structural)]
pub enum KeyEventType {
    RawKeyDown,
    KeyUp,
    Char,
}

/// A key event for a page.
#[derive(Clone, Copy, Debug, PartialEq, Eq, Structural)]
pub struct KeyEvent {
    pub type_: KeyEventType,
    pub modifiers: u32,
    pub windows_key_code: i32,
    pub native_key_code: i32,
    /// The character typed, with or without modifiers.
    pub character: u16,
}

/// The character a key press types: the text it produced, or else the key's own
/// character, as for digits on the number pad, whose text is not reported.
pub open spec fn typed_unit(text: Option<String>, key: Key) -> Option<u16> {
    if text is Some && text->0@.len() > 0 {
        Some(utf16_unit(text->0@[0]))
    } else {
        match key_code(key) {
            Some((_, typed)) => if typed >= 0x20 {
                Some(typed)
            } else {
                None
            },
            None => None,
        }
    }
}

/// The key events a page is sent.
pub open spec fn page_key_events(event: KeyboardEvent) -> Seq<KeyEvent> {
    match event {
        KeyboardEvent::KeyPressed { key, physical_key, location, modifiers, text, repeat } => {
            let flags = modifier_flags(modifiers) | location_flags(location, repeat);
            let native = physical_keycode(physical_key);
            (match key_code(key) {
                Some((code, typed)) => seq![
                    KeyEvent {
                        type_: KeyEventType::RawKeyDown,
                        modifiers: flags,
                        windows_key_code: code,
                        native_key_code: native,
                        character: typed,
                    },
                ],
                None => Seq::empty(),
            }) + (match typed_unit(text, key) {
                Some(unit) => seq![
                    KeyEvent {
                        type_: KeyEventType::Char,
                        modifiers: flags,
                        windows_key_code: unit as i32,
                        native_key_code: native,
                        character: unit,
                    },
                ],
                None => Seq::empty(),
            })
        },
        KeyboardEvent::KeyReleased { key, physical_key, location, modifiers } => match key_code(
            key,
        ) {
            Some((code, typed)) => seq![
                KeyEvent {
                    type_: KeyEventType::KeyUp,
                    modifiers: modifier_flags(modifiers) | location_flags(location, false),
                    windows_key_code: code,
                    native_key_code: physical_keycode(physical_key),
                    character: typed,
                },
            ],
            None => Seq::empty(),
        },
        KeyboardEvent::ModifiersChanged(_) => Seq::empty(),
    }
}

fn typed_char(text: &Option<String>, key: &Key) -> (unit: Option<u16>)
    ensures
        unit == typed_unit(*text, *key),
{
    match text {
        Some(text) => {
            let text: &str = text.as_str();
            if !text.is_empty() {
                return Some(char_unit(text.get_char(0)));
            }
        },
        None => {},
    }
    match iced_key_to_cef(key) {
        Some((_, typed)) => {
            if typed >= 0x20 {
                Some(typed)
            } else {
                None
            }
        },
        None => None,
    }
}

/// The key events a page is sent: a press as a key and as what it types, a
/// release as a key.
pub fn key_events(event: &KeyboardEvent) -> (events: Vec<KeyEvent>)
    ensures
        events@ == page_key_events(*event),
{
    let mut events: Vec<KeyEvent> = Vec::new();
    match event {
        KeyboardEvent::KeyPressed { key, physical_key, location, modifiers, text, repeat } => {
            let flags: u32 = iced_modifiers_to_cef_key(*modifiers) | key_location_flags(
                *location,
                *repeat,
            );
            let native: i32 = physical_key_to_x11(physical_key);
            match iced_key_to_cef(key) {
                Some((code, typed)) => {
                    events.push(
                        KeyEvent {
                            type_: KeyEventType::RawKeyDown,
                            modifiers: flags,
                            windows_key_code: code,
                            native_key_code: native,
                            character: typed,
                        },
                    );
                },
                None => {},
            }
            match typed_char(text, key) {
                Some(unit) => {
                    events.push(
                        KeyEvent {
                            type_: KeyEventType::Char,
                            modifiers: flags,
                            windows_key_code: unit as i32,
                            native_key_code: native,
                            character: unit,
                        },
                    );
                },
                None => {},
            }
        },
        KeyboardEvent::KeyReleased { key, physical_key, location, modifiers } => {
            match iced_key_to_cef(key) {
                Some((code, typed)) => {
                    events.push(
                        KeyEvent {
                            type_: KeyEventType::KeyUp,
                            modifiers: iced_modifiers_to_cef_key(*modifiers) | key_location_flags(
                                *location,
                                false,
                            ),
                            windows_key_code: code,
                            native_key_code: physical_key_to_x11(physical_key),
                            character: typed,
                        },
                    );
                },
                None => {},
            }
        },
        KeyboardEvent::ModifiersChanged(_) => {},
    }
    assert(events@ =~= page_key_events(*event));
    events
}

/// A release mirrors its press: same key code, same physical key, same place,
/// same character, same modifiers.
pub proof fn law_release_mirrors_press(
    key: Key,
    physical_key: Physical,
    location: Location,
    modifiers: Modifiers,
    text: Option<String>,
)
    requires
        key_code(key) is Some,
    ensures
        ({
            let down = page_key_events(
                KeyboardEvent::KeyPressed {
                    key,
                    physical_key,
                    location,
                    modifiers,
                    text,
                    repeat: false,
                },
            );
            let up = page_key_events(
                KeyboardEvent::KeyReleased { key, physical_key, location, modifiers },
            );
            &&& up.len() == 1
            &&& down.len() > 0
            &&& down[0].type_ == KeyEventType::RawKeyDown
            &&& up[0] == (KeyEvent { type_: KeyEventType::KeyUp, ..down[0] })
        }),
{
}

/// A key that types a printable character of its own inserts it even where the
/// platform reports no text.
pub proof fn law_silent_key_still_types(
    key: Key,
    physical_key: Physical,
    location: Location,
    modifiers: Modifiers,
    repeat: bool,
)
    requires
        key_code(key) matches Some((_, typed)) && typed >= 0x20,
    ensures
        ({
            let events = page_key_events(
                KeyboardEvent::KeyPressed {
                    key,
                    physical_key,
                    location,
                    modifiers,
                    text: None,
                    repeat,
                },
            );
            &&& events.len() == 2
            &&& events[1].type_ == KeyEventType::Char
            &&& Some((events[0].windows_key_code, events[1].character)) == key_code(key)
        }),
{
}

/// What a page is sent of the mouse, at the place the event is about.
#[derive(Clone, Copy, Debug, PartialEq, Eq, Structural)]
pub enum PageMouse {
    /// The page is to take the keyboard.
    SetFocus,
    Click { button: MouseButtonType, up: bool, count: i32, modifiers: u32 },
    Move { leave: bool, modifiers: u32 },
    Wheel { delta: ScrollDelta },
}

/// How long ago the last click was, and whether it was near.
#[derive(Clone, Copy, Debug, PartialEq, Eq, Structural)]
pub struct SinceClick {
    pub millis: u64,
    pub near: bool,
}

/// The clicks into a view: how often in a row, and the buttons that are held.
#[derive(Clone, Copy, Debug, PartialEq, Eq, Structural)]
pub struct ClickState {
    pub click_count: i32,
    /// The button that was pressed last, if one ever was.
    pub last_button: Option<Button>,
    /// The flags of the buttons that are held.
    pub pressed_buttons: u32,
}

impl ClickState {
    /// Clicks are counted up to three.
    pub open spec fn is_valid(self) -> bool {
        0 <= self.click_count <= 3
    }

    /// No click yet.
    pub open spec fn at_start() -> ClickState {
        ClickState { click_count: 0, last_button: None, pressed_buttons: 0 }
    }

    /// No click yet.
    pub fn new() -> (clicks: ClickState)
        ensures
            clicks == ClickState::at_start(),
    {
        ClickState { click_count: 0, last_button: None, pressed_buttons: 0 }
    }

    /// Whether a press comes soon after the last one and near it.
    pub open spec fn follows(since: Option<SinceClick>) -> bool {
        since matches Some(last) && last.millis < MULTI_CLICK_MILLIS && last.near
    }

    /// Whether a press repeats the last click: it is of the same button, soon
    /// after it and near it.
    pub open spec fn repeats(self, button: Button, since: Option<SinceClick>) -> bool {
        self.last_button == Some(button) && ClickState::follows(since)
    }

    /// The number of clicks in a row after a press: one, two, three, and one
    /// again.
    pub open spec fn next_count(self, button: Button, since: Option<SinceClick>) -> int {
        if self.repeats(button, since) {
            self.click_count % 3 + 1
        } else {
            1
        }
    }

    /// What becomes of the clicks by an event.
    pub open spec fn after(self, event: MouseEvent, since: Option<SinceClick>) -> ClickState {
        match event {
            MouseEvent::ButtonPressed(button) => ClickState {
                click_count: self.next_count(button, since) as i32,
                last_button: Some(button),
                pressed_buttons: self.pressed_buttons | button_flag(button),
            },
            MouseEvent::ButtonReleased(button) => ClickState {
                pressed_buttons: self.pressed_buttons & !button_flag(button),
                ..self
            },
            _ => self,
        }
    }

    /// What a page is sent of an event. A press and its release both carry the
    /// flag of their button.
    pub open spec fn sends(
        self,
        event: MouseEvent,
        modifiers: Modifiers,
        since: Option<SinceClick>,
    ) -> Seq<PageMouse> {
        let flags = modifier_flags(modifiers) | self.pressed_buttons;
        match event {
            MouseEvent::ButtonPressed(button) => seq![PageMouse::SetFocus] + (match click_button(
                button,
            ) {
                Some(clicked) => seq![
                    PageMouse::Click {
                        button: clicked,
                        up: false,
                        count: self.next_count(button, since) as i32,
                        modifiers: flags | self.after(event, since).pressed_buttons,
                    },
                ],
                None => Seq::empty(),
            }),
            MouseEvent::ButtonReleased(button) => match click_button(button) {
                Some(clicked) => seq![
                    PageMouse::Click {
                        button: clicked,
                        up: true,
                        count: if self.click_count < 1 {
                            1
                        } else {
                            self.click_count
                        },
                        modifiers: flags,
                    },
                ],
                None => Seq::empty(),
            },
            MouseEvent::CursorMoved { .. } => seq![PageMouse::Move { leave: false, modifiers: flags }],
            MouseEvent::CursorLeft => seq![PageMouse::Move { leave: true, modifiers: flags }],
            MouseEvent::WheelScrolled { delta } => seq![PageMouse::Wheel { delta }],
            MouseEvent::CursorEntered => Seq::empty(),
        }
    }

    /// What a page is sent of an event. `since` tells of the last press, if
    /// there was one.
    pub fn mouse_events(
        &mut self,
        event: MouseEvent,
        modifiers: Modifiers,
        since: Option<SinceClick>,
    ) -> (sent: Vec<PageMouse>)
        requires
            old(self).is_valid(),
        ensures
            final(self).is_valid(),
            *final(self) == old(self).after(event, since),
            sent@ == old(self).sends(event, modifiers, since),
    {
        let mut sent: Vec<PageMouse> = Vec::new();
        let flags: u32 = iced_modifiers_to_cef(modifiers) | self.pressed_buttons;
        match event {
            MouseEvent::ButtonPressed(button) => {
                sent.push(PageMouse::SetFocus);
                self.pressed_buttons = self.pressed_buttons | mouse_button_event_flag(button);
                let same_button: bool = match self.last_button {
                    Some(last) => last == button,
                    None => false,
                };
                let follows: bool = match since {
                    Some(last) => last.millis < MULTI_CLICK_MILLIS && last.near,
                    None => false,
                };
                self.click_count = if same_button && follows {
                    self.click_count % 3 + 1
                } else {
                    1
                };
                self.last_button = Some(button);
                match iced_button_to_cef(button) {
                    Some(clicked) => {
                        sent.push(
                            PageMouse::Click {
                                button: clicked,
                                up: false,
                                count: self.click_count,
                                modifiers: flags | self.pressed_buttons,
                            },
                        );
                    },
                    None => {},
                }
            },
            MouseEvent::ButtonReleased(button) => {
                match iced_button_to_cef(button) {
                    Some(clicked) => {
                        let count: i32 = if self.click_count < 1 {
                            1
                        } else {
                            self.click_count
                        };
                        sent.push(
                            PageMouse::Click { button: clicked, up: true, count, modifiers: flags },
                        );
                    },
                    None => {},
                }
                self.pressed_buttons = self.pressed_buttons & !mouse_button_event_flag(button);
            },
            MouseEvent::CursorMoved { .. } => {
                sent.push(PageMouse::Move { leave: false, modifiers: flags });
            },
            MouseEvent::CursorLeft => {
                sent.push(PageMouse::Move { leave: true, modifiers: flags });
            },
            MouseEvent::WheelScrolled { delta } => {
                sent.push(PageMouse::Wheel { delta });
            },
            MouseEvent::CursorEntered => {},
        }
        assert(sent@ =~= old(self).sends(event, modifiers, since));
        sent
    }
}

/// A press and the release of the same button leave the held buttons as they
/// were, and in between the button is held.
pub proof fn law_press_and_release_cancel(
    clicks: ClickState,
    button: Button,
    since: Option<SinceClick>,
)
    requires
        clicks.pressed_buttons & button_flag(button) == 0,
    ensures
        ({
            let held = clicks.after(MouseEvent::ButtonPressed(button), since);
            let freed = held.after(MouseEvent::ButtonReleased(button), since);
            &&& held.pressed_buttons & button_flag(button) == button_flag(button)
            &&& freed.pressed_buttons == clicks.pressed_buttons
        }),
{
    let p = clicks.pressed_buttons;
    let f = button_flag(button);
    assert((p | f) & f == f) by (bit_vector);
    assert((p | f) & !f == p) by (bit_vector)
        requires
            p & f == 0,
    ;
}

/// Other buttons stay as they are when one is pressed or released.
pub proof fn law_buttons_are_independent(
    clicks: ClickState,
    button: Button,
    other: Button,
    since: Option<SinceClick>,
)
    requires
        button_flag(button) != button_flag(other),
    ensures
        ({
            let held = clicks.after(MouseEvent::ButtonPressed(button), since);
            let freed = clicks.after(MouseEvent::ButtonReleased(button), since);
            let flag = button_flag(other);
            &&& held.pressed_buttons & flag == clicks.pressed_buttons & flag
            &&& freed.pressed_buttons & flag == clicks.pressed_buttons & flag
        }),
{
    let p = clicks.pressed_buttons;
    let f = button_flag(button);
    let g = button_flag(other);
    assert(f & g == 0) by {
        assert(0x10u32 & 0x20 == 0 && 0x10u32 & 0x40 == 0 && 0x20u32 & 0x40 == 0) by (bit_vector);
        assert(0x20u32 & 0x10 == 0 && 0x40u32 & 0x10 == 0 && 0x40u32 & 0x20 == 0) by (bit_vector);
        assert(0u32 & g == 0) by (bit_vector);
        assert(f & 0u32 == 0) by (bit_vector);
    }
    assert((p | f) & g == p & g) by (bit_vector)
        requires
            f & g == 0,
    ;
    assert((p & !f) & g == p & g) by (bit_vector)
        requires
            f & g == 0,
    ;
}

/// Clicks of one button in quick succession at one place count one, two, three
/// and start over, whatever is released or moved in between; a press that comes
/// late or far off counts one.
pub proof fn law_clicks_cycle(
    clicks: ClickState,
    button: Button,
    since: Option<SinceClick>,
    late: Option<SinceClick>,
    between: MouseEvent,
)
    requires
        ClickState::follows(since),
        !ClickState::follows(late),
        !(between is ButtonPressed),
    ensures
        ({
            let press = MouseEvent::ButtonPressed(button);
            let first = clicks.after(press, late);
            let second = first.after(between, since).after(press, since);
            let third = second.after(between, since).after(press, since);
            let fourth = third.after(between, since).after(press, since);
            &&& first.click_count == 1
            &&& second.click_count == 2
            &&& third.click_count == 3
            &&& fourth.click_count == 1
        }),
{
}

/// A press of another button starts over, however soon and near: it counts one,
/// and so does the next press of the first button after it.
pub proof fn law_other_button_starts_over(
    clicks: ClickState,
    button: Button,
    other: Button,
    modifiers: Modifiers,
    before: Option<SinceClick>,
    since: Option<SinceClick>,
)
    requires
        button != other,
    ensures
        ({
            let pressed = clicks.after(MouseEvent::ButtonPressed(button), before);
            let changed = pressed.after(MouseEvent::ButtonPressed(other), since);
            let back = changed.after(MouseEvent::ButtonPressed(button), since);
            &&& changed.click_count == 1
            &&& back.click_count == 1
            &&& forall|k: int|
                0 <= k < pressed.sends(MouseEvent::ButtonPressed(other), modifiers, since).len()
                    ==> (#[trigger] pressed.sends(
                    MouseEvent::ButtonPressed(other),
                    modifiers,
                    since,
                )[k] matches PageMouse::Click { count, .. } ==> count == 1)
        }),
{
}

/// Every named key has the key code that Windows gives it, and types the
/// character that goes with it.
pub proof fn law_named_keys_have_windows_codes(named: Named)
    ensures
        named == Named::Enter ==> key_code(Key::Named(named)) == Some((0x0Di32, 0x0Du16)),
        named == Named::Tab ==> key_code(Key::Named(named)) == Some((0x09i32, 0x09u16)),
        named == Named::Space ==> key_code(Key::Named(named)) == Some((0x20i32, 0x20u16)),
        named == Named::Backspace ==> key_code(Key::Named(named)) == Some((0x08i32, 0x08u16)),
        named == Named::Delete ==> key_code(Key::Named(named)) == Some((0x2Ei32, 0u16)),
        named == Named::Escape ==> key_code(Key::Named(named)) == Some((0x1Bi32, 0x1Bu16)),
        named == Named::Insert ==> key_code(Key::Named(named)) == Some((0x2Di32, 0u16)),
        named == Named::Home ==> key_code(Key::Named(named)) == Some((0x24i32, 0u16)),
        named == Named::End ==> key_code(Key::Named(named)) == Some((0x23i32, 0u16)),
        named == Named::PageUp ==> key_code(Key::Named(named)) == Some((0x21i32, 0u16)),
        named == Named::PageDown ==> key_code(Key::Named(named)) == Some((0x22i32, 0u16)),
        named == Named::ArrowUp ==> key_code(Key::Named(named)) == Some((0x26i32, 0u16)),
        named == Named::ArrowDown ==> key_code(Key::Named(named)) == Some((0x28i32, 0u16)),
        named == Named::ArrowLeft ==> key_code(Key::Named(named)) == Some((0x25i32, 0u16)),
        named == Named::ArrowRight ==> key_code(Key::Named(named)) == Some((0x27i32, 0u16)),
        named == Named::F1 ==> key_code(Key::Named(named)) == Some((0x70i32, 0u16)),
        named == Named::F2 ==> key_code(Key::Named(named)) == Some((0x71i32, 0u16)),
        named == Named::F3 ==> key_code(Key::Named(named)) == Some((0x72i32, 0u16)),
        named == Named::F4 ==> key_code(Key::Named(named)) == Some((0x73i32, 0u16)),
        named == Named::F5 ==> key_code(Key::Named(named)) == Some((0x74i32, 0u16)),
        named == Named::F6 ==> key_code(Key::Named(named)) == Some((0x75i32, 0u16)),
        named == Named::F7 ==> key_code(Key::Named(named)) == Some((0x76i32, 0u16)),
        named == Named::F8 ==> key_code(Key::Named(named)) == Some((0x77i32, 0u16)),
        named == Named::F9 ==> key_code(Key::Named(named)) == Some((0x78i32, 0u16)),
        named == Named::F10 ==> key_code(Key::Named(named)) == Some((0x79i32, 0u16)),
        named == Named::F11 ==> key_code(Key::Named(named)) == Some((0x7Ai32, 0u16)),
        named == Named::F12 ==> key_code(Key::Named(named)) == Some((0x7Bi32, 0u16)),
        named == Named::Shift ==> key_code(Key::Named(named)) == Some((0x10i32, 0u16)),
        named == Named::Control ==> key_code(Key::Named(named)) == Some((0x11i32, 0u16)),
        named == Named::Alt ==> key_code(Key::Named(named)) == Some((0x12i32, 0u16)),
        named == Named::Super ==> key_code(Key::Named(named)) == Some((0x5Bi32, 0u16)),
        named == Named::CapsLock ==> key_code(Key::Named(named)) == Some((0x14i32, 0u16)),
        named == Named::NumLock || named == Named::ScrollLock || named == Named::Pause || named
            == Named::PrintScreen || named == Named::ContextMenu || named == Named::Other
            ==> key_code(Key::Named(named)) is None,
        key_code(Key::Unidentified) is None,
{
}

/// Every physical key has the keycode that X11 gives it on a PC105 keyboard.
pub proof fn law_physical_keys_have_x11_keycodes(code: Code)
    ensures
        code == Code::Escape ==> physical_keycode(Physical::Code(code)) == 9,
        code == Code::Digit1 ==> physical_keycode(Physical::Code(code)) == 10,
        code == Code::Digit2 ==> physical_keycode(Physical::Code(code)) == 11,
        code == Code::Digit3 ==> physical_keycode(Physical::Code(code)) == 12,
        code == Code::Digit4 ==> physical_keycode(Physical::Code(code)) == 13,
        code == Code::Digit5 ==> physical_keycode(Physical::Code(code)) == 14,
        code == Code::Digit6 ==> physical_keycode(Physical::Code(code)) == 15,
        code == Code::Digit7 ==> physical_keycode(Physical::Code(code)) == 16,
        code == Code::Digit8 ==> physical_keycode(Physical::Code(code)) == 17,
        code == Code::Digit9 ==> physical_keycode(Physical::Code(code)) == 18,
        code == Code::Digit0 ==> physical_keycode(Physical::Code(code)) == 19,
        code == Code::Minus ==> physical_keycode(Physical::Code(code)) == 20,
        code == Code::Equal ==> physical_keycode(Physical::Code(code)) == 21,
        code == Code::Backspace ==> physical_keycode(Physical::Code(code)) == 22,
        code == Code::Tab ==> physical_keycode(Physical::Code(code)) == 23,
        code == Code::KeyQ ==> physical_keycode(Physical::Code(code)) == 24,
        code == Code::KeyW ==> physical_keycode(Physical::Code(code)) == 25,
        code == Code::KeyE ==> physical_keycode(Physical::Code(code)) == 26,
        code == Code::KeyR ==> physical_keycode(Physical::Code(code)) == 27,
        code == Code::KeyT ==> physical_keycode(Physical::Code(code)) == 28,
        code == Code::KeyY ==> physical_keycode(Physical::Code(code)) == 29,
        code == Code::KeyU ==> physical_keycode(Physical::Code(code)) == 30,
        code == Code::KeyI ==> physical_keycode(Physical::Code(code)) == 31,
        code == Code::KeyO ==> physical_keycode(Physical::Code(code)) == 32,
        code == Code::KeyP ==> physical_keycode(Physical::Code(code)) == 33,
        code == Code::BracketLeft ==> physical_keycode(Physical::Code(code)) == 34,
        code == Code::BracketRight ==> physical_keycode(Physical::Code(code)) == 35,
        code == Code::Enter ==> physical_keycode(Physical::Code(code)) == 36,
        code == Code::ControlLeft ==> physical_keycode(Physical::Code(code)) == 37,
        code == Code::KeyA ==> physical_keycode(Physical::Code(code)) == 38,
        code == Code::KeyS ==> physical_keycode(Physical::Code(code)) == 39,
        code == Code::KeyD ==> physical_keycode(Physical::Code(code)) == 40,
        code == Code::KeyF ==> physical_keycode(Physical::Code(code)) == 41,
        code == Code::KeyG ==> physical_keycode(Physical::Code(code)) == 42,
        code == Code::KeyH ==> physical_keycode(Physical::Code(code)) == 43,
        code == Code::KeyJ ==> physical_keycode(Physical::Code(code)) == 44,
        code == Code::KeyK ==> physical_keycode(Physical::Code(code)) == 45,
        code == Code::KeyL ==> physical_keycode(Physical::Code(code)) == 46,
        code == Code::Semicolon ==> physical_keycode(Physical::Code(code)) == 47,
        code == Code::Quote ==> physical_keycode(Physical::Code(code)) == 48,
        code == Code::Backquote ==> physical_keycode(Physical::Code(code)) == 49,
        code == Code::ShiftLeft ==> physical_keycode(Physical::Code(code)) == 50,
        code == Code::Backslash ==> physical_keycode(Physical::Code(code)) == 51,
        code == Code::KeyZ ==> physical_keycode(Physical::Code(code)) == 52,
        code == Code::KeyX ==> physical_keycode(Physical::Code(code)) == 53,
        code == Code::KeyC ==> physical_keycode(Physical::Code(code)) == 54,
        code == Code::KeyV ==> physical_keycode(Physical::Code(code)) == 55,
        code == Code::KeyB ==> physical_keycode(Physical::Code(code)) == 56,
        code == Code::KeyN ==> physical_keycode(Physical::Code(code)) == 57,
        code == Code::KeyM ==> physical_keycode(Physical::Code(code)) == 58,
        code == Code::Comma ==> physical_keycode(Physical::Code(code)) == 59,
        code == Code::Period ==> physical_keycode(Physical::Code(code)) == 60,
        code == Code::Slash ==> physical_keycode(Physical::Code(code)) == 61,
        code == Code::ShiftRight ==> physical_keycode(Physical::Code(code)) == 62,
        code == Code::NumpadMultiply ==> physical_keycode(Physical::Code(code)) == 63,
        code == Code::AltLeft ==> physical_keycode(Physical::Code(code)) == 64,
        code == Code::Space ==> physical_keycode(Physical::Code(code)) == 65,
        code == Code::CapsLock ==> physical_keycode(Physical::Code(code)) == 66,
        code == Code::F1 ==> physical_keycode(Physical::Code(code)) == 67,
        code == Code::F2 ==> physical_keycode(Physical::Code(code)) == 68,
        code == Code::F3 ==> physical_keycode(Physical::Code(code)) == 69,
        code == Code::F4 ==> physical_keycode(Physical::Code(code)) == 70,
        code == Code::F5 ==> physical_keycode(Physical::Code(code)) == 71,
        code == Code::F6 ==> physical_keycode(Physical::Code(code)) == 72,
        code == Code::F7 ==> physical_keycode(Physical::Code(code)) == 73,
        code == Code::F8 ==> physical_keycode(Physical::Code(code)) == 74,
        code == Code::F9 ==> physical_keycode(Physical::Code(code)) == 75,
        code == Code::F10 ==> physical_keycode(Physical::Code(code)) == 76,
        code == Code::NumLock ==> physical_keycode(Physical::Code(code)) == 77,
        code == Code::ScrollLock ==> physical_keycode(Physical::Code(code)) == 78,
        code == Code::Numpad7 ==> physical_keycode(Physical::Code(code)) == 79,
        code == Code::Numpad8 ==> physical_keycode(Physical::Code(code)) == 80,
        code == Code::Numpad9 ==> physical_keycode(Physical::Code(code)) == 81,
        code == Code::NumpadSubtract ==> physical_keycode(Physical::Code(code)) == 82,
        code == Code::Numpad4 ==> physical_keycode(Physical::Code(code)) == 83,
        code == Code::Numpad5 ==> physical_keycode(Physical::Code(code)) == 84,
        code == Code::Numpad6 ==> physical_keycode(Physical::Code(code)) == 85,
        code == Code::NumpadAdd ==> physical_keycode(Physical::Code(code)) == 86,
        code == Code::Numpad1 ==> physical_keycode(Physical::Code(code)) == 87,
        code == Code::Numpad2 ==> physical_keycode(Physical::Code(code)) == 88,
        code == Code::Numpad3 ==> physical_keycode(Physical::Code(code)) == 89,
        code == Code::Numpad0 ==> physical_keycode(Physical::Code(code)) == 90,
        code == Code::NumpadDecimal ==> physical_keycode(Physical::Code(code)) == 91,
        code == Code::F11 ==> physical_keycode(Physical::Code(code)) == 95,
        code == Code::F12 ==> physical_keycode(Physical::Code(code)) == 96,
        code == Code::NumpadEnter ==> physical_keycode(Physical::Code(code)) == 104,
        code == Code::ControlRight ==> physical_keycode(Physical::Code(code)) == 105,
        code == Code::NumpadDivide ==> physical_keycode(Physical::Code(code)) == 106,
        code == Code::AltRight ==> physical_keycode(Physical::Code(code)) == 108,
        code == Code::Home ==> physical_keycode(Physical::Code(code)) == 110,
        code == Code::ArrowUp ==> physical_keycode(Physical::Code(code)) == 111,
        code == Code::PageUp ==> physical_keycode(Physical::Code(code)) == 112,
        code == Code::ArrowLeft ==> physical_keycode(Physical::Code(code)) == 113,
        code == Code::ArrowRight ==> physical_keycode(Physical::Code(code)) == 114,
        code == Code::End ==> physical_keycode(Physical::Code(code)) == 115,
        code == Code::ArrowDown ==> physical_keycode(Physical::Code(code)) == 116,
        code == Code::PageDown ==> physical_keycode(Physical::Code(code)) == 117,
        code == Code::Insert ==> physical_keycode(Physical::Code(code)) == 118,
        code == Code::Delete ==> physical_keycode(Physical::Code(code)) == 119,
        code == Code::SuperLeft ==> physical_keycode(Physical::Code(code)) == 133,
        code == Code::SuperRight ==> physical_keycode(Physical::Code(code)) == 134,
        code == Code::ContextMenu ==> physical_keycode(Physical::Code(code)) == 135,
        physical_keycode(Physical::Code(Code::Other)) == 0,
        physical_keycode(Physical::Unidentified) == 0,
{
}

/// A character has the key code of the key it is on: letters that of the upper
/// case letter, digits and the space their own, punctuation the one that
/// Windows gives the key. What it types is the character itself.
pub proof fn law_characters_have_the_code_of_their_key(c: char, text: String)
    ensures
        'a' <= c <= 'z' ==> char_key_code(c) == c as u32 - 32,
        'A' <= c <= 'Z' || '0' <= c <= '9' || c == ' ' ==> char_key_code(c) == c as u32,
        c == '.' || c == '>' ==> char_key_code(c) == 0xBE,
        c == ',' || c == '<' ==> char_key_code(c) == 0xBC,
        c == ';' || c == ':' ==> char_key_code(c) == 0xBA,
        c == '/' || c == '?' ==> char_key_code(c) == 0xBF,
        c == '`' || c == '~' ==> char_key_code(c) == 0xC0,
        c == '[' || c == '{' ==> char_key_code(c) == 0xDB,
        c == '\\' || c == '|' ==> char_key_code(c) == 0xDC,
        c == ']' || c == '}' ==> char_key_code(c) == 0xDD,
        c == '\'' || c == '"' ==> char_key_code(c) == 0xDE,
        c == '-' || c == '_' ==> char_key_code(c) == 0xBD,
        c == '=' || c == '+' ==> char_key_code(c) == 0xBB,
        c == '!' ==> char_key_code(c) == 0x31,
        c == '#' ==> char_key_code(c) == 0x33,
        c == '$' ==> char_key_code(c) == 0x34,
        c == '%' ==> char_key_code(c) == 0x35,
        c == '&' ==> char_key_code(c) == 0x37,
        c == '(' ==> char_key_code(c) == 0x39,
        c == '@' || c == '^' || c == '*' || c == ')' || c as u32 > 126 || c < ' '
            ==> char_key_code(c) == c as u32,
        text@.len() > 0 && text@[0] == c ==> (key_code(Key::Character(text)) matches Some(
            (code, typed),
        ) && code == char_key_code(c) && typed as int == c as u32 as int % 0x1_0000),
        text@.len() == 0 ==> key_code(Key::Character(text)) is None,
{
}

/// The pointer that is shown is the one the page asks for.
pub proof fn law_pointer_is_the_one_asked_for(cursor: CursorType)
    ensures
        cursor == CursorType::Ibeam ==> cursor_interaction(cursor) == Interaction::Text,
        cursor == CursorType::Cross ==> cursor_interaction(cursor) == Interaction::Crosshair,
        cursor == CursorType::Hand ==> cursor_interaction(cursor) == Interaction::Pointer,
        cursor == CursorType::Grab ==> cursor_interaction(cursor) == Interaction::Grab,
        cursor == CursorType::Grabbing ==> cursor_interaction(cursor) == Interaction::Grabbing,
        cursor == CursorType::NotAllowed ==> cursor_interaction(cursor) == Interaction::NotAllowed,
        cursor == CursorType::EastWestResize ==> cursor_interaction(cursor) == Interaction::ResizingHorizontally,
        cursor == CursorType::EastResize ==> cursor_interaction(cursor) == Interaction::ResizingHorizontally,
        cursor == CursorType::WestResize ==> cursor_interaction(cursor) == Interaction::ResizingHorizontally,
        cursor == CursorType::ColumnResize ==> cursor_interaction(cursor) == Interaction::ResizingHorizontally,
        cursor == CursorType::NorthSouthResize ==> cursor_interaction(cursor) == Interaction::ResizingVertically,
        cursor == CursorType::NorthResize ==> cursor_interaction(cursor) == Interaction::ResizingVertically,
        cursor == CursorType::SouthResize ==> cursor_interaction(cursor) == Interaction::ResizingVertically,
        cursor == CursorType::RowResize ==> cursor_interaction(cursor) == Interaction::ResizingVertically,
        cursor == CursorType::ZoomIn ==> cursor_interaction(cursor) == Interaction::ZoomIn,
        cursor == CursorType::ZoomOut ==> cursor_interaction(cursor) == Interaction::ZoomOut,
        cursor == CursorType::Pointer || cursor == CursorType::Other ==> cursor_interaction(cursor)
            == Interaction::Idle,
{
}

/// The flags of an event say which modifiers are held, where the key is and
/// whether it repeats: one bit each, and no other bit.
pub proof fn law_flags_say_what_is_held(modifiers: Modifiers, location: Location, repeat: bool)
    ensures
        ({
            let flags = modifier_flags(modifiers) | location_flags(location, repeat);
            &&& flags & 0x2 != 0 <==> modifiers.shift
            &&& flags & 0x4 != 0 <==> modifiers.control
            &&& flags & 0x8 != 0 <==> modifiers.alt
            &&& flags & 0x200 != 0 <==> location == Location::Numpad
            &&& flags & 0x400 != 0 <==> location == Location::Left
            &&& flags & 0x800 != 0 <==> location == Location::Right
            &&& flags & 0x2000 != 0 <==> repeat
            &&& flags & !0x2e0e == 0
        }),
        modifier_flags(modifiers) & !0xe == 0,
        location_flags(location, repeat) & !0x2e00 == 0,
{
    let a: u32 = if modifiers.shift {
        0x2
    } else {
        0
    };
    let b: u32 = if modifiers.control {
        0x4
    } else {
        0
    };
    let c: u32 = if modifiers.alt {
        0x8
    } else {
        0
    };
    let d: u32 = match location {
        Location::Numpad => 0x200,
        Location::Left => 0x400,
        Location::Right => 0x800,
        Location::Standard => 0,
    };
    let e: u32 = if repeat {
        0x2000
    } else {
        0
    };
    let m: u32 = a | b | c;
    let l: u32 = d | e;
    let f: u32 = m | l;
    assert(modifier_flags(modifiers) == m);
    assert(location_flags(location, repeat) == l);
    assert((f & 0x2 != 0) == (a == 0x2) && (f & 0x4 != 0) == (b == 0x4) && (f & 0x8 != 0) == (c
        == 0x8) && (f & 0x200 != 0) == (d == 0x200) && (f & 0x400 != 0) == (d == 0x400) && (f
        & 0x800 != 0) == (d == 0x800) && (f & 0x2000 != 0) == (e == 0x2000) && f & !0x2e0e == 0 && m
        & !0xe == 0 && l & !0x2e00 == 0) by (bit_vector)
        requires
            a == 0 || a == 0x2,
            b == 0 || b == 0x4,
            c == 0 || c == 0x8,
            d == 0 || d == 0x200 || d == 0x400 || d == 0x800,
            e == 0 || e == 0x2000,
            m == (a | b | c),
            l == (d | e),
            f == (m | l),
    ;
}

/// A press reaches the page as its key, where the key has a code, and then as
/// the character it types: that of the text where there is some, else the one
/// of the key if it is printable. Both carry the same physical key and flags.
pub proof fn law_press_is_key_and_character(
    key: Key,
    physical_key: Physical,
    location: Location,
    modifiers: Modifiers,
    text: Option<String>,
    repeat: bool,
)
    ensures
        ({
            let events = page_key_events(
                KeyboardEvent::KeyPressed { key, physical_key, location, modifiers, text, repeat },
            );
            let flags = modifier_flags(modifiers) | location_flags(location, repeat);
            let keys: int = if key_code(key) is Some {
                1
            } else {
                0
            };
            let has_text = text matches Some(t) && t@.len() > 0;
            let prints = key_code(key) matches Some((_, typed)) && typed >= 0x20;
            &&& events.len() == keys + if has_text || prints {
                1int
            } else {
                0
            }
            &&& forall|k: int|
                0 <= k < events.len() ==> (#[trigger] events[k]).modifiers == flags
                    && events[k].native_key_code == physical_keycode(physical_key)
            &&& key_code(key) matches Some((code, typed)) ==> events[0].type_
                == KeyEventType::RawKeyDown && events[0].windows_key_code == code
                && events[0].character == typed
            &&& has_text ==> events.last().type_ == KeyEventType::Char
                && events.last().character as int == text->0@[0] as u32 as int % 0x1_0000
            &&& !has_text && prints ==> events.last().type_ == KeyEventType::Char
                && Some((events[0].windows_key_code, events.last().character)) == key_code(key)
            &&& has_text || prints ==> events.last().windows_key_code == events.last().character
        }),
{
}

/// A release reaches the page as the key that is let go, where it has a code,
/// and never types; that modifiers changed is no key.
pub proof fn law_release_is_key_alone(
    key: Key,
    physical_key: Physical,
    location: Location,
    modifiers: Modifiers,
)
    ensures
        ({
            let events = page_key_events(
                KeyboardEvent::KeyReleased { key, physical_key, location, modifiers },
            );
            &&& events.len() == if key_code(key) is Some {
                1int
            } else {
                0
            }
            &&& key_code(key) matches Some((code, typed)) ==> events[0].type_ == KeyEventType::KeyUp
                && events[0].windows_key_code == code && events[0].character == typed
                && events[0].native_key_code == physical_keycode(physical_key)
                && events[0].modifiers == modifier_flags(modifiers) | location_flags(
                location,
                false,
            )
        }),
        page_key_events(KeyboardEvent::ModifiersChanged(modifiers)).len() == 0,
{
}

/// Each button a page can be clicked with is the one it is clicked with, under
/// the flag that CEF gives it.
pub proof fn law_buttons_are_named_right(button: Button)
    ensures
        button == Button::Left ==> click_button(button) == Some(MouseButtonType::Left)
            && button_flag(button) == 0x10,
        button == Button::Middle ==> click_button(button) == Some(MouseButtonType::Middle)
            && button_flag(button) == 0x20,
        button == Button::Right ==> click_button(button) == Some(MouseButtonType::Right)
            && button_flag(button) == 0x40,
        button == Button::Back || button == Button::Forward || button is Other ==> click_button(
            button,
        ) is None && button_flag(button) == 0,
{
}

/// A press gives the page the keyboard and then clicks it, if with a button it
/// can be clicked with. The click carries the modifiers, the buttons that are
/// held and its own; it counts on from the last one if that was of the same
/// button, less than half a second ago and near, and counts one otherwise.
pub proof fn law_press_clicks_page(
    clicks: ClickState,
    button: Button,
    modifiers: Modifiers,
    since: Option<SinceClick>,
)
    requires
        clicks.is_valid(),
    ensures
        ({
            let event = MouseEvent::ButtonPressed(button);
            let sent = clicks.sends(event, modifiers, since);
            let after = clicks.after(event, since);
            let again = clicks.last_button == Some(button) && (since matches Some(last)
                && last.millis < 500 && last.near);
            let expected: int = if !again {
                1
            } else if clicks.click_count == 3 {
                1
            } else {
                clicks.click_count + 1
            };
            &&& sent.len() > 0 && sent[0] == PageMouse::SetFocus
            &&& sent.len() == if click_button(button) is Some {
                2int
            } else {
                1
            }
            &&& click_button(button) matches Some(clicked) ==> (sent[1] matches PageMouse::Click {
                button: b,
                up,
                count,
                modifiers: flags,
            } && b == clicked && !up && count == expected && flags == modifier_flags(modifiers)
                | clicks.pressed_buttons | button_flag(button))
            &&& after.click_count == expected
            &&& after.last_button == Some(button)
            &&& after.pressed_buttons == clicks.pressed_buttons | button_flag(button)
        }),
{
    let m = modifier_flags(modifiers);
    let p = clicks.pressed_buttons;
    let f = button_flag(button);
    assert((m | p) | (p | f) == m | p | f) by (bit_vector);
}

/// A release lets the button go with the count of its press, still carrying its
/// flag, and changes nothing but that the button is no longer held.
pub proof fn law_release_lets_button_go(
    clicks: ClickState,
    button: Button,
    modifiers: Modifiers,
    since: Option<SinceClick>,
)
    ensures
        ({
            let event = MouseEvent::ButtonReleased(button);
            let sent = clicks.sends(event, modifiers, since);
            let after = clicks.after(event, since);
            &&& sent.len() == if click_button(button) is Some {
                1int
            } else {
                0
            }
            &&& click_button(button) matches Some(clicked) ==> (sent[0] matches PageMouse::Click {
                button: b,
                up,
                count,
                modifiers: flags,
            } && b == clicked && up && flags == modifier_flags(modifiers) | clicks.pressed_buttons
                && (clicks.click_count >= 1 ==> count == clicks.click_count) && (clicks.click_count
                < 1 ==> count == 1))
            &&& after.click_count == clicks.click_count
            &&& after.last_button == clicks.last_button
        }),
{
}

/// Moving, leaving and scrolling reach the page as what they are and change
/// nothing about the clicks; that the pointer came in is not passed on.
pub proof fn law_moves_and_scrolls_are_passed_on(
    clicks: ClickState,
    position: crate::input::Point,
    delta: ScrollDelta,
    modifiers: Modifiers,
    since: Option<SinceClick>,
)
    ensures
        ({
            let flags = modifier_flags(modifiers) | clicks.pressed_buttons;
            let moved = MouseEvent::CursorMoved { position };
            let wheel = MouseEvent::WheelScrolled { delta };
            &&& clicks.sends(moved, modifiers, since).len() == 1
            &&& clicks.sends(moved, modifiers, since)[0] == (PageMouse::Move {
                leave: false,
                modifiers: flags,
            })
            &&& clicks.sends(MouseEvent::CursorLeft, modifiers, since).len() == 1
            &&& clicks.sends(MouseEvent::CursorLeft, modifiers, since)[0] == (PageMouse::Move {
                leave: true,
                modifiers: flags,
            })
            &&& clicks.sends(wheel, modifiers, since).len() == 1
            &&& clicks.sends(wheel, modifiers, since)[0] == (PageMouse::Wheel { delta })
            &&& clicks.sends(MouseEvent::CursorEntered, modifiers, since).len() == 0
            &&& clicks.after(moved, since) == clicks
            &&& clicks.after(wheel, since) == clicks
            &&& clicks.after(MouseEvent::CursorLeft, since) == clicks
            &&& clicks.after(MouseEvent::CursorEntered, since) == clicks
        }),
{
}

/// At the start nothing was clicked and nothing is held.
pub proof fn law_no_click_at_start()
    ensures
        ClickState::at_start().click_count == 0,
        ClickState::at_start().last_button is None,
        ClickState::at_start().pressed_buttons == 0,
{
}

} // verus!
