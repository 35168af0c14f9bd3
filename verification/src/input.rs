//! What the window reports: pointer, touch and keyboard events.

use vstd::prelude::*;
use vstd::string::*;

verus! {

/// A position, as the bit patterns of its two coordinates.
///
/// Coordinates are only ever handed on, so nothing here looks inside them.
#[derive(Clone, Copy, Debug, PartialEq, Eq, Structural)]
pub struct Point {
    pub x: u32,
    pub y: u32,
}

impl Point {
    /// The top-left corner: both coordinates are zero, whose bits are clear.
    pub open spec fn at_origin() -> Point {
        Point { x: 0, y: 0 }
    }

    /// The top-left corner.
    pub fn origin() -> (point: Point)
        ensures
            point == Point::at_origin(),
    {
        Point { x: 0, y: 0 }
    }
}

/// A size in whole pixels.
#[derive(Clone, Copy, Debug, PartialEq, Eq, Structural)]
pub struct Size {
    pub width: u32,
    pub height: u32,
}

impl Size {
    /// A size of at least one pixel each way.
    pub open spec fn visible(self) -> Size {
        Size {
            width: if self.width == 0 {
                1
            } else {
                self.width
            },
            height: if self.height == 0 {
                1
            } else {
                self.height
            },
        }
    }

    /// A size of at least one pixel each way.
    pub fn at_least_a_pixel(self) -> (size: Size)
        ensures
            size == self.visible(),
    {
        Size {
            width: if self.width == 0 {
                1
            } else {
                self.width
            },
            height: if self.height == 0 {
                1
            } else {
                self.height
            },
        }
    }
}

/// A mouse button.
#[derive(Clone, Copy, Debug, PartialEq, Eq, Structural)]
pub enum Button {
    Left,
    Right,
    Middle,
    Back,
    Forward,
    Other(u16),
}

/// How far a wheel turned, as the bit patterns of the two distances.
#[derive(Clone, Copy, Debug, PartialEq, Eq, Structural)]
pub enum ScrollDelta {
    Lines { x: u32, y: u32 },
    Pixels { x: u32, y: u32 },
}

/// A mouse event.
#[derive(Clone, Copy, Debug, PartialEq, Eq, Structural)]
pub enum MouseEvent {
    CursorEntered,
    CursorLeft,
    CursorMoved { position: Point },
    ButtonPressed(Button),
    ButtonReleased(Button),
    WheelScrolled { delta: ScrollDelta },
}

/// A touch event.
#[derive(Clone, Copy, Debug, PartialEq, Eq, Structural)]
pub enum TouchEvent {
    FingerPressed { id: u64, position: Point },
    FingerMoved { id: u64, position: Point },
    FingerLifted { id: u64, position: Point },
    FingerLost { id: u64, position: Point },
}

/// The modifier keys that are held. `command` is the platform's shortcut
/// modifier: the logo key on macOS, the control key elsewhere.
#[derive(Clone, Copy, Debug, PartialEq, Eq, Structural)]
pub struct Modifiers {
    pub shift: bool,
    pub control: bool,
    pub alt: bool,
    pub logo: bool,
    pub command: bool,
}

impl Modifiers {
    /// No modifier key is held.
    pub open spec fn none_held() -> Modifiers {
        Modifiers { shift: false, control: false, alt: false, logo: false, command: false }
    }

    /// No modifier key is held.
    pub fn empty() -> (modifiers: Modifiers)
        ensures
            modifiers == Modifiers::none_held(),
    {
        Modifiers { shift: false, control: false, alt: false, logo: false, command: false }
    }
}

/// Where on the keyboard a key is.
#[derive(Clone, Copy, Debug, PartialEq, Eq, Structural)]
pub enum Location {
    Standard,
    Left,
    Right,
    Numpad,
}

/// A key by its meaning. `Other` stands for every named key that no engine
/// here has a code for.
#[derive(Clone, Copy, Debug, PartialEq, Eq, Structural)]
pub enum Named {
    Enter,
    Tab,
    Space,
    Backspace,
    Delete,
    Escape,
    Insert,
    Home,
    End,
    PageUp,
    PageDown,
    ArrowUp,
    ArrowDown,
    ArrowLeft,
    ArrowRight,
    F1,
    F2,
    F3,
    F4,
    F5,
    F6,
    F7,
    F8,
    F9,
    F10,
    F11,
    F12,
    Shift,
    Control,
    Alt,
    Super,
    CapsLock,
    NumLock,
    ScrollLock,
    Pause,
    PrintScreen,
    ContextMenu,
    Other,
}

/// A key by its place on the keyboard, whatever the layout makes of it.
#[derive(Clone, Copy, Debug, PartialEq, Eq, Structural)]
pub enum Code {
    Escape,
    Digit1,
    Digit2,
    Digit3,
    Digit4,
    Digit5,
    Digit6,
    Digit7,
    Digit8,
    Digit9,
    Digit0,
    Minus,
    Equal,
    Backspace,
    Tab,
    KeyQ,
    KeyW,
    KeyE,
    KeyR,
    KeyT,
    KeyY,
    KeyU,
    KeyI,
    KeyO,
    KeyP,
    BracketLeft,
    BracketRight,
    Enter,
    ControlLeft,
    KeyA,
    KeyS,
    KeyD,
    KeyF,
    KeyG,
    KeyH,
    KeyJ,
    KeyK,
    KeyL,
    Semicolon,
    Quote,
    Backquote,
    ShiftLeft,
    Backslash,
    KeyZ,
    KeyX,
    KeyC,
    KeyV,
    KeyB,
    KeyN,
    KeyM,
    Comma,
    Period,
    Slash,
    ShiftRight,
    NumpadMultiply,
    AltLeft,
    Space,
    CapsLock,
    F1,
    F2,
    F3,
    F4,
    F5,
    F6,
    F7,
    F8,
    F9,
    F10,
    NumLock,
    ScrollLock,
    Numpad7,
    Numpad8,
    Numpad9,
    NumpadSubtract,
    Numpad4,
    Numpad5,
    Numpad6,
    NumpadAdd,
    Numpad1,
    Numpad2,
    Numpad3,
    Numpad0,
    NumpadDecimal,
    F11,
    F12,
    NumpadEnter,
    ControlRight,
    NumpadDivide,
    AltRight,
    Home,
    ArrowUp,
    PageUp,
    ArrowLeft,
    ArrowRight,
    End,
    ArrowDown,
    PageDown,
    Insert,
    Delete,
    SuperLeft,
    SuperRight,
    ContextMenu,
    Other,
}

/// The physical key behind an event, where the platform names it.
#[derive(Clone, Copy, Debug, PartialEq, Eq, Structural)]
pub enum Physical {
    Code(Code),
    Unidentified,
}

/// A key as the layout reports it.
#[derive(Debug, PartialEq)]
pub enum Key {
    Named(Named),
    Character(String),
    Unidentified,
}

/// A keyboard event.
#[derive(Debug, PartialEq)]
pub enum KeyboardEvent {
    KeyPressed {
        key: Key,
        physical_key: Physical,
        location: Location,
        modifiers: Modifiers,
        text: Option<String>,
        repeat: bool,
    },
    KeyReleased { key: Key, physical_key: Physical, location: Location, modifiers: Modifiers },
    ModifiersChanged(Modifiers),
}

/// An event of the window the view is in.
#[derive(Debug)]
pub enum Event {
    Keyboard(KeyboardEvent),
    Mouse(MouseEvent),
    Touch(TouchEvent),
    Other,
}

/// The shape of the mouse pointer. `Unset` leaves the choice to what is behind.
#[derive(Clone, Copy, Debug, PartialEq, Eq, Structural)]
pub enum Interaction {
    Unset,
    Idle,
    Pointer,
    Text,
    Crosshair,
    Grab,
    Grabbing,
    NotAllowed,
    ResizingHorizontally,
    ResizingVertically,
    ZoomIn,
    ZoomOut,
}

impl Key {
    /// Whether this is the given named key.
    pub open spec fn is_named(&self, named: Named) -> bool {
        *self == Key::Named(named)
    }

    /// Whether this is the letter `c`.
    pub open spec fn is_letter_c(&self) -> bool {
        self matches Key::Character(s) && s@ == "c"@
    }
}

impl Clone for Key {
    fn clone(&self) -> (copy: Key)
        ensures
            copy == *self,
    {
        match self {
            Key::Named(named) => Key::Named(*named),
            Key::Character(text) => Key::Character(text.clone()),
            Key::Unidentified => Key::Unidentified,
        }
    }
}

impl Clone for KeyboardEvent {
    fn clone(&self) -> (copy: KeyboardEvent)
        ensures
            copy == *self,
    {
        match self {
            KeyboardEvent::KeyPressed { key, physical_key, location, modifiers, text, repeat } => {
                KeyboardEvent::KeyPressed {
                    key: key.clone(),
                    physical_key: *physical_key,
                    location: *location,
                    modifiers: *modifiers,
                    text: match text {
                        Some(t) => Some(t.clone()),
                        None => None,
                    },
                    repeat: *repeat,
                }
            },
            KeyboardEvent::KeyReleased { key, physical_key, location, modifiers } => {
                KeyboardEvent::KeyReleased {
                    key: key.clone(),
                    physical_key: *physical_key,
                    location: *location,
                    modifiers: *modifiers,
                }
            },
            KeyboardEvent::ModifiersChanged(modifiers) => {
                KeyboardEvent::ModifiersChanged(*modifiers)
            },
        }
    }
}

impl KeyboardEvent {
    /// Whether this is a press of the shortcut that copies the selection.
    pub open spec fn is_copy_shortcut(&self) -> bool {
        self matches KeyboardEvent::KeyPressed { key, modifiers, .. } && modifiers.command
            && key.is_letter_c()
    }

    /// Whether this is a press or a release of the Tab key.
    pub open spec fn is_tab(&self) -> bool {
        match self {
            KeyboardEvent::KeyPressed { key, .. } => key.is_named(Named::Tab),
            KeyboardEvent::KeyReleased { key, .. } => key.is_named(Named::Tab),
            KeyboardEvent::ModifiersChanged(_) => false,
        }
    }

    /// The modifier keys that are held after the event.
    pub open spec fn held_modifiers(&self) -> Modifiers {
        match self {
            KeyboardEvent::KeyPressed { modifiers, .. } => *modifiers,
            KeyboardEvent::KeyReleased { modifiers, .. } => *modifiers,
            KeyboardEvent::ModifiersChanged(modifiers) => *modifiers,
        }
    }

    /// Whether this is a press of the shortcut that copies the selection.
    pub fn copies_selection(&self) -> (copies: bool)
        ensures
            copies == self.is_copy_shortcut(),
    {
        match self {
            KeyboardEvent::KeyPressed { key: Key::Character(s), modifiers, .. } => {
                modifiers.command && crate::text::str_eq(s.as_str(), "c")
            },
            _ => false,
        }
    }

    /// Whether this is a press or a release of the Tab key.
    pub fn moves_focus(&self) -> (tab: bool)
        ensures
            tab == self.is_tab(),
    {
        match self {
            KeyboardEvent::KeyPressed { key: Key::Named(Named::Tab), .. } => true,
            KeyboardEvent::KeyReleased { key: Key::Named(Named::Tab), .. } => true,
            _ => false,
        }
    }

    /// The modifier keys that are held after the event.
    pub fn modifiers(&self) -> (held: Modifiers)
        ensures
            held == self.held_modifiers(),
    {
        match self {
            KeyboardEvent::KeyPressed { modifiers, .. } => *modifiers,
            KeyboardEvent::KeyReleased { modifiers, .. } => *modifiers,
            KeyboardEvent::ModifiersChanged(modifiers) => *modifiers,
        }
    }
}

/// A size that has any pixel is kept, and one that has none each way is given
/// one there.
pub proof fn law_visible_size_has_a_pixel(size: Size)
    ensures
        size.visible().width >= 1,
        size.visible().height >= 1,
        size.width >= 1 ==> size.visible().width == size.width,
        size.height >= 1 ==> size.visible().height == size.height,
        size.width == 0 ==> size.visible().width == 1,
        size.height == 0 ==> size.visible().height == 1,
{
}

/// Where no modifier key is held, none of the five is; the corner is where both
/// coordinates are zero.
pub proof fn law_nothing_held_and_corner()
    ensures
        !Modifiers::none_held().shift,
        !Modifiers::none_held().control,
        !Modifiers::none_held().alt,
        !Modifiers::none_held().logo,
        !Modifiers::none_held().command,
        Point::at_origin().x == 0,
        Point::at_origin().y == 0,
{
}

/// The selection is copied by pressing the letter c with the platform's
/// shortcut modifier held, whatever else is held, and by nothing else.
pub proof fn law_command_c_copies(
    letter: String,
    named: Named,
    physical_key: Physical,
    location: Location,
    modifiers: Modifiers,
    text: Option<String>,
    repeat: bool,
)
    ensures
        (KeyboardEvent::KeyPressed {
            key: Key::Character(letter),
            physical_key,
            location,
            modifiers,
            text,
            repeat,
        }).is_copy_shortcut() <==> modifiers.command && letter@ == seq!['c'],
        !(KeyboardEvent::KeyPressed {
            key: Key::Named(named),
            physical_key,
            location,
            modifiers,
            text,
            repeat,
        }).is_copy_shortcut(),
        !(KeyboardEvent::KeyPressed {
            key: Key::Unidentified,
            physical_key,
            location,
            modifiers,
            text,
            repeat,
        }).is_copy_shortcut(),
        !(KeyboardEvent::KeyReleased {
            key: Key::Character(letter),
            physical_key,
            location,
            modifiers,
        }).is_copy_shortcut(),
        !KeyboardEvent::ModifiersChanged(modifiers).is_copy_shortcut(),
{
    reveal_strlit("c");
    assert("c"@ =~= seq!['c']);
}

/// Tab is Tab going down and Tab going up, whatever is held, and no other key.
pub proof fn law_tab_is_tab(
    named: Named,
    letter: String,
    physical_key: Physical,
    location: Location,
    modifiers: Modifiers,
    text: Option<String>,
    repeat: bool,
)
    ensures
        (KeyboardEvent::KeyPressed {
            key: Key::Named(named),
            physical_key,
            location,
            modifiers,
            text,
            repeat,
        }).is_tab() <==> named == Named::Tab,
        (KeyboardEvent::KeyReleased {
            key: Key::Named(named),
            physical_key,
            location,
            modifiers,
        }).is_tab() <==> named == Named::Tab,
        !(KeyboardEvent::KeyPressed {
            key: Key::Character(letter),
            physical_key,
            location,
            modifiers,
            text,
            repeat,
        }).is_tab(),
        !(KeyboardEvent::KeyReleased {
            key: Key::Character(letter),
            physical_key,
            location,
            modifiers,
        }).is_tab(),
        !KeyboardEvent::ModifiersChanged(modifiers).is_tab(),
{
}

/// Every keyboard event carries the modifiers that are held after it.
pub proof fn law_event_carries_its_modifiers(
    key: Key,
    physical_key: Physical,
    location: Location,
    modifiers: Modifiers,
    text: Option<String>,
    repeat: bool,
)
    ensures
        (KeyboardEvent::KeyPressed {
            key,
            physical_key,
            location,
            modifiers,
            text,
            repeat,
        }).held_modifiers() == modifiers,
        (KeyboardEvent::KeyReleased {
            key,
            physical_key,
            location,
            modifiers,
        }).held_modifiers() == modifiers,
        KeyboardEvent::ModifiersChanged(modifiers).held_modifiers() == modifiers,
{
}

} // verus!
