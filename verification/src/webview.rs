//! The widgets that show a view and feed it input.

use vstd::prelude::*;

use crate::input::{Button, MouseEvent, TouchEvent};

pub mod basic;
pub mod focus;
pub mod shader_widget;

verus! {

/// Whether a touch event ends the finger's contact, by a lift or a cancel.
pub open spec fn ends_contact(event: TouchEvent) -> bool {
    event is FingerLifted || event is FingerLost
}

/// The mouse event that stands for a touch event.
pub open spec fn as_mouse(event: TouchEvent) -> MouseEvent {
    match event {
        TouchEvent::FingerPressed { .. } => MouseEvent::ButtonPressed(Button::Left),
        TouchEvent::FingerMoved { position, .. } => MouseEvent::CursorMoved { position },
        _ => MouseEvent::ButtonReleased(Button::Left),
    }
}

/// Translate a touch event into the equivalent mouse event, so that a touch
/// screen can drive an engine that only understands mouse input.
///
/// A finger press or lift is a left button press or release, a finger move is
/// a cursor move. A lost finger is treated as a release so that the engine
/// ends any drag.
pub fn touch_to_mouse(event: &TouchEvent) -> (mouse: MouseEvent)
    ensures
        mouse == as_mouse(*event),
{
    match event {
        TouchEvent::FingerPressed { .. } => MouseEvent::ButtonPressed(Button::Left),
        TouchEvent::FingerMoved { position, .. } => MouseEvent::CursorMoved { position: *position },
        TouchEvent::FingerLifted { .. } => MouseEvent::ButtonReleased(Button::Left),
        TouchEvent::FingerLost { .. } => MouseEvent::ButtonReleased(Button::Left),
    }
}

/// Whether a touch event ends the finger's contact.
pub fn is_touch_release(event: &TouchEvent) -> (released: bool)
    ensures
        released == ends_contact(*event),
{
    match event {
        TouchEvent::FingerLifted { .. } => true,
        TouchEvent::FingerLost { .. } => true,
        _ => false,
    }
}

/// A touch event ends contact exactly when the engine sees the button go up.
pub proof fn law_touch_release_is_button_release(event: TouchEvent)
    ensures
        ends_contact(event) <==> as_mouse(event) is ButtonReleased,
{
}

/// A finger going down is a press of the left button, one going up or getting
/// lost its release, and one that moves a move to where it is.
pub proof fn law_finger_is_left_button(id: u64, position: crate::input::Point)
    ensures
        as_mouse(TouchEvent::FingerPressed { id, position }) == MouseEvent::ButtonPressed(
            Button::Left,
        ),
        as_mouse(TouchEvent::FingerMoved { id, position }) == (MouseEvent::CursorMoved {
            position,
        }),
        as_mouse(TouchEvent::FingerLifted { id, position }) == MouseEvent::ButtonReleased(
            Button::Left,
        ),
        as_mouse(TouchEvent::FingerLost { id, position }) == MouseEvent::ButtonReleased(
            Button::Left,
        ),
        !ends_contact(TouchEvent::FingerPressed { id, position }),
        !ends_contact(TouchEvent::FingerMoved { id, position }),
        ends_contact(TouchEvent::FingerLifted { id, position }),
        ends_contact(TouchEvent::FingerLost { id, position }),
{
}

} // verus!
