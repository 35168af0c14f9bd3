//! Who has the keyboard.

use iced_webview::input::{
    Button, Event, Key, KeyboardEvent, Location, Modifiers, MouseEvent, Named, Physical, Point,
    TouchEvent,
};
use iced_webview::webview::basic::Action;
use iced_webview::webview::focus::FrameState;

/// A window with the frame on its left half and something else on its right.
struct Scene {
    frame: FrameState,
    messages: Vec<Action>,
}

const ON_PAGE: (u32, u32) = (200, 300);
const OFF_PAGE: (u32, u32) = (600, 300);

impl Scene {
    fn new() -> Scene {
        Scene {
            frame: FrameState::default(),
            messages: Vec::new(),
        }
    }

    fn simulate(&mut self, event: Event, at: (u32, u32)) -> bool {
        let response = self.frame.update(&event, at.0 < 400);
        self.messages.extend(response.published);
        response.captured
    }

    fn press_at(&mut self, at: (u32, u32)) {
        self.simulate(Event::Mouse(MouseEvent::ButtonPressed(Button::Left)), at);
        self.simulate(Event::Mouse(MouseEvent::ButtonReleased(Button::Left)), at);
    }

    fn tap_key(&mut self, named: Named) {
        self.simulate(Event::Keyboard(pressed(Key::Named(named), none())), OFF_PAGE);
        self.simulate(Event::Keyboard(released(Key::Named(named))), OFF_PAGE);
    }
}

fn none() -> Modifiers {
    Modifiers::empty()
}

fn pressed(key: Key, modifiers: Modifiers) -> KeyboardEvent {
    KeyboardEvent::KeyPressed {
        key,
        physical_key: Physical::Unidentified,
        location: Location::Standard,
        modifiers,
        text: None,
        repeat: false,
    }
}

fn released(key: Key) -> KeyboardEvent {
    KeyboardEvent::KeyReleased {
        key,
        physical_key: Physical::Unidentified,
        location: Location::Standard,
        modifiers: none(),
    }
}

fn forwarded(messages: &[Action]) -> usize {
    messages
        .iter()
        .filter(|m| matches!(m, Action::SendKeyboardEvent(_)))
        .count()
}

#[test]
fn a_press_on_the_page_gives_it_the_keyboard_and_tab_moves_on() {
    let mut ui = Scene::new();
    ui.press_at(ON_PAGE);
    ui.tap_key(Named::ArrowDown);
    ui.tap_key(Named::Tab);

    let messages = ui.messages;
    assert!(
        matches!(messages.first(), Some(Action::Focus)),
        "the engine was not told the page has the keyboard: {messages:?}"
    );
    // ArrowDown pressed and released; Tab neither.
    assert_eq!(forwarded(&messages), 2, "{messages:?}");
}

#[test]
fn focus_from_the_keyboard_is_the_same_focus() {
    let mut ui = Scene::new();
    ui.frame.focus();
    ui.tap_key(Named::PageDown);

    let messages = ui.messages;
    assert!(messages.iter().any(|m| matches!(m, Action::Focus)), "{messages:?}");
    assert_eq!(forwarded(&messages), 2, "{messages:?}");
}

#[test]
fn a_press_elsewhere_takes_the_keyboard_back() {
    let mut ui = Scene::new();
    ui.press_at(ON_PAGE);
    ui.press_at(OFF_PAGE);
    ui.tap_key(Named::ArrowDown);

    let messages = ui.messages;
    assert!(messages.iter().any(|m| matches!(m, Action::Unfocus)), "{messages:?}");
    assert_eq!(forwarded(&messages), 0, "keys went to a page that lost focus: {messages:?}");
}

#[test]
fn a_tap_takes_the_keyboard_too() {
    let mut ui = Scene::new();
    let tap = |at: (u32, u32)| {
        Event::Touch(TouchEvent::FingerPressed {
            id: 1,
            position: Point { x: at.0, y: at.1 },
        })
    };
    ui.simulate(tap(ON_PAGE), ON_PAGE);
    assert!(ui.frame.is_focused());
    ui.simulate(tap(OFF_PAGE), OFF_PAGE);
    assert!(!ui.frame.is_focused());
    assert!(matches!(ui.messages[..], [Action::Focus, Action::Unfocus]));
}

#[test]
fn each_change_of_focus_is_told_once() {
    let mut ui = Scene::new();
    ui.press_at(ON_PAGE);
    ui.press_at(ON_PAGE);
    ui.simulate(Event::Other, ON_PAGE);
    assert!(matches!(ui.messages[..], [Action::Focus]));
    ui.frame.unfocus();
    ui.simulate(Event::Other, ON_PAGE);
    ui.simulate(Event::Other, ON_PAGE);
    assert!(matches!(ui.messages[..], [Action::Focus, Action::Unfocus]));
}

#[test]
fn the_copy_shortcut_copies() {
    let mut ui = Scene::new();
    ui.press_at(ON_PAGE);
    let command = Modifiers {
        control: true,
        command: true,
        ..none()
    };
    let captured = ui.simulate(
        Event::Keyboard(pressed(Key::Character("c".to_owned()), command)),
        OFF_PAGE,
    );
    assert!(captured);
    assert!(matches!(
        ui.messages[..],
        [Action::Focus, Action::CopySelection]
    ));
}

#[test]
fn tab_is_not_captured_and_other_keys_are() {
    let mut ui = Scene::new();
    ui.press_at(ON_PAGE);
    let tab = pressed(Key::Named(Named::Tab), none());
    assert!(!ui.simulate(Event::Keyboard(tab), OFF_PAGE));
    let enter = pressed(Key::Named(Named::Enter), none());
    assert!(ui.simulate(Event::Keyboard(enter), OFF_PAGE));
    assert!(ui.simulate(
        Event::Keyboard(KeyboardEvent::ModifiersChanged(none())),
        OFF_PAGE
    ));
}

#[test]
fn the_ring_shows_focus_where_the_host_shows_rings() {
    let mut frame = FrameState::default();
    assert!(!frame.draws_ring(Some(true)));
    frame.focus();
    assert!(frame.draws_ring(Some(true)));
    assert!(!frame.draws_ring(Some(false)));
    assert!(!frame.draws_ring(None));
}
