//! The Blitz and Servo engines, and lists of views.

use std::sync::Arc;

use iced_webview::engines::blitz::{
    cursor_icon_to_interaction, Blitz, CursorIcon, DocumentMouse, RESOURCE_TICK_BUDGET,
};
use iced_webview::engines::servo::{
    cursor_to_interaction, iced_button_to_servo, iced_key_to_keyboard_types,
    iced_keyboard_to_servo, initial_page, load_address, page_to_load, Cursor, DelegateState,
    Servo, ServoKey, ServoMouse, ServoMouseButton,
};
use iced_webview::engines::views::ViewList;
use iced_webview::engines::{FrameImage, PageType, PixelFormat};
use iced_webview::input::{
    Button, Interaction, Key, KeyboardEvent, Location, Modifiers, MouseEvent, Named, Physical,
    Point, ScrollDelta, Size,
};
use iced_webview::util::parse_url;

const SIZE: Size = Size {
    width: 4,
    height: 3,
};
const EMPTY: Size = Size {
    width: 0,
    height: 3,
};

#[test]
fn views_are_found_by_id() {
    let mut list: ViewList<&str> = ViewList::new();
    list.push(1, "a");
    list.push(2, "b");
    list.push(3, "c");
    assert_eq!(list.len(), 3);
    assert!(list.has(2) && !list.has(4));
    assert_eq!(list.get(2), &"b");
    *list.get_mut(2) = "x";
    assert_eq!(list.get(2), &"x");
    assert_eq!(list.get(1), &"a");
    *list.at_mut(0) = "y";
    assert_eq!(list.get(1), &"y");
    assert_eq!(list.last(), Some(&"c"));
    list.remove(1);
    assert_eq!(list.ids(), vec![2, 3]);
    list.remove(9);
    assert_eq!(list.len(), 2);
    assert!(!list.has(1));
}

/// What a document was made of.
type Doc = (String, String, Size, u32);

fn make(html: &str, base: &str, size: Size, scale: u32) -> Doc {
    (html.to_owned(), base.to_owned(), size, scale)
}

#[test]
fn blitz_pointers_have_counterparts() {
    for (icon, interaction) in [
        (CursorIcon::Pointer, Interaction::Pointer),
        (CursorIcon::NoDrop, Interaction::NotAllowed),
        (CursorIcon::EwResize, Interaction::ResizingHorizontally),
        (CursorIcon::NsResize, Interaction::ResizingVertically),
        (CursorIcon::Wait, Interaction::Idle),
        (CursorIcon::Other, Interaction::Idle),
    ] {
        assert_eq!(cursor_icon_to_interaction(icon), interaction);
    }
}

#[test]
fn a_blitz_view_has_a_document_once_it_has_html() {
    let mut blitz: Blitz<Doc> = Blitz::default();
    assert!(!blitz.handles_urls());
    let none = blitz.new_view(EMPTY, None, make);
    let view = blitz.find_view(none);
    assert!(view.document.is_none() && !view.needs_render);
    assert_eq!(view.resource_ticks, 0);
    assert_eq!((view.size.width, view.size.height), (1, 3));
    assert!(matches!(
        view.last_frame,
        FrameImage::Blank {
            width: 1,
            height: 3
        }
    ));
    assert_eq!(blitz.get_url(none), "about:blank");

    blitz.open_view(7, SIZE, Some(PageType::Url("http://a/".to_owned())), make);
    assert!(blitz.find_view(7).document.is_none());
    assert_eq!(blitz.get_url(7), "http://a/");

    blitz.open_view(8, SIZE, Some(PageType::Html("<p>".to_owned())), make);
    let view = blitz.find_view(8);
    assert_eq!(
        view.document,
        Some(("<p>".to_owned(), String::new(), SIZE, 1.0f32.to_bits()))
    );
    assert!(view.needs_render);
    assert_eq!(view.resource_ticks, RESOURCE_TICK_BUDGET);
    assert_eq!(blitz.view_ids(), vec![none, 7, 8]);
    blitz.remove_view(7);
    assert!(!blitz.has_view(7));
    assert_eq!(blitz.len(), 2);
}

#[test]
fn html_is_relative_to_the_address() {
    let mut blitz: Blitz<Doc> = Blitz::default();
    blitz.open_view(1, SIZE, None, make);
    assert!(!blitz.goto(1, PageType::Url("http://a/".to_owned()), make));
    assert!(blitz.find_view(1).document.is_none());
    assert!(blitz.goto(1, PageType::Html("<p>".to_owned()), make));
    let view = blitz.find_view(1);
    assert_eq!(view.document.as_ref().unwrap().1, "http://a/");
    assert!(view.needs_render);
    assert_eq!(view.resource_ticks, RESOURCE_TICK_BUDGET);
}

#[test]
fn resources_are_looked_for_within_a_budget() {
    let mut blitz: Blitz<Doc> = Blitz::default();
    blitz.open_view(1, SIZE, Some(PageType::Html("<p>".to_owned())), make);
    blitz.open_view(2, SIZE, None, make);
    let polls = (0..RESOURCE_TICK_BUDGET + 10)
        .filter(|_| blitz.tick(0))
        .count();
    assert_eq!(polls, RESOURCE_TICK_BUDGET as usize);
    assert!(!blitz.tick(1));
}

#[test]
fn a_document_is_painted_when_there_is_a_reason() {
    let mut blitz: Blitz<Doc> = Blitz::default();
    blitz.open_view(1, SIZE, Some(PageType::Html("<p>".to_owned())), make);
    assert!(blitz.request_render(1));
    let image = FrameImage::Pixels {
        pixels: Arc::new(vec![1; 48]),
        format: PixelFormat::Rgba,
        width: 4,
        height: 3,
    };
    blitz.painted(1, Some(image));
    assert!(!blitz.request_render(1));
    assert!(matches!(
        blitz.find_view(1).last_frame,
        FrameImage::Pixels { width: 4, .. }
    ));
    blitz.resolved(0, false);
    assert!(!blitz.request_render(1));
    blitz.resolved(0, true);
    assert!(blitz.request_render(1));
    blitz.painted(1, None);
    assert!(matches!(
        blitz.find_view(1).last_frame,
        FrameImage::Blank {
            width: 4,
            height: 3
        }
    ));
    blitz.refresh(1);
    assert!(blitz.request_render(1));
    blitz.painted(1, None);
    blitz.resize(EMPTY);
    assert!(!blitz.request_render(1));
    assert!(blitz.find_view(1).needs_render);
    blitz.resize(SIZE);
    blitz.painted(1, None);
    assert!(!blitz.set_scale_factor(5, true));
    assert!(!blitz.request_render(1));
    assert!(blitz.set_scale_factor(5, false));
    assert_eq!(blitz.find_view(1).scale, 5);
    assert_eq!(blitz.scale_factor(), 5);
    assert!(blitz.request_render(1));
}

#[test]
fn a_view_without_a_document_is_blank() {
    let mut blitz: Blitz<Doc> = Blitz::default();
    blitz.open_view(1, SIZE, None, make);
    blitz.resize(Size {
        width: 9,
        height: 9,
    });
    assert!(!blitz.request_render(1));
    assert!(matches!(
        blitz.find_view(1).last_frame,
        FrameImage::Blank {
            width: 9,
            height: 9
        }
    ));
    assert!(!blitz.find_view(1).needs_render);
}

#[test]
fn blitz_hears_of_the_left_button() {
    let mut blitz: Blitz<Doc> = Blitz::default();
    blitz.open_view(1, SIZE, None, make);
    let delta = ScrollDelta::Lines { x: 0, y: 1 };
    let position = Point { x: 0, y: 0 };
    for (event, task) in [
        (
            MouseEvent::WheelScrolled { delta },
            DocumentMouse::Scroll(delta),
        ),
        (
            MouseEvent::ButtonPressed(Button::Left),
            DocumentMouse::PointerDown,
        ),
        (
            MouseEvent::ButtonPressed(Button::Right),
            DocumentMouse::Nothing,
        ),
        (
            MouseEvent::ButtonReleased(Button::Left),
            DocumentMouse::PointerUp,
        ),
        (
            MouseEvent::ButtonReleased(Button::Middle),
            DocumentMouse::Nothing,
        ),
        (MouseEvent::CursorMoved { position }, DocumentMouse::Hover),
        (MouseEvent::CursorEntered, DocumentMouse::Nothing),
        (MouseEvent::CursorLeft, DocumentMouse::Nothing),
    ] {
        assert_eq!(blitz.handle_mouse_event(1, event), task);
    }
    blitz.set_cursor(1, None, CursorIcon::Text);
    assert_eq!(blitz.find_view(1).cursor, Interaction::Text);
    blitz.set_cursor(1, Some(CursorIcon::Grab), CursorIcon::Text);
    assert_eq!(blitz.find_view(1).cursor, Interaction::Grab);
    blitz.handle_mouse_event(1, MouseEvent::CursorLeft);
    assert_eq!(blitz.find_view(1).cursor, Interaction::Idle);
    blitz.find_view_mut(1).title = "T".to_owned();
    assert_eq!(blitz.view_at_mut(0).title, "T");
}

#[test]
fn servo_pointers_have_counterparts() {
    for (cursor, interaction) in [
        (Cursor::Default, Interaction::Idle),
        (Cursor::VerticalText, Interaction::Text),
        (Cursor::Cell, Interaction::Crosshair),
        (Cursor::AllScroll, Interaction::Grab),
        (Cursor::WResize, Interaction::ResizingHorizontally),
        (Cursor::SResize, Interaction::ResizingVertically),
        (Cursor::Other, Interaction::Idle),
    ] {
        assert_eq!(cursor_to_interaction(cursor), interaction);
    }
}

#[test]
fn servo_names_buttons_and_keys() {
    assert_eq!(
        iced_button_to_servo(Button::Back),
        Some(ServoMouseButton::Back)
    );
    assert_eq!(
        iced_button_to_servo(Button::Other(3)),
        Some(ServoMouseButton::Other(3))
    );
    assert!(matches!(
        iced_key_to_keyboard_types(&Key::Named(Named::Space)),
        Some(ServoKey::Character(s)) if s == " "
    ));
    assert!(matches!(
        iced_key_to_keyboard_types(&Key::Named(Named::PrintScreen)),
        Some(ServoKey::Named(Named::PrintScreen))
    ));
    assert!(matches!(
        iced_key_to_keyboard_types(&Key::Character("é".to_owned())),
        Some(ServoKey::Character(s)) if s == "é"
    ));
    for named in [
        Named::Shift,
        Named::Control,
        Named::Alt,
        Named::Super,
        Named::Other,
    ] {
        assert!(iced_key_to_keyboard_types(&Key::Named(named)).is_none());
    }
    assert!(iced_key_to_keyboard_types(&Key::Unidentified).is_none());
}

#[test]
fn servo_key_events_carry_modifiers() {
    let modifiers = Modifiers {
        shift: true,
        logo: true,
        ..Modifiers::empty()
    };
    let event = iced_keyboard_to_servo(&KeyboardEvent::KeyReleased {
        key: Key::Named(Named::F1),
        physical_key: Physical::Unidentified,
        location: Location::Standard,
        modifiers,
    })
    .unwrap();
    assert!(!event.down && event.shift && !event.control && !event.alt && event.meta);
    assert!(matches!(event.key, ServoKey::Named(Named::F1)));
    assert!(iced_keyboard_to_servo(&KeyboardEvent::ModifiersChanged(modifiers)).is_none());
}

#[test]
fn servo_loads_what_can_be_parsed() {
    let page = |t: &str| PageType::Url(t.to_owned());
    assert_eq!(
        page_to_load(&page("http://a")).as_deref(),
        Some("http://a/")
    );
    assert_eq!(page_to_load(&page("no url")), None);
    assert_eq!(
        page_to_load(&PageType::Html("<p>".to_owned())).as_deref(),
        Some("data:text/html;charset=utf-8,%3Cp%3E")
    );
    assert_eq!(
        initial_page(&Some(page("http://a"))),
        (Some("http://a/".to_owned()), "http://a".to_owned())
    );
    assert_eq!(
        initial_page(&Some(page("no url"))),
        (None, "no url".to_owned())
    );
    assert_eq!(initial_page(&None), (None, String::new()));
    assert_eq!(
        load_address(parse_url("http://a")).as_deref(),
        Some("http://a/")
    );
    assert_eq!(load_address(parse_url("a")), None);
}

#[test]
fn a_servo_view_goes_where_it_can() {
    let mut servo: Servo<u8> = Servo::default();
    assert!(servo.handles_urls());
    servo.open_view(7, 1, String::new(), SIZE);
    assert_eq!(servo.view_ids(), vec![7]);
    assert_eq!(servo.find_view(7).size, SIZE);
    servo.remove_view(7);
    let id = servo.new_view(1, String::new(), SIZE);
    assert_eq!(servo.get_url(id, None), "about:blank");
    assert_eq!(servo.goto(id, PageType::Url("no url".to_owned())), None);
    assert_eq!(servo.get_url(id, None), "about:blank");
    assert_eq!(
        servo
            .goto(id, PageType::Url("http://a".to_owned()))
            .as_deref(),
        Some("http://a/")
    );
    assert_eq!(servo.get_url(id, None), "http://a");
    assert_eq!(servo.get_url(id, Some("http://b/".to_owned())), "http://b/");
    assert!(servo
        .goto(id, PageType::Html("<p>".to_owned()))
        .unwrap()
        .starts_with("data:"));
    assert_eq!(servo.get_url(id, None), "http://a");
    assert_eq!(
        servo.go_to(id, PageType::Url("x".to_owned()), Some("y".to_owned())),
        Some("y".to_owned())
    );
    assert_eq!(servo.get_url(id, None), "x");
}

#[test]
fn servo_reports_are_taken_once() {
    let mut servo: Servo<u8> = Servo::default();
    let id = servo.new_view(1, "http://a".to_owned(), SIZE);
    servo.captured(id, None);
    let delegate: &mut DelegateState = &mut servo.find_view_mut(id).delegate;
    delegate.notify_url_changed("http://b/".to_owned());
    delegate.notify_page_title_changed(Some("B".to_owned()));
    delegate.notify_cursor_changed(Cursor::Text);
    delegate.notify_new_frame_ready();
    servo.update();
    assert_eq!(servo.get_url(id, None), "http://b/");
    assert_eq!(servo.get_title(id, None), "B");
    assert_eq!(servo.get_title(id, Some("C".to_owned())), "C");
    assert_eq!(servo.find_view(id).cursor, Interaction::Text);
    assert!(servo.find_view(id).needs_render);
    servo.captured(id, None);
    servo.update();
    assert!(!servo.find_view(id).needs_render);
    assert_eq!(servo.get_title(id, None), "B");
    let delegate = &mut servo.find_view_mut(id).delegate;
    delegate.notify_page_title_changed(Some("D".to_owned()));
    delegate.notify_page_title_changed(None);
    servo.update();
    assert_eq!(servo.get_title(id, None), "B");
}

#[test]
fn servo_frames_are_captured_when_there_is_a_reason() {
    let mut servo: Servo<u8> = Servo::default();
    let id = servo.new_view(1, String::new(), EMPTY);
    assert_eq!(
        servo.request_render(id),
        Some(Size {
            width: 1,
            height: 3
        })
    );
    servo.captured(id, Some(Arc::new(vec![1; 12])));
    assert!(matches!(
        &servo.find_view(id).last_frame,
        FrameImage::Pixels { format: PixelFormat::Rgba, width: 1, height: 3, pixels } if pixels.len() == 12
    ));
    assert_eq!(servo.request_render(id), None);
    assert_eq!(
        servo.resize(EMPTY),
        Size {
            width: 1,
            height: 3
        }
    );
    assert_eq!(servo.request_render(id), None);
    assert_eq!(servo.resize(SIZE), SIZE);
    assert_eq!(servo.request_render(id), Some(SIZE));
    servo.captured(id, None);
    assert!(matches!(
        servo.find_view(id).last_frame,
        FrameImage::Pixels { width: 1, .. }
    ));
    assert!(!servo.set_scale_factor(3, true));
    assert_eq!(servo.request_render(id), None);
    assert!(servo.set_scale_factor(3, false));
    assert_eq!(servo.scale_factor(), 3);
    assert_eq!(servo.request_render(id), Some(SIZE));
}

#[test]
fn servo_hears_of_the_mouse() {
    let mut servo: Servo<u8> = Servo::default();
    let id = servo.new_view(9, String::new(), SIZE);
    let point = Point { x: 1, y: 2 };
    let delta = ScrollDelta::Pixels { x: 1, y: 2 };
    for (event, sent) in [
        (
            MouseEvent::ButtonPressed(Button::Forward),
            ServoMouse::ButtonDown(ServoMouseButton::Forward),
        ),
        (
            MouseEvent::ButtonReleased(Button::Left),
            ServoMouse::ButtonUp(ServoMouseButton::Left),
        ),
        (
            MouseEvent::CursorMoved { position: point },
            ServoMouse::Move,
        ),
        (
            MouseEvent::WheelScrolled { delta },
            ServoMouse::Wheel(delta),
        ),
        (MouseEvent::CursorLeft, ServoMouse::Nothing),
    ] {
        assert_eq!(servo.handle_mouse_event(id, point, event), sent);
        assert_eq!(servo.find_view(id).last_cursor, Some(point));
    }
    assert_eq!(servo.focus_target(), Some(&9));
    assert_eq!(servo.view_ids(), vec![id]);
    servo.remove_view(id);
    assert!(!servo.has_view(id));
    assert_eq!(servo.len(), 0);
    assert_eq!(servo.focus_target(), None);
}
