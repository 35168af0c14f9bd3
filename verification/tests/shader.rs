//! The widget that shows a view as a texture.

use std::sync::Arc;

use iced_webview::engines::{ImageInfo, PixelFormat, TextureFormat};
use iced_webview::input::{
    Button, Event, Interaction, Key, KeyboardEvent, Location, Modifiers, MouseEvent, Named,
    Physical, Point, Size, TouchEvent,
};
use iced_webview::webview::basic::Action;
use iced_webview::webview::shader_widget::{
    to_wgpu_format, PrepareStep, ShaderState, SurfaceFrame, WebViewPipeline, WebViewPrimitive,
    WebViewShaderProgram,
};

const SIZE: Size = Size {
    width: 10,
    height: 10,
};
const INSIDE: Option<Point> = Some(Point { x: 5, y: 5 });
const EDGE: Option<Point> = Some(Point { x: 10, y: 7 });
const LEFT_DOWN: MouseEvent = MouseEvent::ButtonPressed(Button::Left);
const LEFT_UP: MouseEvent = MouseEvent::ButtonReleased(Button::Left);
const MOVE: MouseEvent = MouseEvent::CursorMoved {
    position: Point { x: 0, y: 0 },
};

/// A widget whose size is known.
fn sized() -> ShaderState {
    let mut state = ShaderState::default();
    let asked = state.update(&Event::Other, SIZE, None, None);
    assert!(matches!(asked, Some(Action::Resize(s)) if s == SIZE));
    state
}

fn key(key: Key, modifiers: Modifiers) -> Event {
    Event::Keyboard(KeyboardEvent::KeyPressed {
        key,
        physical_key: Physical::Unidentified,
        location: Location::Standard,
        modifiers,
        text: None,
        repeat: false,
    })
}

fn sent(asked: Option<Action>) -> Option<(MouseEvent, Point)> {
    match asked {
        Some(Action::SendMouseEvent(event, point, _)) => Some((event, point)),
        _ => None,
    }
}

#[test]
fn a_changed_size_is_asked_for_first() {
    let mut state = sized();
    let other = Size {
        width: 11,
        height: 10,
    };
    assert!(matches!(
        state.update(&Event::Mouse(LEFT_DOWN), other, INSIDE, INSIDE),
        Some(Action::Resize(_))
    ));
    assert!(matches!(
        state.update(&key(Key::Named(Named::Enter), Modifiers::empty()), other, None, None),
        None
    ));
}

#[test]
fn keys_go_to_a_view_that_was_clicked() {
    let mut state = sized();
    let enter = key(Key::Named(Named::Enter), Modifiers::empty());
    assert!(state.update(&enter, SIZE, INSIDE, INSIDE).is_none());
    state.update(&Event::Mouse(LEFT_DOWN), SIZE, INSIDE, INSIDE);
    assert!(matches!(
        state.update(&enter, SIZE, None, None),
        Some(Action::SendKeyboardEvent(_))
    ));
    state.update(&Event::Mouse(LEFT_UP), SIZE, INSIDE, INSIDE);
    state.update(&Event::Mouse(LEFT_DOWN), SIZE, None, EDGE);
    assert!(state.update(&enter, SIZE, None, None).is_none());
}

#[test]
fn the_copy_shortcut_asks_for_a_copy() {
    let mut state = sized();
    state.update(&Event::Mouse(LEFT_DOWN), SIZE, INSIDE, INSIDE);
    let command = Modifiers {
        command: true,
        ..Modifiers::empty()
    };
    assert!(matches!(
        state.update(&key(Key::Character("c".to_owned()), command), SIZE, None, None),
        Some(Action::CopySelection)
    ));
}

#[test]
fn mouse_events_carry_the_modifiers_that_are_held() {
    let mut state = sized();
    let shift = Modifiers {
        shift: true,
        ..Modifiers::empty()
    };
    state.update(&key(Key::Named(Named::Shift), shift), SIZE, None, None);
    assert!(matches!(
        state.update(&Event::Mouse(MOVE), SIZE, INSIDE, INSIDE),
        Some(Action::SendMouseEvent(_, _, m)) if m == shift
    ));
}

#[test]
fn a_drag_is_followed_outside() {
    let mut state = sized();
    assert_eq!(
        sent(state.update(&Event::Mouse(MOVE), SIZE, None, EDGE)),
        None
    );
    state.update(&Event::Mouse(LEFT_DOWN), SIZE, INSIDE, INSIDE);
    assert_eq!(
        sent(state.update(&Event::Mouse(MOVE), SIZE, None, EDGE)),
        Some((MOVE, EDGE.unwrap()))
    );
    assert_eq!(
        sent(state.update(&Event::Mouse(MOVE), SIZE, None, None)),
        None
    );
    assert_eq!(
        sent(state.update(&Event::Mouse(LEFT_UP), SIZE, None, EDGE)),
        Some((LEFT_UP, EDGE.unwrap()))
    );
    assert_eq!(
        sent(state.update(&Event::Mouse(MOVE), SIZE, None, EDGE)),
        None
    );
}

#[test]
fn a_release_without_a_position_still_ends_the_drag() {
    let mut state = sized();
    state.update(&Event::Mouse(LEFT_DOWN), SIZE, INSIDE, INSIDE);
    assert_eq!(
        sent(state.update(&Event::Mouse(LEFT_UP), SIZE, None, None)),
        Some((LEFT_UP, Point { x: 0, y: 0 }))
    );
}

#[test]
fn leaving_the_window_ends_the_drag() {
    let left = Event::Mouse(MouseEvent::CursorLeft);
    let mut state = sized();
    assert_eq!(
        sent(state.update(&left, SIZE, None, None)),
        Some((MouseEvent::CursorLeft, Point { x: 0, y: 0 }))
    );
    state.update(&Event::Mouse(LEFT_DOWN), SIZE, INSIDE, INSIDE);
    assert_eq!(
        sent(state.update(&left, SIZE, None, None)),
        Some((LEFT_UP, Point { x: 0, y: 0 }))
    );
    assert_eq!(
        sent(state.update(&Event::Mouse(MOVE), SIZE, None, EDGE)),
        None
    );
}

#[test]
fn touches_drive_the_view() {
    let position = Point { x: 5, y: 5 };
    let down = Event::Touch(TouchEvent::FingerPressed { id: 1, position });
    let lost = Event::Touch(TouchEvent::FingerLost { id: 1, position });
    let moved = Event::Touch(TouchEvent::FingerMoved { id: 1, position });
    let mut state = sized();
    assert_eq!(
        sent(state.update(&down, SIZE, INSIDE, INSIDE)),
        Some((LEFT_DOWN, position))
    );
    assert_eq!(sent(state.update(&moved, SIZE, None, EDGE)), None);
    assert_eq!(
        sent(state.update(&lost, SIZE, None, EDGE)),
        Some((LEFT_UP, Point { x: 0, y: 0 }))
    );
    assert_eq!(sent(state.update(&lost, SIZE, None, EDGE)), None);
}

fn frame(width: u32, height: u32, bytes: usize) -> WebViewPrimitive {
    WebViewPrimitive {
        pixels: Arc::new(vec![0; bytes]),
        width,
        height,
        pixel_format: PixelFormat::Bgra,
        accelerated: false,
    }
}

#[test]
fn texture_formats_match_the_target() {
    assert_eq!(
        to_wgpu_format(&PixelFormat::Bgra, true),
        TextureFormat::Bgra8UnormSrgb
    );
    assert_eq!(
        to_wgpu_format(&PixelFormat::Bgra, false),
        TextureFormat::Bgra8Unorm
    );
    assert_eq!(
        to_wgpu_format(&PixelFormat::Rgba, true),
        TextureFormat::Rgba8UnormSrgb
    );
    assert_eq!(
        to_wgpu_format(&PixelFormat::Rgba, false),
        TextureFormat::Rgba8Unorm
    );
}

#[test]
fn a_frame_is_uploaded_once() {
    let mut pipeline = WebViewPipeline::new(false);
    assert_eq!(pipeline.texture_size(), (1, 1));
    assert_eq!(pipeline.texture_format(), TextureFormat::Rgba8Unorm);
    assert_eq!(
        WebViewPipeline::new(true).texture_format(),
        TextureFormat::Rgba8UnormSrgb
    );
    let primitive = frame(2, 3, 24);
    assert_eq!(
        primitive.prepare(&mut pipeline, None, 0x1000),
        vec![
            PrepareStep::RecreateTexture {
                width: 2,
                height: 3,
                format: TextureFormat::Bgra8Unorm
            },
            PrepareStep::SetAnchor,
            PrepareStep::Upload {
                width: 2,
                height: 3
            },
        ]
    );
    assert_eq!(pipeline.texture_size(), (2, 3));
    assert_eq!(
        primitive.prepare(&mut pipeline, None, 0x1000),
        vec![PrepareStep::SetAnchor]
    );
    assert_eq!(
        primitive.prepare(&mut pipeline, None, 0x2000),
        vec![
            PrepareStep::SetAnchor,
            PrepareStep::Upload {
                width: 2,
                height: 3
            }
        ]
    );
}

#[test]
fn a_partial_frame_is_not_uploaded() {
    let mut pipeline = WebViewPipeline::new(true);
    let steps = frame(2, 3, 23).prepare(&mut pipeline, None, 0x1000);
    assert!(!steps
        .iter()
        .any(|s| matches!(s, PrepareStep::Upload { .. })));
    let steps = frame(0, 0, 0).prepare(&mut pipeline, None, 0x1000);
    assert_eq!(
        steps,
        vec![
            PrepareStep::RecreateTexture {
                width: 1,
                height: 1,
                format: TextureFormat::Bgra8UnormSrgb
            },
            PrepareStep::SetAnchor,
        ]
    );
}

#[test]
fn a_texture_is_bound_once_and_left_for_pixels() {
    let mut pipeline = WebViewPipeline::new(true);
    let pixels = frame(2, 3, 24);
    pixels.prepare(&mut pipeline, None, 0x1000);
    let accelerated = WebViewPrimitive {
        accelerated: true,
        ..frame(2, 3, 0)
    };
    assert_eq!(
        accelerated.surface_format(&pipeline),
        Some(TextureFormat::Bgra8UnormSrgb)
    );
    assert_eq!(pixels.surface_format(&pipeline), None);
    let surface = |generation| {
        Some(SurfaceFrame {
            width: 2,
            height: 3,
            format: TextureFormat::Bgra8UnormSrgb,
            generation,
        })
    };
    assert!(accelerated.prepare(&mut pipeline, None, 0).is_empty());
    let bound = vec![PrepareStep::BindExternal, PrepareStep::SetAnchor];
    assert_eq!(accelerated.prepare(&mut pipeline, surface(8), 0), bound);
    assert_eq!(
        accelerated.prepare(&mut pipeline, surface(8), 0),
        vec![PrepareStep::SetAnchor]
    );
    assert_eq!(accelerated.prepare(&mut pipeline, surface(9), 0), bound);
    assert_eq!(
        pixels.prepare(&mut pipeline, None, 0x1000),
        vec![
            PrepareStep::RecreateTexture {
                width: 2,
                height: 3,
                format: TextureFormat::Bgra8UnormSrgb
            },
            PrepareStep::SetAnchor,
            PrepareStep::Upload {
                width: 2,
                height: 3
            },
        ]
    );
}

#[test]
fn nothing_is_drawn_before_it_has_settled() {
    assert!(frame(2, 3, 24).draws(false));
    assert!(!frame(0, 3, 0).draws(true));
    assert!(!frame(2, 0, 0).draws(true));
    let accelerated = WebViewPrimitive {
        accelerated: true,
        ..frame(2, 3, 0)
    };
    assert!(!accelerated.draws(false));
    assert!(accelerated.draws(true));
}

#[test]
fn the_program_draws_its_image() {
    let program = WebViewShaderProgram::new(
        ImageInfo {
            pixels: Arc::new(vec![1, 2, 3, 4]),
            width: 1,
            height: 1,
            pixel_format: PixelFormat::Rgba,
            accelerated: false,
        },
        Interaction::Grab,
    );
    let primitive = program.draw();
    assert_eq!(*primitive.pixels, vec![1, 2, 3, 4]);
    assert_eq!((primitive.width, primitive.height), (1, 1));
    assert_eq!(primitive.pixel_format, PixelFormat::Rgba);
    assert_eq!(program.mouse_interaction(true), Interaction::Grab);
    assert_eq!(program.mouse_interaction(false), Interaction::Unset);
    let mut state = ShaderState::default();
    assert!(matches!(
        program.update(&mut state, &Event::Other, SIZE, None, None),
        Some(Action::Resize(_))
    ));
}
