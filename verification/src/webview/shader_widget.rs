//! The widget that shows a view as a texture of its own.
//!
//! A frame is written into one texture again and again, or is in a texture
//! already, rather than going through an image cache: that keeps rapid frame
//! updates, as in scrolling, from churning through textures.

use std::sync::Arc;

use vstd::prelude::*;

use crate::engines::{ImageInfo, PixelFormat, TextureFormat};
use crate::input::{
    Button, Event, Interaction, KeyboardEvent, Modifiers, MouseEvent, Point, Size, TouchEvent,
};
use crate::webview::basic::Action;
use crate::webview::{is_touch_release, touch_to_mouse};

verus! {

/// What the widget remembers between events.
#[derive(Debug)]
pub struct ShaderState {
    bounds: Size,
    /// Whether the view has the keyboard: the user clicked inside it.
    focused: bool,
    /// The modifier keys that are held.
    modifiers: Modifiers,
    /// A button went down inside the view and is still held. Events are then
    /// forwarded even when the pointer leaves the widget.
    dragging: bool,
}

/// What the widget remembers between events.
pub struct ShaderView {
    pub bounds: Size,
    pub focused: bool,
    pub modifiers: Modifiers,
    pub dragging: bool,
}

impl View for ShaderState {
    type V = ShaderView;

    closed spec fn view(&self) -> ShaderView {
        ShaderView {
            bounds: self.bounds,
            focused: self.focused,
            modifiers: self.modifiers,
            dragging: self.dragging,
        }
    }
}

/// The mouse event that an event stands for, if it is about a pointer.
pub open spec fn pointer_event(event: Event) -> Option<MouseEvent> {
    match event {
        Event::Mouse(mouse) => Some(mouse),
        Event::Touch(touch) => Some(crate::webview::as_mouse(touch)),
        _ => None,
    }
}

impl ShaderView {
    /// A widget nothing has happened to.
    pub open spec fn at_start() -> ShaderView {
        ShaderView {
            bounds: Size { width: 0, height: 0 },
            focused: false,
            modifiers: Modifiers::none_held(),
            dragging: false,
        }
    }

    /// Whether a button is held that went down inside the view, the event's
    /// own press counted in and its release not yet.
    pub open spec fn holds(self, event: MouseEvent, inside: Option<Point>) -> bool {
        self.dragging || (event is ButtonPressed && inside is Some)
    }

    /// What becomes of the widget by an event. `inside` is where the pointer is
    /// if it is over the widget. A press inside takes the keyboard, one outside
    /// lets it go; a hold ends with a release and with the pointer leaving the
    /// window.
    pub open spec fn after(self, event: Event, size: Size, inside: Option<Point>) -> ShaderView {
        if self.bounds != size {
            ShaderView { bounds: size, ..self }
        } else {
            match event {
                Event::Keyboard(key) => ShaderView { modifiers: key.held_modifiers(), ..self },
                Event::Other => self,
                _ => {
                    let mouse = pointer_event(event)->0;
                    ShaderView {
                        focused: if mouse is ButtonPressed {
                            inside is Some
                        } else {
                            self.focused
                        },
                        dragging: self.holds(mouse, inside) && !(mouse is ButtonReleased) && !(mouse
                            is CursorLeft && inside is None),
                        ..self
                    }
                },
            }
        }
    }

    /// What the view is sent of a mouse event that is not over the widget.
    /// `clamped` is the nearest position inside, if the pointer's position is
    /// known.
    pub open spec fn asks_outside(self, mouse: MouseEvent, clamped: Option<Point>) -> Option<
        Action,
    > {
        if self.dragging {
            if mouse is CursorLeft {
                Some(
                    Action::SendMouseEvent(
                        MouseEvent::ButtonReleased(Button::Left),
                        Point::at_origin(),
                        self.modifiers,
                    ),
                )
            } else if clamped is Some {
                Some(Action::SendMouseEvent(mouse, clamped->0, self.modifiers))
            } else if mouse is ButtonReleased {
                Some(Action::SendMouseEvent(mouse, Point::at_origin(), self.modifiers))
            } else {
                None
            }
        } else if mouse is CursorLeft {
            Some(Action::SendMouseEvent(mouse, Point::at_origin(), self.modifiers))
        } else {
            None
        }
    }

    /// What an event has the widget ask for.
    pub open spec fn asks(
        self,
        event: Event,
        size: Size,
        inside: Option<Point>,
        clamped: Option<Point>,
    ) -> Option<Action> {
        if self.bounds != size {
            Some(Action::Resize(size))
        } else {
            match event {
                Event::Keyboard(key) => if !self.focused {
                    None
                } else if key.is_copy_shortcut() {
                    Some(Action::CopySelection)
                } else {
                    Some(Action::SendKeyboardEvent(key))
                },
                Event::Mouse(mouse) => match inside {
                    Some(point) => Some(Action::SendMouseEvent(mouse, point, self.modifiers)),
                    None => self.asks_outside(mouse, clamped),
                },
                Event::Touch(touch) => match inside {
                    Some(point) => Some(
                        Action::SendMouseEvent(
                            crate::webview::as_mouse(touch),
                            point,
                            self.modifiers,
                        ),
                    ),
                    None => if self.dragging && crate::webview::ends_contact(touch) {
                        Some(
                            Action::SendMouseEvent(
                                MouseEvent::ButtonReleased(Button::Left),
                                Point::at_origin(),
                                self.modifiers,
                            ),
                        )
                    } else {
                        None
                    },
                },
                Event::Other => None,
            }
        }
    }
}

impl Default for ShaderState {
    fn default() -> (state: Self)
        ensures
            state@ == ShaderView::at_start(),
    {
        ShaderState {
            bounds: Size { width: 0, height: 0 },
            focused: false,
            modifiers: Modifiers::empty(),
            dragging: false,
        }
    }
}

impl ShaderState {
    /// Take in an event: the action it has the widget ask for, if any.
    ///
    /// `inside` is where the pointer is, relative to the widget, if it is over
    /// it. `clamped` is the position inside nearest to the pointer, if the
    /// pointer's position is known.
    pub fn update(
        &mut self,
        event: &Event,
        size: Size,
        inside: Option<Point>,
        clamped: Option<Point>,
    ) -> (asked: Option<Action>)
        ensures
            final(self)@ == old(self)@.after(*event, size, inside),
            asked == old(self)@.asks(*event, size, inside, clamped),
    {
        if self.bounds != size {
            self.bounds = size;
            return Some(Action::Resize(size));
        }
        match event {
            Event::Keyboard(key) => self.key_event(key),
            Event::Mouse(mouse) => self.mouse_event(*mouse, inside, clamped),
            Event::Touch(touch) => self.touch_event(touch, inside),
            Event::Other => None,
        }
    }

    fn key_event(&mut self, key: &KeyboardEvent) -> (asked: Option<Action>)
        ensures
            final(self)@ == (ShaderView { modifiers: key.held_modifiers(), ..old(self)@ }),
            asked == if !old(self)@.focused {
                None
            } else if key.is_copy_shortcut() {
                Some(Action::CopySelection)
            } else {
                Some(Action::SendKeyboardEvent(*key))
            },
    {
        self.modifiers = key.modifiers();
        if !self.focused {
            return None;
        }
        if key.copies_selection() {
            return Some(Action::CopySelection);
        }
        Some(Action::SendKeyboardEvent(key.clone()))
    }

    fn mouse_event(&mut self, mouse: MouseEvent, inside: Option<Point>, clamped: Option<Point>) -> (asked:
        Option<Action>)
        ensures
            final(self)@ == old(self)@.after(Event::Mouse(mouse), old(self)@.bounds, inside),
            asked == old(self)@.asks(Event::Mouse(mouse), old(self)@.bounds, inside, clamped),
    {
        match mouse {
            MouseEvent::ButtonPressed(_) => {
                self.focused = inside.is_some();
                if inside.is_some() {
                    self.dragging = true;
                }
            },
            _ => {},
        }
        let was_dragging: bool = self.dragging;
        let released: bool = match mouse {
            MouseEvent::ButtonReleased(_) => true,
            _ => false,
        };
        if released {
            self.dragging = false;
        }
        match inside {
            Some(point) => Some(Action::SendMouseEvent(mouse, point, self.modifiers)),
            None => {
                if was_dragging {
                    if mouse == MouseEvent::CursorLeft {
                        self.dragging = false;
                        Some(
                            Action::SendMouseEvent(
                                MouseEvent::ButtonReleased(Button::Left),
                                Point::origin(),
                                self.modifiers,
                            ),
                        )
                    } else {
                        match clamped {
                            Some(point) => Some(
                                Action::SendMouseEvent(mouse, point, self.modifiers),
                            ),
                            None => if released {
                                Some(
                                    Action::SendMouseEvent(mouse, Point::origin(), self.modifiers),
                                )
                            } else {
                                None
                            },
                        }
                    }
                } else if mouse == MouseEvent::CursorLeft {
                    Some(Action::SendMouseEvent(mouse, Point::origin(), self.modifiers))
                } else {
                    None
                }
            },
        }
    }

    fn touch_event(&mut self, touch: &TouchEvent, inside: Option<Point>) -> (asked: Option<Action>)
        ensures
            final(self)@ == old(self)@.after(Event::Touch(*touch), old(self)@.bounds, inside),
            forall|clamped: Option<Point>|
                asked == #[trigger] old(self)@.asks(
                    Event::Touch(*touch),
                    old(self)@.bounds,
                    inside,
                    clamped,
                ),
    {
        let synthetic = touch_to_mouse(touch);
        let released = is_touch_release(touch);
        match touch {
            TouchEvent::FingerPressed { .. } => {
                self.focused = inside.is_some();
                if inside.is_some() {
                    self.dragging = true;
                }
            },
            _ => {},
        }
        let was_dragging: bool = self.dragging;
        if released {
            self.dragging = false;
        }
        match inside {
            Some(point) => Some(Action::SendMouseEvent(synthetic, point, self.modifiers)),
            None => {
                if was_dragging && released {
                    Some(
                        Action::SendMouseEvent(
                            MouseEvent::ButtonReleased(Button::Left),
                            Point::origin(),
                            self.modifiers,
                        ),
                    )
                } else {
                    None
                }
            },
        }
    }
}

/// A hold always ends for the engine: whatever ends it for the widget, the
/// view is sent a release, wherever the pointer is.
pub proof fn law_hold_ends_with_release(
    state: ShaderView,
    event: Event,
    inside: Option<Point>,
    clamped: Option<Point>,
)
    requires
        state.dragging,
        !state.after(event, state.bounds, inside).dragging,
    ensures
        state.asks(event, state.bounds, inside, clamped) matches Some(
            Action::SendMouseEvent(sent, _, _),
        ) && sent is ButtonReleased,
{
}

/// A hold is followed beyond the widget: as long as it lasts the view is sent
/// every mouse event whose position is known, held inside the view.
pub proof fn law_hold_is_followed_outside(state: ShaderView, mouse: MouseEvent, clamped: Point)
    requires
        state.dragging,
        mouse != MouseEvent::CursorLeft,
    ensures
        state.asks(Event::Mouse(mouse), state.bounds, None, Some(clamped)) == Some(
            Action::SendMouseEvent(mouse, clamped, state.modifiers),
        ),
        !(mouse is ButtonReleased) ==> state.after(
            Event::Mouse(mouse),
            state.bounds,
            None,
        ).dragging,
{
}

/// A view that does not have the keyboard is sent no key, but the modifiers
/// that its mouse events carry are kept up to date.
pub proof fn law_unfocused_view_hears_no_key(
    state: ShaderView,
    key: KeyboardEvent,
    inside: Option<Point>,
    clamped: Option<Point>,
    point: Point,
    mouse: MouseEvent,
)
    requires
        !state.focused,
    ensures
        state.asks(Event::Keyboard(key), state.bounds, inside, clamped) is None,
        state.after(Event::Keyboard(key), state.bounds, inside).asks(
            Event::Mouse(mouse),
            state.bounds,
            Some(point),
            clamped,
        ) == Some(Action::SendMouseEvent(mouse, point, key.held_modifiers())),
{
}

/// Only a press changes who has the keyboard: inside the view takes it,
/// outside lets it go.
pub proof fn law_press_decides_focus(state: ShaderView, event: Event, inside: Option<Point>)
    ensures
        ({
            let after = state.after(event, state.bounds, inside);
            if pointer_event(event) matches Some(MouseEvent::ButtonPressed(_)) {
                after.focused == (inside is Some)
            } else {
                after.focused == state.focused
            }
        }),
{
}

/// Where nothing is held, only the pointer's leaving the window is passed on
/// from outside the widget.
pub proof fn law_outside_is_silent(
    state: ShaderView,
    mouse: MouseEvent,
    clamped: Option<Point>,
)
    requires
        !state.dragging,
    ensures
        state.asks(Event::Mouse(mouse), state.bounds, None, clamped) is Some <==> mouse
            == MouseEvent::CursorLeft,
{
}

/// What is drawn: a frame's pixels, or the texture it is in already.
#[derive(Debug)]
pub struct WebViewPrimitive {
    pub pixels: Arc<Vec<u8>>,
    pub width: u32,
    pub height: u32,
    pub pixel_format: PixelFormat,
    /// Whether the frame is a texture already. `pixels` is then empty and there
    /// is nothing to upload.
    pub accelerated: bool,
}

/// A texture with a frame in it.
#[derive(Clone, Copy, Debug, PartialEq, Eq, Structural)]
pub struct SurfaceFrame {
    pub width: u32,
    pub height: u32,
    pub format: TextureFormat,
    pub generation: u64,
}

/// The widget for a view: the image it shows and the pointer its page asks for.
#[derive(Debug)]
pub struct WebViewShaderProgram {
    image_info: ImageInfo,
    cursor: Interaction,
}

impl WebViewShaderProgram {
    /// The image the widget shows.
    pub closed spec fn image(&self) -> ImageInfo {
        self.image_info
    }

    /// The pointer the page asks for.
    pub closed spec fn page_cursor(&self) -> Interaction {
        self.cursor
    }

    /// The widget for an image and a pointer.
    pub fn new(image_info: ImageInfo, cursor: Interaction) -> (program: WebViewShaderProgram)
        ensures
            program.image() == image_info,
            program.page_cursor() == cursor,
    {
        WebViewShaderProgram { image_info, cursor }
    }

    /// Take in an event, as [`ShaderState::update`] does.
    pub fn update(
        &self,
        state: &mut ShaderState,
        event: &Event,
        size: Size,
        inside: Option<Point>,
        clamped: Option<Point>,
    ) -> (asked: Option<Action>)
        ensures
            final(state)@ == old(state)@.after(*event, size, inside),
            asked == old(state)@.asks(*event, size, inside, clamped),
    {
        state.update(event, size, inside, clamped)
    }

    /// What is drawn.
    pub fn draw(&self) -> (primitive: WebViewPrimitive)
        ensures
            primitive == (WebViewPrimitive {
                pixels: self.image().pixels,
                width: self.image().width,
                height: self.image().height,
                pixel_format: self.image().pixel_format,
                accelerated: self.image().accelerated,
            }),
    {
        WebViewPrimitive {
            pixels: self.image_info.pixels.clone(),
            width: self.image_info.width,
            height: self.image_info.height,
            pixel_format: self.image_info.pixel_format,
            accelerated: self.image_info.accelerated,
        }
    }

    /// The pointer to show: the one the page asks for over the widget, and none
    /// of the widget's own elsewhere.
    pub fn mouse_interaction(&self, over: bool) -> (interaction: Interaction)
        ensures
            interaction == if over {
                self.page_cursor()
            } else {
                Interaction::Unset
            },
    {
        if over {
            self.cursor
        } else {
            Interaction::Unset
        }
    }
}

/// What is to be done on the device before drawing.
#[derive(Clone, Copy, Debug, PartialEq, Eq, Structural)]
pub enum PrepareStep {
    /// Bind the texture the frame is in.
    BindExternal,
    /// Make a texture of this size and format and bind it.
    RecreateTexture { width: u32, height: u32, format: TextureFormat },
    /// Tell the shader how the texture maps onto the widget.
    SetAnchor,
    /// Write the pixels into the texture.
    Upload { width: u32, height: u32 },
}

/// What the pipeline remembers between frames.
#[derive(Debug)]
pub struct WebViewPipeline {
    texture_width: u32,
    texture_height: u32,
    texture_format: TextureFormat,
    target_is_srgb: bool,
    last_pixels_ptr: usize,
    accel_generation: Option<u64>,
}

/// What the pipeline remembers between frames.
pub struct PipelineView {
    /// The size and the format of the texture that is bound.
    pub width: u32,
    pub height: u32,
    pub format: TextureFormat,
    /// Whether what is drawn into encodes to sRGB.
    pub target_is_srgb: bool,
    /// Where the pixels are that were uploaded last, zero for nowhere.
    pub last_pixels_ptr: usize,
    /// The generation of the texture that is bound, where it is not our own.
    pub accel_generation: Option<u64>,
}

impl View for WebViewPipeline {
    type V = PipelineView;

    closed spec fn view(&self) -> PipelineView {
        PipelineView {
            width: self.texture_width,
            height: self.texture_height,
            format: self.texture_format,
            target_is_srgb: self.target_is_srgb,
            last_pixels_ptr: self.last_pixels_ptr,
            accel_generation: self.accel_generation,
        }
    }
}

/// The format of a texture for a frame's pixels.
pub open spec fn frame_format(pixels: PixelFormat, target_is_srgb: bool) -> TextureFormat {
    match (pixels, target_is_srgb) {
        (PixelFormat::Bgra, true) => TextureFormat::Bgra8UnormSrgb,
        (PixelFormat::Bgra, false) => TextureFormat::Bgra8Unorm,
        (PixelFormat::Rgba, true) => TextureFormat::Rgba8UnormSrgb,
        (PixelFormat::Rgba, false) => TextureFormat::Rgba8Unorm,
    }
}

/// The format of a texture for a frame's pixels.
///
/// The texture decodes from sRGB exactly when what is drawn into encodes to it,
/// so that the bytes reach the screen unchanged. Decoding without encoding
/// would crush the midtones toward black.
pub fn to_wgpu_format(pf: &PixelFormat, target_is_srgb: bool) -> (format: TextureFormat)
    ensures
        format == frame_format(*pf, target_is_srgb),
{
    match (pf, target_is_srgb) {
        (PixelFormat::Bgra, true) => TextureFormat::Bgra8UnormSrgb,
        (PixelFormat::Bgra, false) => TextureFormat::Bgra8Unorm,
        (PixelFormat::Rgba, true) => TextureFormat::Rgba8UnormSrgb,
        (PixelFormat::Rgba, false) => TextureFormat::Rgba8Unorm,
    }
}

/// A texture keeps the order of the frame's bytes and decodes them exactly when
/// the target encodes them.
pub proof fn law_bytes_reach_screen_unchanged(pixels: PixelFormat, target_is_srgb: bool)
    ensures
        frame_format(pixels, target_is_srgb).order() == pixels,
        frame_format(pixels, target_is_srgb).srgb() == target_is_srgb,
{
}

/// The larger of a number and one.
pub open spec fn at_least_one(n: u32) -> u32 {
    if n == 0 {
        1
    } else {
        n
    }
}

fn or_one(n: u32) -> (m: u32)
    ensures
        m == at_least_one(n),
{
    if n == 0 {
        1
    } else {
        n
    }
}

/// Whether a buffer holds a whole frame of a size, four bytes a pixel.
pub open spec fn holds_frame(len: int, width: u32, height: u32) -> bool {
    len == 4 * width * height && width > 0 && height > 0
}

fn has_frame(len: usize, width: u32, height: u32) -> (has: bool)
    ensures
        has == holds_frame(len as int, width, height),
{
    assert(4 * width * height <= 4 * 0x1_0000_0000 * 0x1_0000_0000) by (nonlinear_arith);
    assert(0 <= 4 * width <= 4 * 0x1_0000_0000);
    len as u128 == 4 * (width as u128) * (height as u128) && width > 0 && height > 0
}

impl PipelineView {
    /// A pipeline that draws into a target of some kind, with a texture of one
    /// pixel.
    pub open spec fn at_start(target_is_srgb: bool) -> PipelineView {
        PipelineView {
            width: 1,
            height: 1,
            format: frame_format(PixelFormat::Rgba, target_is_srgb),
            target_is_srgb,
            last_pixels_ptr: 0,
            accel_generation: None,
        }
    }

    /// A texture that belongs to someone else having been bound. Whatever
    /// pixels come next have to be uploaded again.
    pub open spec fn bound(self, frame: SurfaceFrame) -> PipelineView {
        if self.accel_generation == Some(frame.generation) {
            self
        } else {
            PipelineView {
                width: frame.width,
                height: frame.height,
                format: frame.format,
                last_pixels_ptr: 0,
                accel_generation: Some(frame.generation),
                ..self
            }
        }
    }

    /// What binding the texture a frame is in takes.
    pub open spec fn bind_steps(self, frame: SurfaceFrame) -> Seq<PrepareStep> {
        (if self.accel_generation == Some(frame.generation) {
            Seq::empty()
        } else {
            seq![PrepareStep::BindExternal]
        }) + seq![PrepareStep::SetAnchor]
    }

    /// A texture of our own having been bound again, if another one was.
    pub open spec fn reclaimed(self, primitive: WebViewPrimitive) -> PipelineView {
        if self.accel_generation is Some {
            PipelineView {
                width: at_least_one(primitive.width),
                height: at_least_one(primitive.height),
                format: frame_format(primitive.pixel_format, self.target_is_srgb),
                last_pixels_ptr: 0,
                accel_generation: None,
                ..self
            }
        } else {
            self
        }
    }

    /// Whether our own texture is not one for a frame.
    pub open spec fn misfits(self, primitive: WebViewPrimitive) -> bool {
        self.width != primitive.width || self.height != primitive.height || self.format
            != frame_format(primitive.pixel_format, self.target_is_srgb)
    }

    /// Our own texture having been made to fit a frame.
    pub open spec fn fitted(self, primitive: WebViewPrimitive) -> PipelineView {
        if self.misfits(primitive) {
            PipelineView {
                width: primitive.width,
                height: primitive.height,
                format: frame_format(primitive.pixel_format, self.target_is_srgb),
                last_pixels_ptr: 0,
                ..self
            }
        } else {
            self
        }
    }

    /// Whether a frame's pixels have to be uploaded: they are not those that
    /// were uploaded last, and they are a whole frame.
    pub open spec fn uploads(self, primitive: WebViewPrimitive, ptr: usize) -> bool {
        self.last_pixels_ptr != ptr && holds_frame(
            primitive.pixels@.len() as int,
            primitive.width,
            primitive.height,
        )
    }

    /// What becomes of the pipeline by a frame of pixels at an address.
    pub open spec fn filled(self, primitive: WebViewPrimitive, ptr: usize) -> PipelineView {
        let ready = self.reclaimed(primitive).fitted(primitive);
        PipelineView {
            last_pixels_ptr: if ready.uploads(primitive, ptr) {
                ptr
            } else {
                ready.last_pixels_ptr
            },
            ..ready
        }
    }

    /// What a frame of pixels takes.
    pub open spec fn fill_steps(self, primitive: WebViewPrimitive, ptr: usize) -> Seq<PrepareStep> {
        let format = frame_format(primitive.pixel_format, self.target_is_srgb);
        let make = seq![
            PrepareStep::RecreateTexture {
                width: at_least_one(primitive.width),
                height: at_least_one(primitive.height),
                format,
            },
        ];
        let mine = self.reclaimed(primitive);
        let ready = mine.fitted(primitive);
        (if self.accel_generation is Some {
            make
        } else {
            Seq::empty()
        }) + (if mine.misfits(primitive) {
            make
        } else {
            Seq::empty()
        }) + seq![PrepareStep::SetAnchor] + (if ready.uploads(primitive, ptr) {
            seq![PrepareStep::Upload { width: primitive.width, height: primitive.height }]
        } else {
            Seq::empty()
        })
    }
}

impl WebViewPipeline {
    /// A pipeline that draws into a target of some kind.
    pub fn new(target_is_srgb: bool) -> (pipeline: WebViewPipeline)
        ensures
            pipeline@ == PipelineView::at_start(target_is_srgb),
    {
        WebViewPipeline {
            texture_width: 1,
            texture_height: 1,
            texture_format: to_wgpu_format(&PixelFormat::Rgba, target_is_srgb),
            target_is_srgb,
            last_pixels_ptr: 0,
            accel_generation: None,
        }
    }

    /// The size of the texture that is bound.
    pub fn texture_size(&self) -> (size: (u32, u32))
        ensures
            size == (self@.width, self@.height),
    {
        (self.texture_width, self.texture_height)
    }

    /// The format of the texture that is bound.
    pub fn texture_format(&self) -> (format: TextureFormat)
        ensures
            format == self@.format,
    {
        self.texture_format
    }

    fn recreate_texture(&mut self, width: u32, height: u32, format: TextureFormat) -> (step:
        PrepareStep)
        ensures
            final(self)@ == (PipelineView {
                width,
                height,
                format,
                last_pixels_ptr: 0,
                ..old(self)@
            }),
            step == (PrepareStep::RecreateTexture {
                width: at_least_one(width),
                height: at_least_one(height),
                format,
            }),
    {
        self.texture_width = width;
        self.texture_height = height;
        self.texture_format = format;
        self.last_pixels_ptr = 0;
        PrepareStep::RecreateTexture { width: or_one(width), height: or_one(height), format }
    }

    fn bind_external(&mut self, frame: &SurfaceFrame)
        ensures
            final(self)@ == (PipelineView {
                width: frame.width,
                height: frame.height,
                format: frame.format,
                last_pixels_ptr: 0,
                accel_generation: Some(frame.generation),
                ..old(self)@
            }),
    {
        self.texture_width = frame.width;
        self.texture_height = frame.height;
        self.texture_format = frame.format;
        self.accel_generation = Some(frame.generation);
        self.last_pixels_ptr = 0;
    }
}

impl WebViewPrimitive {
    /// The format a surface that delivers textures is to copy frames into, if
    /// the frame comes from one.
    pub fn surface_format(&self, pipeline: &WebViewPipeline) -> (format: Option<TextureFormat>)
        ensures
            format == if self.accelerated {
                Some(frame_format(self.pixel_format, pipeline@.target_is_srgb))
            } else {
                None
            },
    {
        if self.accelerated {
            Some(to_wgpu_format(&self.pixel_format, pipeline.target_is_srgb))
        } else {
            None
        }
    }

    /// What is to be done on the device before drawing. `surface` is the
    /// texture an accelerated frame is in, if there is one yet, and
    /// `pixels_ptr` where the pixels are in memory.
    pub fn prepare(
        &self,
        pipeline: &mut WebViewPipeline,
        surface: Option<SurfaceFrame>,
        pixels_ptr: usize,
    ) -> (steps: Vec<PrepareStep>)
        ensures
            if self.accelerated {
                match surface {
                    Some(frame) => {
                        &&& final(pipeline)@ == old(pipeline)@.bound(frame)
                        &&& steps@ == old(pipeline)@.bind_steps(frame)
                    },
                    None => final(pipeline)@ == old(pipeline)@ && steps@.len() == 0,
                }
            } else {
                &&& final(pipeline)@ == old(pipeline)@.filled(*self, pixels_ptr)
                &&& steps@ == old(pipeline)@.fill_steps(*self, pixels_ptr)
            },
    {
        let mut steps: Vec<PrepareStep> = Vec::new();
        if self.accelerated {
            match surface {
                Some(frame) => {
                    let known: bool = match pipeline.accel_generation {
                        Some(generation) => generation == frame.generation,
                        None => false,
                    };
                    if !known {
                        pipeline.bind_external(&frame);
                        steps.push(PrepareStep::BindExternal);
                    }
                    steps.push(PrepareStep::SetAnchor);
                    assert(steps@ =~= old(pipeline)@.bind_steps(frame));
                },
                None => {},
            }
            return steps;
        }
        let format = to_wgpu_format(&self.pixel_format, pipeline.target_is_srgb);
        if pipeline.accel_generation.is_some() {
            pipeline.accel_generation = None;
            let step = pipeline.recreate_texture(or_one(self.width), or_one(self.height), format);
            steps.push(step);
        }
        if self.width != pipeline.texture_width || self.height != pipeline.texture_height || format
            != pipeline.texture_format {
            let step = pipeline.recreate_texture(self.width, self.height, format);
            steps.push(step);
        }
        steps.push(PrepareStep::SetAnchor);
        if pixels_ptr != pipeline.last_pixels_ptr && has_frame(
            self.pixels.len(),
            self.width,
            self.height,
        ) {
            steps.push(PrepareStep::Upload { width: self.width, height: self.height });
            pipeline.last_pixels_ptr = pixels_ptr;
        }
        assert(steps@ =~= old(pipeline)@.fill_steps(*self, pixels_ptr));
        steps
    }

    /// Whether anything is drawn. Nothing is until a page that comes as a
    /// texture was once rendered at the size it is shown at: it would appear
    /// small in the corner and then jump to fill.
    pub fn draws(&self, settled: bool) -> (draws: bool)
        ensures
            draws == (self.width > 0 && self.height > 0 && (self.accelerated ==> settled)),
    {
        self.width > 0 && self.height > 0 && (!self.accelerated || settled)
    }
}

/// After a frame of pixels, the texture that is bound is our own, has the
/// frame's size, and decodes exactly when the target encodes.
pub proof fn law_texture_fits_frame(
    pipeline: PipelineView,
    primitive: WebViewPrimitive,
    ptr: usize,
)
    ensures
        ({
            let after = pipeline.filled(primitive, ptr);
            &&& after.accel_generation is None
            &&& after.width == primitive.width
            &&& after.height == primitive.height
            &&& after.format.order() == primitive.pixel_format
            &&& after.format.srgb() == pipeline.target_is_srgb
            &&& after.target_is_srgb == pipeline.target_is_srgb
        }),
{
}

/// A frame that is drawn again is not uploaded again, nor is its texture made
/// again.
pub proof fn law_unchanged_frame_is_not_uploaded(
    pipeline: PipelineView,
    primitive: WebViewPrimitive,
    ptr: usize,
)
    requires
        holds_frame(primitive.pixels@.len() as int, primitive.width, primitive.height),
    ensures
        pipeline.filled(primitive, ptr).fill_steps(primitive, ptr) == seq![PrepareStep::SetAnchor],
{
    let after = pipeline.filled(primitive, ptr);
    assert(after.fill_steps(primitive, ptr) =~= seq![PrepareStep::SetAnchor]);
}

/// Coming back from a texture that belongs to someone else, a whole frame of
/// pixels is always uploaded, even one that was uploaded before.
pub proof fn law_frame_after_texture_is_uploaded(
    pipeline: PipelineView,
    frame: SurfaceFrame,
    primitive: WebViewPrimitive,
    ptr: usize,
)
    requires
        holds_frame(primitive.pixels@.len() as int, primitive.width, primitive.height),
        ptr != 0,
    ensures
        pipeline.bound(frame).fill_steps(primitive, ptr).last() == (PrepareStep::Upload {
            width: primitive.width,
            height: primitive.height,
        }),
{
}

/// A texture of another generation is always bound, and one that is bound is
/// not bound again.
pub proof fn law_texture_is_bound_once(
    pipeline: PipelineView,
    frame: SurfaceFrame,
    other: SurfaceFrame,
)
    requires
        frame.generation != other.generation,
    ensures
        pipeline.bound(frame).bind_steps(frame) == seq![PrepareStep::SetAnchor],
        pipeline.bound(frame).bind_steps(other) == seq![
            PrepareStep::BindExternal,
            PrepareStep::SetAnchor,
        ],
        pipeline.bound(frame).accel_generation == Some(frame.generation),
{
    assert(pipeline.bound(frame).bind_steps(frame) =~= seq![PrepareStep::SetAnchor]);
    assert(pipeline.bound(frame).bind_steps(other) =~= seq![
        PrepareStep::BindExternal,
        PrepareStep::SetAnchor,
    ]);
}

/// A mouse event over the widget is always sent to the view: that very event,
/// at the point the pointer is over, with the modifiers that are held. Whether
/// the view has the keyboard, and whether a button is held, makes no
/// difference.
pub proof fn law_mouse_over_widget_is_sent(
    state: ShaderView,
    mouse: MouseEvent,
    point: Point,
    clamped: Option<Point>,
)
    ensures
        state.asks(Event::Mouse(mouse), state.bounds, Some(point), clamped) == Some(
            Action::SendMouseEvent(mouse, point, state.modifiers),
        ),
{
}

/// A touch of the widget is sent to the view as what the left button would have
/// done there: a finger going down is a press, one going up or getting lost a
/// release, and one that moves a move.
pub proof fn law_touch_of_widget_is_sent(
    state: ShaderView,
    touch: TouchEvent,
    point: Point,
    clamped: Option<Point>,
)
    ensures
        ({
            let asked = state.asks(Event::Touch(touch), state.bounds, Some(point), clamped);
            match touch {
                TouchEvent::FingerPressed { .. } => asked == Some(
                    Action::SendMouseEvent(
                        MouseEvent::ButtonPressed(Button::Left),
                        point,
                        state.modifiers,
                    ),
                ),
                TouchEvent::FingerMoved { position, .. } => asked == Some(
                    Action::SendMouseEvent(
                        MouseEvent::CursorMoved { position },
                        point,
                        state.modifiers,
                    ),
                ),
                TouchEvent::FingerLifted { .. } => asked == Some(
                    Action::SendMouseEvent(
                        MouseEvent::ButtonReleased(Button::Left),
                        point,
                        state.modifiers,
                    ),
                ),
                TouchEvent::FingerLost { .. } => asked == Some(
                    Action::SendMouseEvent(
                        MouseEvent::ButtonReleased(Button::Left),
                        point,
                        state.modifiers,
                    ),
                ),
            }
        }),
{
}

/// Of a touch elsewhere the view hears only that a finger it follows went up.
pub proof fn law_touch_elsewhere_only_releases(
    state: ShaderView,
    touch: TouchEvent,
    clamped: Option<Point>,
)
    ensures
        ({
            let asked = state.asks(Event::Touch(touch), state.bounds, None, clamped);
            let lifted = touch is FingerLifted || touch is FingerLost;
            &&& state.dragging && lifted ==> asked == Some(
                Action::SendMouseEvent(
                    MouseEvent::ButtonReleased(Button::Left),
                    Point { x: 0, y: 0 },
                    state.modifiers,
                ),
            )
            &&& !(state.dragging && lifted) ==> asked is None
        }),
{
}

/// Where the pointer's position is not known, a hold is told only of its
/// release, in the corner; leaving the window ends it with a release of the
/// left button there. Without a hold the view hears that the pointer left.
pub proof fn law_unknown_position_is_the_corner(state: ShaderView, mouse: MouseEvent)
    ensures
        ({
            let corner = Point { x: 0, y: 0 };
            let asked = state.asks(Event::Mouse(mouse), state.bounds, None, None);
            &&& state.dragging && mouse is ButtonReleased ==> asked == Some(
                Action::SendMouseEvent(mouse, corner, state.modifiers),
            )
            &&& state.dragging && mouse == MouseEvent::CursorLeft ==> asked == Some(
                Action::SendMouseEvent(
                    MouseEvent::ButtonReleased(Button::Left),
                    corner,
                    state.modifiers,
                ),
            )
            &&& state.dragging && !(mouse is ButtonReleased) && mouse != MouseEvent::CursorLeft
                ==> asked is None
            &&& !state.dragging && mouse == MouseEvent::CursorLeft ==> asked == Some(
                Action::SendMouseEvent(mouse, corner, state.modifiers),
            )
        }),
{
}

/// Leaving the window ends a hold wherever the pointer was last, with a release
/// in the corner.
pub proof fn law_leaving_window_ends_hold(state: ShaderView, clamped: Option<Point>)
    ensures
        !state.after(Event::Mouse(MouseEvent::CursorLeft), state.bounds, None).dragging,
        state.dragging ==> state.asks(
            Event::Mouse(MouseEvent::CursorLeft),
            state.bounds,
            None,
            clamped,
        ) == Some(
            Action::SendMouseEvent(
                MouseEvent::ButtonReleased(Button::Left),
                Point { x: 0, y: 0 },
                state.modifiers,
            ),
        ),
{
}

/// A hold begins with a button or a finger going down over the widget, goes on
/// whatever else happens over it, and ends with the button or the finger going
/// up anywhere.
pub proof fn law_hold_lasts_from_press_to_release(
    state: ShaderView,
    button: Button,
    mouse: MouseEvent,
    touch: TouchEvent,
    point: Point,
    inside: Option<Point>,
)
    ensures
        state.after(Event::Mouse(MouseEvent::ButtonPressed(button)), state.bounds, Some(point)).dragging,
        touch is FingerPressed ==> state.after(Event::Touch(touch), state.bounds, Some(point)).dragging,
        !state.after(Event::Mouse(MouseEvent::ButtonReleased(button)), state.bounds, inside).dragging,
        touch is FingerLifted || touch is FingerLost ==> !state.after(
            Event::Touch(touch),
            state.bounds,
            inside,
        ).dragging,
        !(mouse is ButtonPressed) && !(mouse is ButtonReleased) ==> state.after(
            Event::Mouse(mouse),
            state.bounds,
            Some(point),
        ).dragging == state.dragging,
        touch is FingerMoved ==> state.after(Event::Touch(touch), state.bounds, inside).dragging
            == state.dragging,
        !state.dragging ==> !state.after(Event::Mouse(mouse), state.bounds, None).dragging,
        !state.dragging ==> !state.after(Event::Touch(touch), state.bounds, None).dragging,
{
}

/// A view that has the keyboard is sent every key, but for the shortcut that
/// copies: that asks for the selection.
pub proof fn law_focused_view_hears_keys(
    state: ShaderView,
    key: KeyboardEvent,
    inside: Option<Point>,
    clamped: Option<Point>,
)
    requires
        state.focused,
    ensures
        key.is_copy_shortcut() ==> state.asks(Event::Keyboard(key), state.bounds, inside, clamped)
            == Some(Action::CopySelection),
        !key.is_copy_shortcut() ==> state.asks(Event::Keyboard(key), state.bounds, inside, clamped)
            == Some(Action::SendKeyboardEvent(key)),
{
}

/// A widget whose size is not the one it told last tells it, whatever the
/// event, and takes nothing else in; from then on it has told that size. No
/// other event changes the size it told.
pub proof fn law_new_size_is_told_first(
    state: ShaderView,
    event: Event,
    size: Size,
    inside: Option<Point>,
    clamped: Option<Point>,
)
    ensures
        state.after(event, size, inside).bounds == size,
        size != state.bounds ==> {
            &&& state.asks(event, size, inside, clamped) == Some(Action::Resize(size))
            &&& state.after(event, size, inside).focused == state.focused
            &&& state.after(event, size, inside).dragging == state.dragging
            &&& state.after(event, size, inside).modifiers == state.modifiers
        },
        !(state.asks(event, state.bounds, inside, clamped) matches Some(Action::Resize(_))),
{
}

/// Only keys change the modifiers that mouse events are sent with, and keys
/// change nothing else.
pub proof fn law_keys_alone_change_modifiers(
    state: ShaderView,
    event: Event,
    key: KeyboardEvent,
    inside: Option<Point>,
)
    ensures
        !(event is Keyboard) ==> state.after(event, state.bounds, inside).modifiers
            == state.modifiers,
        state.after(Event::Keyboard(key), state.bounds, inside).focused == state.focused,
        state.after(Event::Keyboard(key), state.bounds, inside).dragging == state.dragging,
        (match key {
            KeyboardEvent::KeyPressed { modifiers, .. } => state.after(
                Event::Keyboard(key),
                state.bounds,
                inside,
            ).modifiers == modifiers,
            KeyboardEvent::KeyReleased { modifiers, .. } => state.after(
                Event::Keyboard(key),
                state.bounds,
                inside,
            ).modifiers == modifiers,
            KeyboardEvent::ModifiersChanged(modifiers) => state.after(
                Event::Keyboard(key),
                state.bounds,
                inside,
            ).modifiers == modifiers,
        }),
{
}

/// Any other event does nothing and asks for nothing.
pub proof fn law_other_events_are_ignored(
    state: ShaderView,
    inside: Option<Point>,
    clamped: Option<Point>,
)
    ensures
        state.after(Event::Other, state.bounds, inside) == state,
        state.asks(Event::Other, state.bounds, inside, clamped) is None,
{
}

/// At the start a widget has no size, does not have the keyboard, and nothing
/// is held.
pub proof fn law_widget_starts_idle()
    ensures
        ShaderView::at_start().bounds == (Size { width: 0, height: 0 }),
        !ShaderView::at_start().focused,
        !ShaderView::at_start().dragging,
        ShaderView::at_start().modifiers == Modifiers::none_held(),
{
}

/// A whole frame is uploaded, in its size, exactly if it is not the one that
/// was uploaded last into the texture that is bound; a texture that does not
/// fit or is not our own is made anew first, and then the frame is uploaded
/// even if it was before. Half a frame is never uploaded.
pub proof fn law_new_frame_is_uploaded(
    pipeline: PipelineView,
    primitive: WebViewPrimitive,
    ptr: usize,
)
    requires
        ptr != 0,
    ensures
        ({
            let steps = pipeline.fill_steps(primitive, ptr);
            let after = pipeline.filled(primitive, ptr);
            let whole = primitive.width > 0 && primitive.height > 0 && primitive.pixels@.len() == 4
                * primitive.width * primitive.height;
            let fits = pipeline.accel_generation is None && pipeline.width == primitive.width
                && pipeline.height == primitive.height && pipeline.format.order()
                == primitive.pixel_format && pipeline.format.srgb() == pipeline.target_is_srgb;
            let fresh = !fits || pipeline.last_pixels_ptr != ptr;
            &&& whole && fresh ==> steps.last() == (PrepareStep::Upload {
                width: primitive.width,
                height: primitive.height,
            }) && after.last_pixels_ptr == ptr
            &&& !(whole && fresh) ==> steps.last() == PrepareStep::SetAnchor
            &&& fits && !(whole && fresh) ==> after == pipeline
            &&& !fits && !whole ==> after.last_pixels_ptr == 0
            &&& fits ==> steps.len() == if whole && fresh {
                2int
            } else {
                1
            }
            &&& fits ==> steps[0] == PrepareStep::SetAnchor
            &&& !fits ==> steps.len() >= 2
        }),
{
}

/// A texture is made where ours does not fit a frame, in the frame's size but
/// at least one pixel each way, and in the order of the frame's bytes.
pub proof fn law_texture_is_made_to_fit(
    pipeline: PipelineView,
    primitive: WebViewPrimitive,
    ptr: usize,
)
    requires
        pipeline.accel_generation is Some || pipeline.width != primitive.width || pipeline.height
            != primitive.height || pipeline.format.order() != primitive.pixel_format
            || pipeline.format.srgb() != pipeline.target_is_srgb,
    ensures
        pipeline.fill_steps(primitive, ptr)[0] matches PrepareStep::RecreateTexture {
            width,
            height,
            format,
        } && {
            &&& primitive.width > 0 ==> width == primitive.width
            &&& primitive.height > 0 ==> height == primitive.height
            &&& primitive.width == 0 ==> width == 1
            &&& primitive.height == 0 ==> height == 1
            &&& format.order() == primitive.pixel_format
            &&& format.srgb() == pipeline.target_is_srgb
        },
        primitive.width > 0 && primitive.height > 0 ==> pipeline.fill_steps(primitive, ptr)[1]
            == PrepareStep::SetAnchor,
{
}

/// Binding a texture that belongs to someone else takes over what it is like.
pub proof fn law_bound_texture_is_taken_over(pipeline: PipelineView, frame: SurfaceFrame)
    requires
        pipeline.accel_generation != Some(frame.generation),
    ensures
        ({
            let after = pipeline.bound(frame);
            &&& after.width == frame.width && after.height == frame.height
            &&& after.format == frame.format
            &&& after.last_pixels_ptr == 0
            &&& after.target_is_srgb == pipeline.target_is_srgb
            &&& pipeline.bind_steps(frame).len() == 2
            &&& pipeline.bind_steps(frame)[0] == PrepareStep::BindExternal
            &&& pipeline.bind_steps(frame)[1] == PrepareStep::SetAnchor
            &&& after.bound(frame) == after
        }),
{
}

/// At the start a texture of one pixel is bound, and nothing was uploaded.
pub proof fn law_pipeline_starts_with_one_pixel(target_is_srgb: bool)
    ensures
        ({
            let start = PipelineView::at_start(target_is_srgb);
            &&& start.width == 1 && start.height == 1
            &&& start.format.order() == PixelFormat::Rgba
            &&& start.format.srgb() == target_is_srgb
            &&& start.target_is_srgb == target_is_srgb
            &&& start.last_pixels_ptr == 0
            &&& start.accel_generation is None
        }),
{
}

} // verus!
