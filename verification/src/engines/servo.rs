//! The state of the Servo engine.
//!
//! Servo renders pages and reports by callbacks, which go into the
//! [`DelegateState`] of the view they are about. `W` is a web view of Servo's.

use std::sync::Arc;

use vstd::prelude::*;
use vstd::string::*;

use crate::data_url::html_data_url;
use crate::engines::views::ViewList;
use crate::engines::{random_view_id, FrameImage, PageType, PixelFormat, ViewId};
use crate::input::{
    Button, Interaction, Key, KeyboardEvent, Modifiers, MouseEvent, Named, Point, ScrollDelta, Size,
};
use crate::util::{parse_url, PageUrl};

verus! {

/// The pointer a page asks for. `Other` stands for all that have no counterpart
/// here.
#[derive(Clone, Copy, Debug, PartialEq, Eq, Structural)]
pub enum Cursor {
    Default,
    Pointer,
    Text,
    VerticalText,
    Crosshair,
    Cell,
    Grab,
    AllScroll,
    Grabbing,
    NotAllowed,
    NoDrop,
    ColResize,
    EwResize,
    EResize,
    WResize,
    RowResize,
    NsResize,
    NResize,
    SResize,
    ZoomIn,
    ZoomOut,
    Other,
}

/// The pointer that stands for the one a page asks for.
pub open spec fn page_interaction(cursor: Cursor) -> Interaction {
    match cursor {
        Cursor::Pointer => Interaction::Pointer,
        Cursor::Text => Interaction::Text,
        Cursor::VerticalText => Interaction::Text,
        Cursor::Crosshair => Interaction::Crosshair,
        Cursor::Cell => Interaction::Crosshair,
        Cursor::Grab => Interaction::Grab,
        Cursor::AllScroll => Interaction::Grab,
        Cursor::Grabbing => Interaction::Grabbing,
        Cursor::NotAllowed => Interaction::NotAllowed,
        Cursor::NoDrop => Interaction::NotAllowed,
        Cursor::ColResize => Interaction::ResizingHorizontally,
        Cursor::EwResize => Interaction::ResizingHorizontally,
        Cursor::EResize => Interaction::ResizingHorizontally,
        Cursor::WResize => Interaction::ResizingHorizontally,
        Cursor::RowResize => Interaction::ResizingVertically,
        Cursor::NsResize => Interaction::ResizingVertically,
        Cursor::NResize => Interaction::ResizingVertically,
        Cursor::SResize => Interaction::ResizingVertically,
        Cursor::ZoomIn => Interaction::ZoomIn,
        Cursor::ZoomOut => Interaction::ZoomOut,
        _ => Interaction::Idle,
    }
}

/// The pointer that stands for the one a page asks for.
pub fn cursor_to_interaction(cursor: Cursor) -> (interaction: Interaction)
    ensures
        interaction == page_interaction(cursor),
{
    match cursor {
        Cursor::Pointer => Interaction::Pointer,
        Cursor::Text | Cursor::VerticalText => Interaction::Text,
        Cursor::Crosshair | Cursor::Cell => Interaction::Crosshair,
        Cursor::Grab | Cursor::AllScroll => Interaction::Grab,
        Cursor::Grabbing => Interaction::Grabbing,
        Cursor::NotAllowed | Cursor::NoDrop => Interaction::NotAllowed,
        Cursor::ColResize | Cursor::EwResize | Cursor::EResize | Cursor::WResize => {
            Interaction::ResizingHorizontally
        },
        Cursor::RowResize | Cursor::NsResize | Cursor::NResize | Cursor::SResize => {
            Interaction::ResizingVertically
        },
        Cursor::ZoomIn => Interaction::ZoomIn,
        Cursor::ZoomOut => Interaction::ZoomOut,
        Cursor::Default | Cursor::Other => Interaction::Idle,
    }
}

/// A mouse button as Servo names it.
#[derive(Clone, Copy, Debug, PartialEq, Eq, Structural)]
pub enum ServoMouseButton {
    Left,
    Right,
    Middle,
    Back,
    Forward,
    Other(u16),
}

/// A mouse button as Servo names it.
pub open spec fn servo_button(button: Button) -> ServoMouseButton {
    match button {
        Button::Left => ServoMouseButton::Left,
        Button::Right => ServoMouseButton::Right,
        Button::Middle => ServoMouseButton::Middle,
        Button::Back => ServoMouseButton::Back,
        Button::Forward => ServoMouseButton::Forward,
        Button::Other(n) => ServoMouseButton::Other(n),
    }
}

/// A mouse button as Servo names it; it has a name for every one.
pub fn iced_button_to_servo(button: Button) -> (servo: Option<ServoMouseButton>)
    ensures
        servo == Some(servo_button(button)),
{
    match button {
        Button::Left => Some(ServoMouseButton::Left),
        Button::Right => Some(ServoMouseButton::Right),
        Button::Middle => Some(ServoMouseButton::Middle),
        Button::Back => Some(ServoMouseButton::Back),
        Button::Forward => Some(ServoMouseButton::Forward),
        Button::Other(n) => Some(ServoMouseButton::Other(n)),
    }
}

/// No two buttons are one to a page.
pub proof fn law_buttons_keep_apart(a: Button, b: Button)
    ensures
        servo_button(a) == servo_button(b) ==> a == b,
{
}

/// What a page is sent of the mouse, at the place the event is about.
#[derive(Clone, Copy, Debug, PartialEq, Eq, Structural)]
pub enum ServoMouse {
    Nothing,
    ButtonDown(ServoMouseButton),
    ButtonUp(ServoMouseButton),
    Move,
    Wheel(ScrollDelta),
}

/// What a page is sent of a mouse event.
pub open spec fn page_mouse(event: MouseEvent) -> ServoMouse {
    match event {
        MouseEvent::ButtonPressed(button) => ServoMouse::ButtonDown(servo_button(button)),
        MouseEvent::ButtonReleased(button) => ServoMouse::ButtonUp(servo_button(button)),
        MouseEvent::CursorMoved { .. } => ServoMouse::Move,
        MouseEvent::WheelScrolled { delta } => ServoMouse::Wheel(delta),
        _ => ServoMouse::Nothing,
    }
}

/// A key as a page sees it.
#[derive(Debug)]
pub enum ServoKey {
    Character(String),
    Named(Named),
}

/// A key as a page sees it, with texts for strings.
pub enum ServoKeyView {
    Character(Seq<char>),
    Named(Named),
}

impl View for ServoKey {
    type V = ServoKeyView;

    open spec fn view(&self) -> ServoKeyView {
        match self {
            ServoKey::Character(text) => ServoKeyView::Character(text@),
            ServoKey::Named(named) => ServoKeyView::Named(*named),
        }
    }
}

/// Whether a page has a name for a named key.
pub open spec fn is_sent(named: Named) -> bool {
    !(named == Named::Space || named == Named::Shift || named == Named::Control || named
        == Named::Alt || named == Named::Super || named == Named::Other)
}

/// A key as a page sees it: the space bar types a character, and keys a page
/// has no name for are not sent.
pub open spec fn page_key(key: Key) -> Option<ServoKeyView> {
    match key {
        Key::Character(text) => Some(ServoKeyView::Character(text@)),
        Key::Named(named) => if named == Named::Space {
            Some(ServoKeyView::Character(" "@))
        } else if is_sent(named) {
            Some(ServoKeyView::Named(named))
        } else {
            None
        },
        Key::Unidentified => None,
    }
}

/// A key as a page sees it.
pub fn iced_key_to_keyboard_types(key: &Key) -> (servo: Option<ServoKey>)
    ensures
        match servo {
            Some(k) => page_key(*key) == Some(k@),
            None => page_key(*key) is None,
        },
{
    match key {
        Key::Character(text) => Some(ServoKey::Character(text.clone())),
        Key::Named(named) => match named {
            Named::Space => Some(ServoKey::Character(" ".to_owned())),
            Named::Shift
            | Named::Control
            | Named::Alt
            | Named::Super
            | Named::Other => None,
            _ => Some(ServoKey::Named(*named)),
        },
        Key::Unidentified => None,
    }
}

/// A key event for a page.
#[derive(Debug)]
pub struct ServoKeyEvent {
    pub down: bool,
    pub key: ServoKey,
    pub shift: bool,
    pub control: bool,
    pub alt: bool,
    pub meta: bool,
}

/// A key event for a page, with texts for strings.
pub struct ServoKeyEventView {
    pub down: bool,
    pub key: ServoKeyView,
    pub shift: bool,
    pub control: bool,
    pub alt: bool,
    pub meta: bool,
}

impl View for ServoKeyEvent {
    type V = ServoKeyEventView;

    open spec fn view(&self) -> ServoKeyEventView {
        ServoKeyEventView {
            down: self.down,
            key: self.key@,
            shift: self.shift,
            control: self.control,
            alt: self.alt,
            meta: self.meta,
        }
    }
}

/// The event for a key with modifiers, if the page sees the key.
pub open spec fn key_event(down: bool, key: Key, modifiers: Modifiers) -> Option<ServoKeyEventView> {
    match page_key(key) {
        Some(key) => Some(
            ServoKeyEventView {
                down,
                key,
                shift: modifiers.shift,
                control: modifiers.control,
                alt: modifiers.alt,
                meta: modifiers.logo,
            },
        ),
        None => None,
    }
}

/// What a page is sent of a key event.
pub open spec fn page_key_event(event: KeyboardEvent) -> Option<ServoKeyEventView> {
    match event {
        KeyboardEvent::KeyPressed { key, modifiers, .. } => key_event(true, key, modifiers),
        KeyboardEvent::KeyReleased { key, modifiers, .. } => key_event(false, key, modifiers),
        KeyboardEvent::ModifiersChanged(_) => None,
    }
}

fn to_key_event(down: bool, key: &Key, modifiers: &Modifiers) -> (event: Option<ServoKeyEvent>)
    ensures
        match event {
            Some(e) => key_event(down, *key, *modifiers) == Some(e@),
            None => key_event(down, *key, *modifiers) is None,
        },
{
    match iced_key_to_keyboard_types(key) {
        Some(key) => Some(
            ServoKeyEvent {
                down,
                key,
                shift: modifiers.shift,
                control: modifiers.control,
                alt: modifiers.alt,
                meta: modifiers.logo,
            },
        ),
        None => None,
    }
}

/// What a page is sent of a key event.
pub fn iced_keyboard_to_servo(event: &KeyboardEvent) -> (servo: Option<ServoKeyEvent>)
    ensures
        match servo {
            Some(e) => page_key_event(*event) == Some(e@),
            None => page_key_event(*event) is None,
        },
{
    match event {
        KeyboardEvent::KeyPressed { key, modifiers, .. } => to_key_event(true, key, modifiers),
        KeyboardEvent::KeyReleased { key, modifiers, .. } => to_key_event(false, key, modifiers),
        KeyboardEvent::ModifiersChanged(_) => None,
    }
}

/// What the callbacks of a web view have reported since the last tick.
#[derive(Debug)]
pub struct DelegateState {
    pub url: Option<String>,
    pub title: Option<String>,
    pub cursor: Cursor,
    pub frame_ready: bool,
}

impl DelegateState {
    /// Nothing reported.
    pub fn new() -> (state: DelegateState)
        ensures
            state == (DelegateState {
                url: None,
                title: None,
                cursor: Cursor::Default,
                frame_ready: false,
            }),
    {
        DelegateState { url: None, title: None, cursor: Cursor::Default, frame_ready: false }
    }

    /// The address of the page changed.
    pub fn notify_url_changed(&mut self, url: String)
        ensures
            *final(self) == (DelegateState { url: Some(url), ..*old(self) }),
    {
        self.url = Some(url);
    }

    /// The title of the page changed, or it has none any more.
    pub fn notify_page_title_changed(&mut self, title: Option<String>)
        ensures
            *final(self) == (DelegateState { title, ..*old(self) }),
    {
        self.title = title;
    }

    /// The page asks for another pointer.
    pub fn notify_cursor_changed(&mut self, cursor: Cursor)
        ensures
            *final(self) == (DelegateState { cursor, ..*old(self) }),
    {
        self.cursor = cursor;
    }

    /// The page has a new frame.
    pub fn notify_new_frame_ready(&mut self)
        ensures
            *final(self) == (DelegateState { frame_ready: true, ..*old(self) }),
    {
        self.frame_ready = true;
    }
}

/// A view with its web view.
pub struct ServoView<W> {
    pub webview: W,
    pub delegate: DelegateState,
    pub url: String,
    pub title: String,
    pub cursor: Interaction,
    pub last_frame: FrameImage,
    pub needs_render: bool,
    pub size: Size,
    /// Where the mouse was last, if it was ever over the view.
    pub last_cursor: Option<Point>,
}

/// The engine.
pub struct Servo<W> {
    views: ViewList<ServoView<W>>,
    scale_factor: u32,
}

/// The state of the engine.
pub struct ServoState<W> {
    pub views: Seq<(ViewId, ServoView<W>)>,
    pub scale_factor: u32,
}

impl<W> View for Servo<W> {
    type V = ServoState<W>;

    closed spec fn view(&self) -> ServoState<W> {
        ServoState { views: self.views@, scale_factor: self.scale_factor }
    }
}

/// The address to load, if it could be parsed, in its normal form.
pub open spec fn loadable(parsed: Result<crate::util::UrlView, url::ParseError>) -> Option<
    Seq<char>,
> {
    match parsed {
        Ok(url) => Some(url.text),
        Err(_) => None,
    }
}

/// The address to load, if it could be parsed.
pub fn load_address(parsed: Result<PageUrl, url::ParseError>) -> (address: Option<String>)
    ensures
        crate::util::opt_text(address) == loadable(crate::util::url_result(parsed)),
{
    match parsed {
        Ok(url) => Some(url.text),
        Err(_) => None,
    }
}

/// The address of a page, that of its text where it is given as HTML.
pub open spec fn page_address(page: PageType) -> Seq<char> {
    match page {
        PageType::Url(url) => url@,
        PageType::Html(html) => crate::data_url::html_address(html@),
    }
}

/// The address to load for a page.
pub fn page_to_load(page: &PageType) -> (address: Option<String>)
    ensures
        crate::util::opt_text(address) == loadable(crate::util::url_parsed(page_address(*page))),
{
    match page {
        PageType::Url(url) => load_address(parse_url(url.as_str())),
        PageType::Html(html) => {
            let address: String = html_data_url(html.as_str());
            load_address(parse_url(address.as_str()))
        },
    }
}

/// The address a new view is known by until its page says otherwise.
pub open spec fn known_address(content: Option<PageType>) -> Seq<char> {
    match content {
        Some(PageType::Url(url)) => url@,
        _ => Seq::empty(),
    }
}

/// The address a new web view loads first, and the one its view is known by.
pub fn initial_page(content: &Option<PageType>) -> (page: (Option<String>, String))
    ensures
        crate::util::opt_text(page.0) == match *content {
            Some(p) => loadable(crate::util::url_parsed(page_address(p))),
            None => None,
        },
        page.1@ == known_address(*content),
{
    match content {
        Some(page) => {
            let url: String = match page {
                PageType::Url(url) => url.clone(),
                PageType::Html(_) => String::new(),
            };
            (page_to_load(page), url)
        },
        None => (None, String::new()),
    }
}

impl<W> ServoView<W> {
    /// Whether this is a view as it is opened, in a size.
    pub open spec fn is_opened(self, webview: W, url: String, size: Size) -> bool {
        &&& self.webview == webview
        &&& self.delegate == (DelegateState {
            url: None,
            title: None,
            cursor: Cursor::Default,
            frame_ready: false,
        })
        &&& self.url == url
        &&& self.title@.len() == 0
        &&& self.cursor == Interaction::Idle
        &&& self.last_frame == (FrameImage::Blank { width: size.width, height: size.height })
        &&& self.needs_render
        &&& self.size == size
        &&& self.last_cursor is None
    }

    /// Whether this is the view after it took what its web view reported.
    pub open spec fn is_drained_from(self, before: ServoView<W>) -> bool {
        &&& self.webview == before.webview
        &&& self.url == match before.delegate.url {
            Some(url) => url,
            None => before.url,
        }
        &&& self.title == match before.delegate.title {
            Some(title) => title,
            None => before.title,
        }
        &&& self.cursor == page_interaction(before.delegate.cursor)
        &&& self.last_frame == before.last_frame
        &&& self.needs_render == (before.needs_render || before.delegate.frame_ready)
        &&& self.size == before.size
        &&& self.last_cursor == before.last_cursor
        &&& self.delegate == (DelegateState {
            url: None,
            title: None,
            cursor: before.delegate.cursor,
            frame_ready: false,
        })
    }

    /// Whether a frame is to be painted and read.
    pub open spec fn captures(self) -> bool {
        self.needs_render && self.size.width > 0 && self.size.height > 0
    }

    /// The view at another size.
    pub open spec fn resized(self, size: Size) -> ServoView<W> {
        ServoView { size, needs_render: true, ..self }
    }

    /// The view to be rendered anew.
    pub open spec fn dirtied(self) -> ServoView<W> {
        ServoView { needs_render: true, ..self }
    }

    fn drain(&mut self)
        ensures
            final(self).is_drained_from(*old(self)),
    {
        match self.delegate.url.take() {
            Some(url) => {
                self.url = url;
            },
            None => {},
        }
        match self.delegate.title.take() {
            Some(title) => {
                self.title = title;
            },
            None => {},
        }
        self.cursor = cursor_to_interaction(self.delegate.cursor);
        if self.delegate.frame_ready {
            self.delegate.frame_ready = false;
            self.needs_render = true;
        }
    }
}

impl<W> Default for Servo<W> {
    fn default() -> (engine: Self)
        ensures
            engine@.views == Seq::<(ViewId, ServoView<W>)>::empty(),
            engine@.scale_factor == crate::webview::basic::SCALE_ONE,
    {
        Servo { views: ViewList::new(), scale_factor: crate::webview::basic::SCALE_ONE }
    }
}

impl<W> Servo<W> {
    /// Servo fetches pages itself.
    pub fn handles_urls(&self) -> (handles: bool)
        ensures
            handles,
    {
        true
    }

    /// The display scale.
    pub fn scale_factor(&self) -> (scale: u32)
        ensures
            scale == self@.scale_factor,
    {
        self.scale_factor
    }

    /// The number of views.
    pub fn len(&self) -> (len: usize)
        ensures
            len == self@.views.len(),
    {
        self.views.len()
    }

    /// Whether there is a view with an id.
    pub fn has_view(&self, id: ViewId) -> (has: bool)
        ensures
            has == crate::engines::views::has_id(self@.views, id),
    {
        self.views.has(id)
    }

    /// The ids of the views.
    pub fn view_ids(&self) -> (ids: Vec<ViewId>)
        ensures
            ids@ == self@.views.map_values(|entry: (ViewId, ServoView<W>)| entry.0),
    {
        self.views.ids()
    }

    /// Close a view.
    pub fn remove_view(&mut self, id: ViewId)
        ensures
            final(self)@ == (ServoState {
                views: crate::engines::views::without_id(old(self)@.views, id),
                ..old(self)@
            }),
    {
        self.views.remove(id);
    }

    /// The view with an id.
    pub fn find_view(&self, id: ViewId) -> (view: &ServoView<W>)
        requires
            crate::engines::views::has_id(self@.views, id),
        ensures
            *view == crate::engines::views::value_of(self@.views, id),
    {
        self.views.get(id)
    }

    /// The view with an id, to be changed.
    pub fn find_view_mut(&mut self, id: ViewId) -> (view: &mut ServoView<W>)
        requires
            crate::engines::views::has_id(old(self)@.views, id),
        ensures
            *view == crate::engines::views::value_of(old(self)@.views, id),
            final(self)@ == (ServoState {
                views: crate::engines::views::with_value(old(self)@.views, id, *final(view)),
                ..old(self)@
            }),
    {
        self.views.get_mut(id)
    }

    /// The web view that gains or loses the keyboard with the engine: that of
    /// the view opened last.
    pub fn focus_target(&self) -> (webview: Option<&W>)
        ensures
            match webview {
                Some(w) => self@.views.len() > 0 && *w == self@.views.last().1.webview,
                None => self@.views.len() == 0,
            },
    {
        match self.views.last() {
            Some(view) => Some(&view.webview),
            None => None,
        }
    }

    /// Open a view under an id, with a web view of at least a pixel each way.
    pub fn open_view(&mut self, id: ViewId, webview: W, url: String, size: Size)
        ensures
            final(self)@.scale_factor == old(self)@.scale_factor,
            final(self)@.views.len() == old(self)@.views.len() + 1,
            final(self)@.views.drop_last() == old(self)@.views,
            final(self)@.views.last().0 == id,
            final(self)@.views.last().1.is_opened(webview, url, size.visible()),
    {
        let size: Size = size.at_least_a_pixel();
        let view = ServoView {
            webview,
            delegate: DelegateState::new(),
            url,
            title: String::new(),
            cursor: Interaction::Idle,
            last_frame: FrameImage::Blank { width: size.width, height: size.height },
            needs_render: true,
            size,
            last_cursor: None,
        };
        self.views.push(id, view);
        assert(self@.views.drop_last() =~= old(self)@.views);
    }

    /// Open a view under an id of its own. Nothing is promised of the id, which
    /// is random; whatever it is, the view is opened under it.
    pub fn new_view(&mut self, webview: W, url: String, size: Size) -> (id: ViewId)
        ensures
            final(self)@.scale_factor == old(self)@.scale_factor,
            final(self)@.views.len() == old(self)@.views.len() + 1,
            final(self)@.views.drop_last() == old(self)@.views,
            final(self)@.views.last().0 == id,
            final(self)@.views.last().1.is_opened(webview, url, size.visible()),
    {
        let id: ViewId = random_view_id();
        self.open_view(id, webview, url, size);
        id
    }

    /// Take in what the web views reported.
    pub fn update(&mut self)
        ensures
            final(self)@.scale_factor == old(self)@.scale_factor,
            final(self)@.views.len() == old(self)@.views.len(),
            forall|k: int|
                0 <= k < final(self)@.views.len() ==> (#[trigger] final(self)@.views[k]).0 == old(
                    self,
                )@.views[k].0 && final(self)@.views[k].1.is_drained_from(old(self)@.views[k].1),
    {
        let mut i: usize = 0;
        while i < self.views.len()
            invariant
                i <= self@.views.len(),
                self@.views.len() == old(self)@.views.len(),
                self@.scale_factor == old(self)@.scale_factor,
                forall|k: int|
                    0 <= k < i ==> (#[trigger] self@.views[k]).0 == old(self)@.views[k].0
                        && self@.views[k].1.is_drained_from(old(self)@.views[k].1),
                forall|k: int|
                    i <= k < self@.views.len() ==> #[trigger] self@.views[k] == old(
                        self,
                    )@.views[k],
            decreases self@.views.len() - i,
        {
            self.views.at_mut(i).drain();
            i = i + 1;
        }
    }

    /// Render all views at another size: their web views are to be given one of
    /// at least a pixel each way, which is returned.
    pub fn resize(&mut self, size: Size) -> (physical: Size)
        ensures
            physical == size.visible(),
            final(self)@ == (ServoState {
                views: crate::engines::views::with_each(
                    old(self)@.views,
                    |v: ServoView<W>| v.resized(size),
                ),
                ..old(self)@
            }),
    {
        let mut i: usize = 0;
        while i < self.views.len()
            invariant
                i <= self@.views.len(),
                self@.views.len() == old(self)@.views.len(),
                self@.scale_factor == old(self)@.scale_factor,
                forall|k: int|
                    0 <= k < self@.views.len() ==> #[trigger] self@.views[k] == if k < i {
                        (old(self)@.views[k].0, old(self)@.views[k].1.resized(size))
                    } else {
                        old(self)@.views[k]
                    },
            decreases self@.views.len() - i,
        {
            let view = self.views.at_mut(i);
            view.size = size;
            view.needs_render = true;
            i = i + 1;
        }
        assert(self@.views =~= crate::engines::views::with_each(
            old(self)@.views,
            |v: ServoView<W>| v.resized(size),
        ));
        size.at_least_a_pixel()
    }

    /// Render all views for another display scale, unless it is the `same`:
    /// whether their web views are to be told.
    pub fn set_scale_factor(&mut self, scale: u32, same: bool) -> (changed: bool)
        ensures
            changed == !same,
            final(self)@ == if same {
                old(self)@
            } else {
                ServoState {
                    views: crate::engines::views::with_each(
                        old(self)@.views,
                        |v: ServoView<W>| v.dirtied(),
                    ),
                    scale_factor: scale,
                }
            },
    {
        if same {
            return false;
        }
        self.scale_factor = scale;
        let mut i: usize = 0;
        while i < self.views.len()
            invariant
                i <= self@.views.len(),
                self@.views.len() == old(self)@.views.len(),
                self@.scale_factor == scale,
                forall|k: int|
                    0 <= k < self@.views.len() ==> #[trigger] self@.views[k] == if k < i {
                        (old(self)@.views[k].0, old(self)@.views[k].1.dirtied())
                    } else {
                        old(self)@.views[k]
                    },
            decreases self@.views.len() - i,
        {
            self.views.at_mut(i).needs_render = true;
            i = i + 1;
        }
        assert(self@.views =~= crate::engines::views::with_each(
            old(self)@.views,
            |v: ServoView<W>| v.dirtied(),
        ));
        true
    }

    /// The size of the frame to be painted and read for a view, if one is.
    pub fn request_render(&self, id: ViewId) -> (size: Option<Size>)
        requires
            crate::engines::views::has_id(self@.views, id),
        ensures
            ({
                let view = crate::engines::views::value_of(self@.views, id);
                size == if view.captures() {
                    Some(view.size)
                } else {
                    None
                }
            }),
    {
        let view = self.views.get(id);
        if view.needs_render && view.size.width > 0 && view.size.height > 0 {
            Some(view.size)
        } else {
            None
        }
    }

    /// The frame of a view was painted. Where it could not be read the view
    /// keeps the one it has.
    pub fn captured(&mut self, id: ViewId, pixels: Option<Arc<Vec<u8>>>)
        requires
            crate::engines::views::has_id(old(self)@.views, id),
        ensures
            ({
                let view = crate::engines::views::value_of(old(self)@.views, id);
                final(self)@ == (ServoState {
                    views: crate::engines::views::with_value(
                        old(self)@.views,
                        id,
                        ServoView {
                            last_frame: match pixels {
                                Some(pixels) => FrameImage::Pixels {
                                    pixels,
                                    format: PixelFormat::Rgba,
                                    width: view.size.width,
                                    height: view.size.height,
                                },
                                None => view.last_frame,
                            },
                            needs_render: false,
                            ..view
                        },
                    ),
                    ..old(self)@
                })
            }),
    {
        let view = self.views.get_mut(id);
        match pixels {
            Some(pixels) => {
                view.last_frame = FrameImage::Pixels {
                    pixels,
                    format: PixelFormat::Rgba,
                    width: view.size.width,
                    height: view.size.height,
                };
            },
            None => {},
        }
        view.needs_render = false;
    }

    /// What the web view of a view is sent of a mouse event at a place.
    pub fn handle_mouse_event(&mut self, id: ViewId, point: Point, event: MouseEvent) -> (sent:
        ServoMouse)
        requires
            crate::engines::views::has_id(old(self)@.views, id),
        ensures
            sent == page_mouse(event),
            final(self)@ == (ServoState {
                views: crate::engines::views::with_value(
                    old(self)@.views,
                    id,
                    ServoView {
                        last_cursor: Some(point),
                        ..crate::engines::views::value_of(old(self)@.views, id)
                    },
                ),
                ..old(self)@
            }),
    {
        self.views.get_mut(id).last_cursor = Some(point);
        match event {
            MouseEvent::ButtonPressed(button) => match iced_button_to_servo(button) {
                Some(servo) => ServoMouse::ButtonDown(servo),
                None => ServoMouse::Nothing,
            },
            MouseEvent::ButtonReleased(button) => match iced_button_to_servo(button) {
                Some(servo) => ServoMouse::ButtonUp(servo),
                None => ServoMouse::Nothing,
            },
            MouseEvent::CursorMoved { .. } => ServoMouse::Move,
            MouseEvent::WheelScrolled { delta } => ServoMouse::Wheel(delta),
            MouseEvent::CursorEntered | MouseEvent::CursorLeft => ServoMouse::Nothing,
        }
    }

    /// Send a view to a page, given the address to load for it if that could be
    /// parsed: what is to be loaded. An address that is loaded is the view's
    /// from here on.
    pub fn go_to(&mut self, id: ViewId, page_type: PageType, address: Option<String>) -> (load:
        Option<String>)
        requires
            crate::engines::views::has_id(old(self)@.views, id),
        ensures
            load == address,
            final(self)@ == match page_type {
                PageType::Url(url) => if address is Some {
                    ServoState {
                        views: crate::engines::views::with_value(
                            old(self)@.views,
                            id,
                            ServoView {
                                url,
                                ..crate::engines::views::value_of(old(self)@.views, id)
                            },
                        ),
                        ..old(self)@
                    }
                } else {
                    old(self)@
                },
                PageType::Html(_) => old(self)@,
            },
    {
        match page_type {
            PageType::Url(url) => {
                if address.is_some() {
                    self.views.get_mut(id).url = url;
                }
            },
            PageType::Html(_) => {},
        }
        address
    }

    /// Send a view to a page: the address to load, if the page has one that can
    /// be parsed.
    pub fn goto(&mut self, id: ViewId, page_type: PageType) -> (load: Option<String>)
        requires
            crate::engines::views::has_id(old(self)@.views, id),
        ensures
            crate::util::opt_text(load) == loadable(
                crate::util::url_parsed(page_address(page_type)),
            ),
            final(self)@ == match page_type {
                PageType::Url(url) => if load is Some {
                    ServoState {
                        views: crate::engines::views::with_value(
                            old(self)@.views,
                            id,
                            ServoView {
                                url,
                                ..crate::engines::views::value_of(old(self)@.views, id)
                            },
                        ),
                        ..old(self)@
                    }
                } else {
                    old(self)@
                },
                PageType::Html(_) => old(self)@,
            },
    {
        let address: Option<String> = page_to_load(&page_type);
        self.go_to(id, page_type, address)
    }

    /// The address of a view: the one its web view reports, or else the one it
    /// is known by, or else that of an empty page.
    pub fn get_url(&self, id: ViewId, reported: Option<String>) -> (url: String)
        requires
            crate::engines::views::has_id(self@.views, id),
        ensures
            ({
                let known = crate::engines::views::value_of(self@.views, id).url@;
                url@ == match reported {
                    Some(reported) => reported@,
                    None => if known.len() == 0 {
                        "about:blank"@
                    } else {
                        known
                    },
                }
            }),
    {
        match reported {
            Some(url) => url,
            None => {
                let url: &String = &self.views.get(id).url;
                if url.as_str().is_empty() {
                    "about:blank".to_owned()
                } else {
                    url.clone()
                }
            },
        }
    }

    /// The title of a view: the one its web view reports, or else the one it is
    /// known by.
    pub fn get_title(&self, id: ViewId, reported: Option<String>) -> (title: String)
        requires
            crate::engines::views::has_id(self@.views, id),
        ensures
            title@ == match reported {
                Some(reported) => reported@,
                None => crate::engines::views::value_of(self@.views, id).title@,
            },
    {
        match reported {
            Some(title) => title,
            None => self.views.get(id).title.clone(),
        }
    }
}

/// What a web view reported is taken once: with nothing new, another tick
/// changes nothing.
pub proof fn law_reports_are_taken_once<W>(
    before: ServoView<W>,
    once: ServoView<W>,
    twice: ServoView<W>,
)
    requires
        once.is_drained_from(before),
        twice.is_drained_from(once),
    ensures
        twice == once,
{
}

/// A key that is pressed and released is the same key to the page both times,
/// and a page that is not sent the press is not sent the release.
pub proof fn law_release_mirrors_press(key: Key, modifiers: Modifiers)
    ensures
        match key_event(true, key, modifiers) {
            Some(down) => key_event(false, key, modifiers) == Some(
                ServoKeyEventView { down: false, ..down },
            ),
            None => key_event(false, key, modifiers) is None,
        },
{
}

/// Each pointer a page asks for has the counterpart that looks like it; where
/// there is none it is the usual one.
pub proof fn law_pointer_is_the_one_asked_for()
    ensures
        page_interaction(Cursor::Default) == Interaction::Idle,
        page_interaction(Cursor::Other) == Interaction::Idle,
        page_interaction(Cursor::Pointer) == Interaction::Pointer,
        page_interaction(Cursor::Text) == Interaction::Text,
        page_interaction(Cursor::VerticalText) == Interaction::Text,
        page_interaction(Cursor::Crosshair) == Interaction::Crosshair,
        page_interaction(Cursor::Cell) == Interaction::Crosshair,
        page_interaction(Cursor::Grab) == Interaction::Grab,
        page_interaction(Cursor::AllScroll) == Interaction::Grab,
        page_interaction(Cursor::Grabbing) == Interaction::Grabbing,
        page_interaction(Cursor::NotAllowed) == Interaction::NotAllowed,
        page_interaction(Cursor::NoDrop) == Interaction::NotAllowed,
        page_interaction(Cursor::ColResize) == Interaction::ResizingHorizontally,
        page_interaction(Cursor::EwResize) == Interaction::ResizingHorizontally,
        page_interaction(Cursor::EResize) == Interaction::ResizingHorizontally,
        page_interaction(Cursor::WResize) == Interaction::ResizingHorizontally,
        page_interaction(Cursor::RowResize) == Interaction::ResizingVertically,
        page_interaction(Cursor::NsResize) == Interaction::ResizingVertically,
        page_interaction(Cursor::NResize) == Interaction::ResizingVertically,
        page_interaction(Cursor::SResize) == Interaction::ResizingVertically,
        page_interaction(Cursor::ZoomIn) == Interaction::ZoomIn,
        page_interaction(Cursor::ZoomOut) == Interaction::ZoomOut,
{
}

/// Every mouse button is the one of its name to a page.
pub proof fn law_buttons_keep_their_names(n: u16)
    ensures
        servo_button(Button::Left) == ServoMouseButton::Left,
        servo_button(Button::Right) == ServoMouseButton::Right,
        servo_button(Button::Middle) == ServoMouseButton::Middle,
        servo_button(Button::Back) == ServoMouseButton::Back,
        servo_button(Button::Forward) == ServoMouseButton::Forward,
        servo_button(Button::Other(n)) == ServoMouseButton::Other(n),
{
}

/// A page is sent presses and releases of every button as what they are, moves,
/// and the wheel as far as it turned; it is not told of the pointer coming and
/// going.
pub proof fn law_page_hears_the_mouse(button: Button, position: Point, delta: ScrollDelta)
    ensures
        page_mouse(MouseEvent::ButtonPressed(button)) == ServoMouse::ButtonDown(
            servo_button(button),
        ),
        page_mouse(MouseEvent::ButtonReleased(button)) == ServoMouse::ButtonUp(
            servo_button(button),
        ),
        page_mouse(MouseEvent::CursorMoved { position }) == ServoMouse::Move,
        page_mouse(MouseEvent::WheelScrolled { delta }) == ServoMouse::Wheel(delta),
        page_mouse(MouseEvent::CursorEntered) == ServoMouse::Nothing,
        page_mouse(MouseEvent::CursorLeft) == ServoMouse::Nothing,
{
}

/// A key that types is the text it types, the space bar a space; a named key is
/// that key. The modifier keys themselves, and keys without a name, are not
/// sent.
pub proof fn law_page_sees_keys(text: String, named: Named)
    ensures
        page_key(Key::Character(text)) == Some(ServoKeyView::Character(text@)),
        page_key(Key::Named(Named::Space)) == Some(ServoKeyView::Character(seq![' '])),
        page_key(Key::Unidentified) is None,
        page_key(Key::Named(Named::Shift)) is None,
        page_key(Key::Named(Named::Control)) is None,
        page_key(Key::Named(Named::Alt)) is None,
        page_key(Key::Named(Named::Super)) is None,
        page_key(Key::Named(Named::Other)) is None,
        named != Named::Space && named != Named::Shift && named != Named::Control && named
            != Named::Alt && named != Named::Super && named != Named::Other ==> page_key(
            Key::Named(named),
        ) == Some(ServoKeyView::Named(named)),
{
    reveal_strlit(" ");
    assert(" "@ =~= seq![' ']);
}

/// A key event says whether the key went down, which key it is and which of the
/// modifiers are held, the logo key counting as meta. Of a key the page does
/// not see, and of modifiers alone, nothing is sent.
pub proof fn law_key_event_says_what_is_held(
    key: Key,
    modifiers: Modifiers,
    physical_key: crate::input::Physical,
    location: crate::input::Location,
    text: Option<String>,
    repeat: bool,
)
    ensures
        ({
            let press = page_key_event(
                KeyboardEvent::KeyPressed { key, physical_key, location, modifiers, text, repeat },
            );
            let release = page_key_event(
                KeyboardEvent::KeyReleased { key, physical_key, location, modifiers },
            );
            &&& press is Some <==> page_key(key) is Some
            &&& release is Some <==> page_key(key) is Some
            &&& press matches Some(event) ==> event.down && page_key(key) == Some(event.key)
                && event.shift == modifiers.shift && event.control == modifiers.control && event.alt
                == modifiers.alt && event.meta == modifiers.logo
            &&& release matches Some(event) ==> !event.down && page_key(key) == Some(event.key)
                && event.shift == modifiers.shift && event.control == modifiers.control && event.alt
                == modifiers.alt && event.meta == modifiers.logo
        }),
        page_key_event(KeyboardEvent::ModifiersChanged(modifiers)) is None,
{
}

/// What is loaded for a page is its address in its normal form, and nothing
/// where that cannot be parsed; the address of HTML is one that carries it. A
/// new view is known by the address it is given, and by none for HTML.
pub proof fn law_page_is_loaded_by_address(
    url: crate::util::UrlView,
    error: url::ParseError,
    text: String,
)
    ensures
        loadable(Ok(url)) == Some(url.text),
        loadable(Err(error)) is None,
        page_address(PageType::Url(text)) == text@,
        page_address(PageType::Html(text)) == crate::data_url::html_address(text@),
        known_address(Some(PageType::Url(text))) == text@,
        known_address(Some(PageType::Html(text))).len() == 0,
        known_address(None).len() == 0,
{
}

/// A new view has nothing reported, shows a blank image of its size and waits
/// to be rendered.
pub proof fn law_view_opens_blank<W>(view: ServoView<W>, webview: W, url: String, size: Size)
    requires
        view.is_opened(webview, url, size),
    ensures
        view.webview == webview && view.url == url && view.size == size,
        view.title@.len() == 0,
        view.cursor == Interaction::Idle,
        view.last_frame == (FrameImage::Blank { width: size.width, height: size.height }),
        view.needs_render,
        view.last_cursor is None,
        view.delegate.url is None && view.delegate.title is None && !view.delegate.frame_ready
            && view.delegate.cursor == Cursor::Default,
{
}

/// A tick takes the address, the title and the pointer that were reported, and
/// has the view rendered where a frame is ready or a render was outstanding
/// already. What was not reported stays.
pub proof fn law_tick_takes_what_was_reported<W>(before: ServoView<W>, after: ServoView<W>)
    requires
        after.is_drained_from(before),
    ensures
        before.delegate.url matches Some(url) ==> after.url == url,
        before.delegate.url is None ==> after.url == before.url,
        before.delegate.title matches Some(title) ==> after.title == title,
        before.delegate.title is None ==> after.title == before.title,
        after.cursor == page_interaction(before.delegate.cursor),
        before.delegate.frame_ready ==> after.needs_render,
        before.needs_render ==> after.needs_render,
        !before.delegate.frame_ready && !before.needs_render ==> !after.needs_render,
        after.webview == before.webview && after.last_frame == before.last_frame && after.size
            == before.size && after.last_cursor == before.last_cursor,
        after.delegate.url is None && after.delegate.title is None && !after.delegate.frame_ready
            && after.delegate.cursor == before.delegate.cursor,
{
}

/// A frame is painted exactly if a render is outstanding and the view has
/// pixels; another size changes the size and has the view rendered, another
/// scale has it rendered, and nothing else of it changes.
pub proof fn law_render_is_outstanding<W>(view: ServoView<W>, size: Size)
    ensures
        view.captures() <==> view.needs_render && view.size.width > 0 && view.size.height > 0,
        view.resized(size) == (ServoView { size, needs_render: true, ..view }),
        view.dirtied() == (ServoView { needs_render: true, ..view }),
{
}

} // verus!
