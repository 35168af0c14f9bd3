//! The state of the Blitz engine, which renders pages on the CPU.
//!
//! Blitz parses, lays out and paints documents; `D` is one. Here it is decided
//! when to parse, when to look for resources that have arrived and when to
//! paint.

use vstd::prelude::*;
use vstd::string::*;

use crate::engines::views::ViewList;
use crate::engines::{random_view_id, FrameImage, PageType, ViewId};
use crate::input::{Button, Interaction, MouseEvent, ScrollDelta, Size};

verus! {

/// How many ticks to keep looking for resources after a page was loaded. At ten
/// milliseconds a tick this gives them half a minute to arrive.
pub const RESOURCE_TICK_BUDGET: u32 = 3000;

/// The pointer a document asks for. `Other` stands for all that have no
/// counterpart here.
#[derive(Clone, Copy, Debug, PartialEq, Eq, Structural)]
pub enum CursorIcon {
    Pointer,
    Text,
    Crosshair,
    Grab,
    Grabbing,
    NotAllowed,
    NoDrop,
    ColResize,
    EwResize,
    RowResize,
    NsResize,
    ZoomIn,
    ZoomOut,
    Wait,
    Progress,
    Other,
}

/// The pointer that stands for the one a document asks for.
pub open spec fn icon_interaction(icon: CursorIcon) -> Interaction {
    match icon {
        CursorIcon::Pointer => Interaction::Pointer,
        CursorIcon::Text => Interaction::Text,
        CursorIcon::Crosshair => Interaction::Crosshair,
        CursorIcon::Grab => Interaction::Grab,
        CursorIcon::Grabbing => Interaction::Grabbing,
        CursorIcon::NotAllowed => Interaction::NotAllowed,
        CursorIcon::NoDrop => Interaction::NotAllowed,
        CursorIcon::ColResize => Interaction::ResizingHorizontally,
        CursorIcon::EwResize => Interaction::ResizingHorizontally,
        CursorIcon::RowResize => Interaction::ResizingVertically,
        CursorIcon::NsResize => Interaction::ResizingVertically,
        CursorIcon::ZoomIn => Interaction::ZoomIn,
        CursorIcon::ZoomOut => Interaction::ZoomOut,
        _ => Interaction::Idle,
    }
}

/// The pointer that stands for the one a document asks for.
pub fn cursor_icon_to_interaction(icon: CursorIcon) -> (interaction: Interaction)
    ensures
        interaction == icon_interaction(icon),
{
    match icon {
        CursorIcon::Pointer => Interaction::Pointer,
        CursorIcon::Text => Interaction::Text,
        CursorIcon::Crosshair => Interaction::Crosshair,
        CursorIcon::Grab => Interaction::Grab,
        CursorIcon::Grabbing => Interaction::Grabbing,
        CursorIcon::NotAllowed | CursorIcon::NoDrop => Interaction::NotAllowed,
        CursorIcon::ColResize | CursorIcon::EwResize => Interaction::ResizingHorizontally,
        CursorIcon::RowResize | CursorIcon::NsResize => Interaction::ResizingVertically,
        CursorIcon::ZoomIn => Interaction::ZoomIn,
        CursorIcon::ZoomOut => Interaction::ZoomOut,
        CursorIcon::Wait | CursorIcon::Progress | CursorIcon::Other => Interaction::Idle,
    }
}

/// A view with its document, once it has one.
pub struct BlitzView<D> {
    pub document: Option<D>,
    pub url: String,
    pub title: String,
    pub cursor: Interaction,
    pub last_frame: FrameImage,
    pub needs_render: bool,
    /// For how many ticks resources are still looked for.
    pub resource_ticks: u32,
    pub size: Size,
    /// The display scale, as the bits of the number.
    pub scale: u32,
}

/// The engine.
pub struct Blitz<D> {
    views: ViewList<BlitzView<D>>,
    scale_factor: u32,
}

/// The state of the engine.
pub struct BlitzState<D> {
    pub views: Seq<(ViewId, BlitzView<D>)>,
    pub scale_factor: u32,
}

impl<D> View for Blitz<D> {
    type V = BlitzState<D>;

    closed spec fn view(&self) -> BlitzState<D> {
        BlitzState { views: self.views@, scale_factor: self.scale_factor }
    }
}

/// What a view is to do about a mouse event. The document is told where its
/// place in the page is.
#[derive(Clone, Copy, Debug, PartialEq, Eq, Structural)]
pub enum DocumentMouse {
    Nothing,
    Scroll(ScrollDelta),
    PointerDown,
    PointerUp,
    /// Tell the document, then call [`Blitz::set_cursor`].
    Hover,
}

/// What a view is to do about a mouse event: only the left button counts.
pub open spec fn mouse_task(event: MouseEvent) -> DocumentMouse {
    match event {
        MouseEvent::WheelScrolled { delta } => DocumentMouse::Scroll(delta),
        MouseEvent::ButtonPressed(button) => if button == Button::Left {
            DocumentMouse::PointerDown
        } else {
            DocumentMouse::Nothing
        },
        MouseEvent::ButtonReleased(button) => if button == Button::Left {
            DocumentMouse::PointerUp
        } else {
            DocumentMouse::Nothing
        },
        MouseEvent::CursorMoved { .. } => DocumentMouse::Hover,
        _ => DocumentMouse::Nothing,
    }
}

/// The HTML a view starts with, empty where it is not given any.
pub open spec fn given_html(content: Option<PageType>) -> Seq<char> {
    match content {
        Some(PageType::Html(html)) => html@,
        _ => Seq::empty(),
    }
}

/// The address a view starts with, empty where it is not given one.
pub open spec fn given_url(content: Option<PageType>) -> Seq<char> {
    match content {
        Some(PageType::Url(url)) => url@,
        _ => Seq::empty(),
    }
}

/// Whether `create` may have made a document of a page.
pub open spec fn is_made_of<D, F: FnOnce(&str, &str, Size, u32) -> D>(
    create: F,
    html: Seq<char>,
    base: Seq<char>,
    size: Size,
    scale: u32,
    document: D,
) -> bool {
    exists|h: &str, b: &str|
        h@ == html && b@ == base && #[trigger] call_ensures(create, (h, b, size, scale), document)
}

/// Whether `create` can be called for any page.
pub open spec fn takes_any_page<D, F: FnOnce(&str, &str, Size, u32) -> D>(create: F) -> bool {
    forall|h: &str, b: &str, size: Size, scale: u32| #[trigger]
        call_requires(create, (h, b, size, scale))
}

impl<D> BlitzView<D> {
    /// Whether this is a view as it is opened with some content. Without HTML
    /// there is nothing to paint and nothing to wait for.
    pub open spec fn is_opened<F: FnOnce(&str, &str, Size, u32) -> D>(
        self,
        content: Option<PageType>,
        size: Size,
        scale: u32,
        create: F,
    ) -> bool {
        let html = given_html(content);
        &&& self.url@ == given_url(content)
        &&& self.title@.len() == 0
        &&& self.cursor == Interaction::Idle
        &&& self.size == size
        &&& self.scale == scale
        &&& self.last_frame == (FrameImage::Blank { width: size.width, height: size.height })
        &&& self.needs_render == (html.len() > 0)
        &&& self.resource_ticks == if html.len() > 0 {
            RESOURCE_TICK_BUDGET
        } else {
            0
        }
        &&& if html.len() > 0 {
            self.document matches Some(document) && is_made_of(
                create,
                html,
                given_url(content),
                size,
                scale,
                document,
            )
        } else {
            self.document is None
        }
    }

    /// The view after a tick.
    pub open spec fn ticked(self) -> BlitzView<D> {
        BlitzView {
            resource_ticks: if self.resource_ticks > 0 {
                (self.resource_ticks - 1) as u32
            } else {
                0
            },
            ..self
        }
    }

    /// Whether a tick looks for resources.
    pub open spec fn polls(self) -> bool {
        self.resource_ticks > 0 && self.document is Some
    }

    /// Whether the document is to be painted.
    pub open spec fn paints(self) -> bool {
        self.needs_render && self.size.width > 0 && self.size.height > 0 && self.document is Some
    }

    /// The view after a request to render, its document not painted yet.
    /// Without one it is blank.
    pub open spec fn requested(self) -> BlitzView<D> {
        if self.needs_render && self.size.width > 0 && self.size.height > 0 && self.document
            is None {
            BlitzView {
                last_frame: FrameImage::Blank { width: self.size.width, height: self.size.height },
                needs_render: false,
                ..self
            }
        } else {
            self
        }
    }

    /// The view at another size.
    pub open spec fn resized(self, size: Size) -> BlitzView<D> {
        BlitzView { size, needs_render: true, ..self }
    }

    /// The view for another display scale.
    pub open spec fn rescaled(self, scale: u32) -> BlitzView<D> {
        BlitzView { scale, needs_render: true, ..self }
    }
}

impl<D> Default for Blitz<D> {
    fn default() -> (engine: Self)
        ensures
            engine@.views == Seq::<(ViewId, BlitzView<D>)>::empty(),
            engine@.scale_factor == crate::webview::basic::SCALE_ONE,
    {
        Blitz { views: ViewList::new(), scale_factor: crate::webview::basic::SCALE_ONE }
    }
}

impl<D> Blitz<D> {
    /// Blitz cannot fetch the page at an address; that is left to the widget.
    pub fn handles_urls(&self) -> (handles: bool)
        ensures
            !handles,
    {
        false
    }

    /// The display scale.
    pub fn scale_factor(&self) -> (scale: u32)
        ensures
            scale == self@.scale_factor,
    {
        self.scale_factor
    }

    /// The number of views.
    pub fn len(&self) -> (len: usize)
        ensures
            len == self@.views.len(),
    {
        self.views.len()
    }

    /// Whether there is a view with an id.
    pub fn has_view(&self, id: ViewId) -> (has: bool)
        ensures
            has == crate::engines::views::has_id(self@.views, id),
    {
        self.views.has(id)
    }

    /// The ids of the views.
    pub fn view_ids(&self) -> (ids: Vec<ViewId>)
        ensures
            ids@ == self@.views.map_values(|entry: (ViewId, BlitzView<D>)| entry.0),
    {
        self.views.ids()
    }

    /// Close a view.
    pub fn remove_view(&mut self, id: ViewId)
        ensures
            final(self)@ == (BlitzState {
                views: crate::engines::views::without_id(old(self)@.views, id),
                ..old(self)@
            }),
    {
        self.views.remove(id);
    }

    /// The view with an id.
    pub fn find_view(&self, id: ViewId) -> (view: &BlitzView<D>)
        requires
            crate::engines::views::has_id(self@.views, id),
        ensures
            *view == crate::engines::views::value_of(self@.views, id),
    {
        self.views.get(id)
    }

    /// The view with an id, to be changed.
    pub fn find_view_mut(&mut self, id: ViewId) -> (view: &mut BlitzView<D>)
        requires
            crate::engines::views::has_id(old(self)@.views, id),
        ensures
            *view == crate::engines::views::value_of(old(self)@.views, id),
            final(self)@ == (BlitzState {
                views: crate::engines::views::with_value(old(self)@.views, id, *final(view)),
                ..old(self)@
            }),
    {
        self.views.get_mut(id)
    }

    /// The view at a position, to be changed.
    pub fn view_at_mut(&mut self, i: usize) -> (view: &mut BlitzView<D>)
        requires
            (i as int) < old(self)@.views.len(),
        ensures
            *view == old(self)@.views[i as int].1,
            final(self)@ == (BlitzState {
                views: old(self)@.views.update(
                    i as int,
                    (old(self)@.views[i as int].0, *final(view)),
                ),
                ..old(self)@
            }),
    {
        self.views.at_mut(i)
    }

    /// Open a view under an id. `create` makes a document of HTML, the address
    /// it is relative to, a size and a display scale.
    pub fn open_view<F: FnOnce(&str, &str, Size, u32) -> D>(
        &mut self,
        id: ViewId,
        size: Size,
        content: Option<PageType>,
        create: F,
    )
        requires
            takes_any_page(create),
        ensures
            final(self)@.scale_factor == old(self)@.scale_factor,
            final(self)@.views.len() == old(self)@.views.len() + 1,
            final(self)@.views.drop_last() == old(self)@.views,
            final(self)@.views.last().0 == id,
            final(self)@.views.last().1.is_opened(
                content,
                size.visible(),
                old(self)@.scale_factor,
                create,
            ),
    {
        let size: Size = size.at_least_a_pixel();
        let (html, url): (String, String) = match content {
            Some(PageType::Html(html)) => (html, String::new()),
            Some(PageType::Url(url)) => (String::new(), url),
            None => (String::new(), String::new()),
        };
        let has_document: bool = !html.as_str().is_empty();
        let document: Option<D> = if has_document {
            Some(create(html.as_str(), url.as_str(), size, self.scale_factor))
        } else {
            None
        };
        let view = BlitzView {
            document,
            url,
            title: String::new(),
            cursor: Interaction::Idle,
            last_frame: FrameImage::Blank { width: size.width, height: size.height },
            needs_render: has_document,
            resource_ticks: if has_document {
                RESOURCE_TICK_BUDGET
            } else {
                0
            },
            size,
            scale: self.scale_factor,
        };
        self.views.push(id, view);
        assert(self@.views.drop_last() =~= old(self)@.views);
    }

    /// Open a view under an id of its own. Nothing is promised of the id, which
    /// is random; whatever it is, the view is opened under it.
    pub fn new_view<F: FnOnce(&str, &str, Size, u32) -> D>(
        &mut self,
        size: Size,
        content: Option<PageType>,
        create: F,
    ) -> (id: ViewId)
        requires
            takes_any_page(create),
        ensures
            final(self)@.scale_factor == old(self)@.scale_factor,
            final(self)@.views.len() == old(self)@.views.len() + 1,
            final(self)@.views.drop_last() == old(self)@.views,
            final(self)@.views.last().0 == id,
            final(self)@.views.last().1.is_opened(
                content,
                size.visible(),
                old(self)@.scale_factor,
                create,
            ),
    {
        let id: ViewId = random_view_id();
        self.open_view(id, size, content, create);
        id
    }

    /// A tick for the view at a position: whether its document is to take in
    /// resources that have arrived.
    pub fn tick(&mut self, i: usize) -> (polls: bool)
        requires
            (i as int) < old(self)@.views.len(),
        ensures
            polls == old(self)@.views[i as int].1.polls(),
            final(self)@ == (BlitzState {
                views: old(self)@.views.update(
                    i as int,
                    (old(self)@.views[i as int].0, old(self)@.views[i as int].1.ticked()),
                ),
                ..old(self)@
            }),
    {
        let view = self.views.at_mut(i);
        if view.resource_ticks > 0 {
            view.resource_ticks = view.resource_ticks - 1;
            view.document.is_some()
        } else {
            false
        }
    }

    /// The document of the view at a position took in resources, which changed
    /// its layout or not.
    pub fn resolved(&mut self, i: usize, changed: bool)
        requires
            (i as int) < old(self)@.views.len(),
        ensures
            final(self)@ == (BlitzState {
                views: old(self)@.views.update(
                    i as int,
                    (
                        old(self)@.views[i as int].0,
                        BlitzView {
                            needs_render: old(self)@.views[i as int].1.needs_render || changed,
                            ..old(self)@.views[i as int].1
                        },
                    ),
                ),
                ..old(self)@
            }),
    {
        let view = self.views.at_mut(i);
        if changed {
            view.needs_render = true;
        }
    }

    /// A request to render a view: whether its document is to be painted.
    pub fn request_render(&mut self, id: ViewId) -> (paints: bool)
        requires
            crate::engines::views::has_id(old(self)@.views, id),
        ensures
            paints == crate::engines::views::value_of(old(self)@.views, id).paints(),
            final(self)@ == (BlitzState {
                views: crate::engines::views::with_value(
                    old(self)@.views,
                    id,
                    crate::engines::views::value_of(old(self)@.views, id).requested(),
                ),
                ..old(self)@
            }),
    {
        let view = self.views.get_mut(id);
        if !view.needs_render || view.size.width == 0 || view.size.height == 0 {
            return false;
        }
        if view.document.is_some() {
            return true;
        }
        view.last_frame = FrameImage::Blank { width: view.size.width, height: view.size.height };
        view.needs_render = false;
        false
    }

    /// The document of a view was painted. Where it came out without a pixel
    /// there is no image, and the view is blank.
    pub fn painted(&mut self, id: ViewId, image: Option<FrameImage>)
        requires
            crate::engines::views::has_id(old(self)@.views, id),
        ensures
            ({
                let view = crate::engines::views::value_of(old(self)@.views, id);
                final(self)@ == (BlitzState {
                    views: crate::engines::views::with_value(
                        old(self)@.views,
                        id,
                        BlitzView {
                            last_frame: match image {
                                Some(frame) => frame,
                                None => FrameImage::Blank {
                                    width: view.size.width,
                                    height: view.size.height,
                                },
                            },
                            needs_render: false,
                            ..view
                        },
                    ),
                    ..old(self)@
                })
            }),
    {
        let view = self.views.get_mut(id);
        view.last_frame = match image {
            Some(frame) => frame,
            None => FrameImage::Blank { width: view.size.width, height: view.size.height },
        };
        view.needs_render = false;
    }

    /// Lay out all views at another size: their documents are to be told.
    pub fn resize(&mut self, size: Size)
        ensures
            final(self)@ == (BlitzState {
                views: crate::engines::views::with_each(
                    old(self)@.views,
                    |v: BlitzView<D>| v.resized(size),
                ),
                ..old(self)@
            }),
    {
        let mut i: usize = 0;
        while i < self.views.len()
            invariant
                i <= self@.views.len(),
                self@.views.len() == old(self)@.views.len(),
                self@.scale_factor == old(self)@.scale_factor,
                forall|k: int|
                    0 <= k < self@.views.len() ==> #[trigger] self@.views[k] == if k < i {
                        (old(self)@.views[k].0, old(self)@.views[k].1.resized(size))
                    } else {
                        old(self)@.views[k]
                    },
            decreases self@.views.len() - i,
        {
            let view = self.views.at_mut(i);
            view.size = size;
            view.needs_render = true;
            i = i + 1;
        }
        assert(self@.views =~= crate::engines::views::with_each(
            old(self)@.views,
            |v: BlitzView<D>| v.resized(size),
        ));
    }

    /// Lay out all views for another display scale, unless it is the `same`:
    /// whether their documents are to be told.
    pub fn set_scale_factor(&mut self, scale: u32, same: bool) -> (changed: bool)
        ensures
            changed == !same,
            final(self)@ == if same {
                old(self)@
            } else {
                BlitzState {
                    views: crate::engines::views::with_each(
                        old(self)@.views,
                        |v: BlitzView<D>| v.rescaled(scale),
                    ),
                    scale_factor: scale,
                }
            },
    {
        if same {
            return false;
        }
        self.scale_factor = scale;
        let mut i: usize = 0;
        while i < self.views.len()
            invariant
                i <= self@.views.len(),
                self@.views.len() == old(self)@.views.len(),
                self@.scale_factor == scale,
                forall|k: int|
                    0 <= k < self@.views.len() ==> #[trigger] self@.views[k] == if k < i {
                        (old(self)@.views[k].0, old(self)@.views[k].1.rescaled(scale))
                    } else {
                        old(self)@.views[k]
                    },
            decreases self@.views.len() - i,
        {
            let view = self.views.at_mut(i);
            view.scale = scale;
            view.needs_render = true;
            i = i + 1;
        }
        assert(self@.views =~= crate::engines::views::with_each(
            old(self)@.views,
            |v: BlitzView<D>| v.rescaled(scale),
        ));
        true
    }

    /// What a view is to do about a mouse event. Once the pointer left it is
    /// the usual one.
    pub fn handle_mouse_event(&mut self, id: ViewId, event: MouseEvent) -> (task: DocumentMouse)
        requires
            event == MouseEvent::CursorLeft ==> crate::engines::views::has_id(
                old(self)@.views,
                id,
            ),
        ensures
            task == mouse_task(event),
            final(self)@ == if event == MouseEvent::CursorLeft {
                BlitzState {
                    views: crate::engines::views::with_value(
                        old(self)@.views,
                        id,
                        BlitzView {
                            cursor: Interaction::Idle,
                            ..crate::engines::views::value_of(old(self)@.views, id)
                        },
                    ),
                    ..old(self)@
                }
            } else {
                old(self)@
            },
    {
        match event {
            MouseEvent::WheelScrolled { delta } => DocumentMouse::Scroll(delta),
            MouseEvent::ButtonPressed(button) => {
                if button == Button::Left {
                    DocumentMouse::PointerDown
                } else {
                    DocumentMouse::Nothing
                }
            },
            MouseEvent::ButtonReleased(button) => {
                if button == Button::Left {
                    DocumentMouse::PointerUp
                } else {
                    DocumentMouse::Nothing
                }
            },
            MouseEvent::CursorMoved { .. } => DocumentMouse::Hover,
            MouseEvent::CursorLeft => {
                self.views.get_mut(id).cursor = Interaction::Idle;
                DocumentMouse::Nothing
            },
            MouseEvent::CursorEntered => DocumentMouse::Nothing,
        }
    }

    /// The pointer moved over a document. It shows what the document asks for,
    /// or else what was asked for last.
    pub fn set_cursor(&mut self, id: ViewId, document: Option<CursorIcon>, shell: CursorIcon)
        requires
            crate::engines::views::has_id(old(self)@.views, id),
        ensures
            final(self)@ == (BlitzState {
                views: crate::engines::views::with_value(
                    old(self)@.views,
                    id,
                    BlitzView {
                        cursor: icon_interaction(
                            match document {
                                Some(icon) => icon,
                                None => shell,
                            },
                        ),
                        ..crate::engines::views::value_of(old(self)@.views, id)
                    },
                ),
                ..old(self)@
            }),
    {
        let icon: CursorIcon = match document {
            Some(icon) => icon,
            None => shell,
        };
        self.views.get_mut(id).cursor = cursor_icon_to_interaction(icon);
    }

    /// Send a view to a page. HTML becomes its document, relative to its
    /// address; an address is only taken note of, the page having to be fetched
    /// first. Whether the view is to scroll back to the top.
    pub fn goto<F: FnOnce(&str, &str, Size, u32) -> D>(
        &mut self,
        id: ViewId,
        page_type: PageType,
        create: F,
    ) -> (to_top: bool)
        requires
            crate::engines::views::has_id(old(self)@.views, id),
            takes_any_page(create),
        ensures
            to_top == (page_type is Html),
            final(self)@.scale_factor == old(self)@.scale_factor,
            ({
                let before = crate::engines::views::value_of(old(self)@.views, id);
                match page_type {
                    PageType::Url(url) => final(self)@.views == crate::engines::views::with_value(
                        old(self)@.views,
                        id,
                        BlitzView { url, ..before },
                    ),
                    PageType::Html(html) => exists|document: D|
                        {
                            &&& #[trigger] is_made_of(
                                create,
                                html@,
                                before.url@,
                                before.size,
                                before.scale,
                                document,
                            )
                            &&& final(self)@.views == crate::engines::views::with_value(
                                old(self)@.views,
                                id,
                                BlitzView {
                                    document: Some(document),
                                    needs_render: true,
                                    resource_ticks: RESOURCE_TICK_BUDGET,
                                    ..before
                                },
                            )
                        },
                }
            }),
    {
        let view = self.views.get_mut(id);
        match page_type {
            PageType::Url(url) => {
                view.url = url;
                false
            },
            PageType::Html(html) => {
                let document: D = create(html.as_str(), view.url.as_str(), view.size, view.scale);
                assert(is_made_of(create, html@, view.url@, view.size, view.scale, document));
                view.document = Some(document);
                view.needs_render = true;
                view.resource_ticks = RESOURCE_TICK_BUDGET;
                true
            },
        }
    }

    /// Render a view anew: its document, if it has one, is to be laid out.
    pub fn refresh(&mut self, id: ViewId)
        requires
            crate::engines::views::has_id(old(self)@.views, id),
        ensures
            final(self)@ == (BlitzState {
                views: crate::engines::views::with_value(
                    old(self)@.views,
                    id,
                    BlitzView {
                        needs_render: true,
                        ..crate::engines::views::value_of(old(self)@.views, id)
                    },
                ),
                ..old(self)@
            }),
    {
        self.views.get_mut(id).needs_render = true;
    }

    /// The address of a view, that of an empty page where it has none.
    pub fn get_url(&self, id: ViewId) -> (url: String)
        requires
            crate::engines::views::has_id(self@.views, id),
        ensures
            ({
                let known = crate::engines::views::value_of(self@.views, id).url@;
                url@ == if known.len() == 0 {
                    "about:blank"@
                } else {
                    known
                }
            }),
    {
        let url: &String = &self.views.get(id).url;
        if url.as_str().is_empty() {
            "about:blank".to_owned()
        } else {
            url.clone()
        }
    }
}

/// A view after some ticks.
pub open spec fn ticked_often<D>(view: BlitzView<D>, ticks: nat) -> BlitzView<D>
    decreases ticks,
{
    if ticks == 0 {
        view
    } else {
        ticked_often(view, (ticks - 1) as nat).ticked()
    }
}

/// Resources are looked for in every tick after a page was loaded until the
/// budget is spent, and in none after that.
pub proof fn law_polling_ends_with_budget<D>(view: BlitzView<D>, ticks: nat)
    requires
        view.document is Some,
    ensures
        ticked_often(view, ticks).document == view.document,
        ticked_often(view, ticks).resource_ticks == if ticks < view.resource_ticks {
            view.resource_ticks - ticks
        } else {
            0
        },
        ticked_often(view, ticks).polls() <==> ticks < view.resource_ticks,
    decreases ticks,
{
    if ticks > 0 {
        law_polling_ends_with_budget(view, (ticks - 1) as nat);
    }
}

/// A view is painted once for each reason to paint it: after it was painted a
/// request does nothing, until it is resized, rescaled or loaded anew.
pub proof fn law_view_is_painted_once<D>(view: BlitzView<D>, size: Size, scale: u32)
    requires
        !view.needs_render,
        view.document is Some,
        size.width > 0,
        size.height > 0,
    ensures
        !view.paints(),
        view.requested() == view,
        view.resized(size).paints(),
        view.resized(size).rescaled(scale).paints(),
{
}

/// Each pointer a document asks for has the counterpart that looks like it;
/// where there is none, and while something is going on, it is the usual one.
pub proof fn law_pointer_is_the_one_asked_for()
    ensures
        icon_interaction(CursorIcon::Pointer) == Interaction::Pointer,
        icon_interaction(CursorIcon::Text) == Interaction::Text,
        icon_interaction(CursorIcon::Crosshair) == Interaction::Crosshair,
        icon_interaction(CursorIcon::Grab) == Interaction::Grab,
        icon_interaction(CursorIcon::Grabbing) == Interaction::Grabbing,
        icon_interaction(CursorIcon::NotAllowed) == Interaction::NotAllowed,
        icon_interaction(CursorIcon::NoDrop) == Interaction::NotAllowed,
        icon_interaction(CursorIcon::ColResize) == Interaction::ResizingHorizontally,
        icon_interaction(CursorIcon::EwResize) == Interaction::ResizingHorizontally,
        icon_interaction(CursorIcon::RowResize) == Interaction::ResizingVertically,
        icon_interaction(CursorIcon::NsResize) == Interaction::ResizingVertically,
        icon_interaction(CursorIcon::ZoomIn) == Interaction::ZoomIn,
        icon_interaction(CursorIcon::ZoomOut) == Interaction::ZoomOut,
        icon_interaction(CursorIcon::Wait) == Interaction::Idle,
        icon_interaction(CursorIcon::Progress) == Interaction::Idle,
        icon_interaction(CursorIcon::Other) == Interaction::Idle,
{
}

/// A document is told of the left button going down and up, of the wheel as far
/// as it turned, and of the pointer moving over it; of no other button, and not
/// of the pointer coming and going.
pub proof fn law_document_hears_left_button(
    button: Button,
    delta: ScrollDelta,
    position: crate::input::Point,
)
    ensures
        mouse_task(MouseEvent::ButtonPressed(Button::Left)) == DocumentMouse::PointerDown,
        mouse_task(MouseEvent::ButtonReleased(Button::Left)) == DocumentMouse::PointerUp,
        button != Button::Left ==> mouse_task(MouseEvent::ButtonPressed(button))
            == DocumentMouse::Nothing,
        button != Button::Left ==> mouse_task(MouseEvent::ButtonReleased(button))
            == DocumentMouse::Nothing,
        mouse_task(MouseEvent::WheelScrolled { delta }) == DocumentMouse::Scroll(delta),
        mouse_task(MouseEvent::CursorMoved { position }) == DocumentMouse::Hover,
        mouse_task(MouseEvent::CursorEntered) == DocumentMouse::Nothing,
        mouse_task(MouseEvent::CursorLeft) == DocumentMouse::Nothing,
{
}

/// Content is HTML or an address: the one it is is what a view starts with, and
/// the other is empty. Without content both are.
pub proof fn law_content_is_html_or_address(text: String)
    ensures
        given_html(Some(PageType::Html(text))) == text@,
        given_url(Some(PageType::Html(text))).len() == 0,
        given_url(Some(PageType::Url(text))) == text@,
        given_html(Some(PageType::Url(text))).len() == 0,
        given_html(None).len() == 0,
        given_url(None).len() == 0,
{
}

/// A view opened with HTML has the document made of it, waits to be painted,
/// and looks for resources for three thousand ticks. One opened with an address
/// or with nothing has no document, nothing to paint and nothing to look for,
/// but knows its address. Either shows a blank image of its size.
pub proof fn law_view_opens_with_its_content<D, F: FnOnce(&str, &str, Size, u32) -> D>(
    view: BlitzView<D>,
    content: Option<PageType>,
    size: Size,
    scale: u32,
    create: F,
)
    requires
        view.is_opened(content, size, scale, create),
    ensures
        view.size == size && view.scale == scale,
        view.title@.len() == 0,
        view.cursor == Interaction::Idle,
        view.last_frame == (FrameImage::Blank { width: size.width, height: size.height }),
        (match content {
            Some(PageType::Html(html)) => {
                &&& view.url@.len() == 0
                &&& html@.len() > 0 ==> view.needs_render && view.resource_ticks == 3000
                    && view.document is Some && is_made_of(
                    create,
                    html@,
                    Seq::empty(),
                    size,
                    scale,
                    view.document->0,
                )
                &&& html@.len() == 0 ==> !view.needs_render && view.resource_ticks == 0
                    && view.document is None
            },
            Some(PageType::Url(url)) => {
                &&& view.url@ == url@
                &&& !view.needs_render && view.resource_ticks == 0 && view.document is None
            },
            None => {
                &&& view.url@.len() == 0
                &&& !view.needs_render && view.resource_ticks == 0 && view.document is None
            },
        }),
{
}

/// A tick uses up one tick of the budget and nothing else of a view; without a
/// document nothing is looked for.
pub proof fn law_tick_uses_budget<D>(view: BlitzView<D>)
    ensures
        view.resource_ticks > 0 ==> view.ticked() == (BlitzView {
            resource_ticks: (view.resource_ticks - 1) as u32,
            ..view
        }),
        view.resource_ticks == 0 ==> view.ticked() == view,
        view.polls() <==> view.document is Some && view.resource_ticks > 0,
        RESOURCE_TICK_BUDGET == 3000,
{
}

/// A document is painted exactly if a render is outstanding and the view has
/// pixels; a view without a document is blank in its size instead, and the
/// render is no longer outstanding.
pub proof fn law_request_paints_or_blanks<D>(view: BlitzView<D>)
    ensures
        ({
            let due = view.needs_render && view.size.width > 0 && view.size.height > 0;
            &&& view.paints() <==> due && view.document is Some
            &&& due && view.document is None ==> view.requested() == (BlitzView {
                last_frame: FrameImage::Blank { width: view.size.width, height: view.size.height },
                needs_render: false,
                ..view
            })
            &&& !(due && view.document is None) ==> view.requested() == view
        }),
{
}

/// Another size or scale changes that and has the view rendered; nothing else
/// changes.
pub proof fn law_new_size_or_scale_renders<D>(view: BlitzView<D>, size: Size, scale: u32)
    ensures
        view.resized(size) == (BlitzView { size, needs_render: true, ..view }),
        view.rescaled(scale) == (BlitzView { scale, needs_render: true, ..view }),
{
}

} // verus!
