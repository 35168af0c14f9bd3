//! The basic web view: a list of views of which one is current.
//!
//! An action is carried out in steps. [`WebView::update`] decides what the
//! engine and the host are to be told, as a list of [`Effect`]s. Where an
//! effect has an answer (the id of a new view, a link that was clicked, images
//! that a page needs) the answer comes back through one of the other methods.

use std::collections::HashMap;

use vstd::prelude::*;
use vstd::string::*;

use crate::engines::{PageType, ViewId};
use crate::input::{Event, Interaction, KeyboardEvent, Modifiers, MouseEvent, Point, Size};
use crate::util::{is_same_page, resolve_url, PageUrl};

verus! {

/// What a basic web view can be asked to do.
#[derive(Debug, PartialEq)]
pub enum Action {
    /// Changes view to the desired view index.
    ChangeView(u32),
    /// Closes the current view and makes the last used view the current one.
    CloseCurrentView,
    /// Closes a specific view index.
    CloseView(u32),
    /// Creates a new view, behind all others, and makes it the current one.
    CreateView(PageType),
    GoBackward,
    GoForward,
    GoToUrl(PageUrl),
    Refresh,
    SendKeyboardEvent(KeyboardEvent),
    SendMouseEvent(MouseEvent, Point, Modifiers),
    /// The view has gained the keyboard.
    Focus,
    /// The view has lost the keyboard.
    Unfocus,
    /// Lets the engine process what has happened since the last time.
    Update,
    Resize(Size),
    /// Copy the current text selection to the clipboard.
    CopySelection,
    /// The result of fetching a page, for engines that do not fetch: its HTML
    /// with the style sheets it uses, or an error.
    FetchComplete(ViewId, String, Result<(String, Vec<(String, String)>), String>),
    /// The result of fetching an image: its bytes or an error, whether it can
    /// be shown without a new layout, and the navigation it was fetched for.
    ImageFetchComplete(ViewId, String, Result<Vec<u8>, String>, bool, u64),
}

/// Whether one action is a copy of another: they agree in everything, lists by
/// what they hold.
pub open spec fn is_copy(action: Action, copy: Action) -> bool {
    match action {
        Action::FetchComplete(id, url, Ok(page)) => {
            copy matches Action::FetchComplete(i, u, Ok(p)) && i == id && u == url && p.0 == page.0
                && p.1@ == page.1@
        },
        Action::ImageFetchComplete(id, src, Ok(bytes), redraw, epoch) => {
            copy matches Action::ImageFetchComplete(i, s, Ok(b), r, e) && i == id && s == src && b@
                == bytes@ && r == redraw && e == epoch
        },
        _ => copy == action,
    }
}

fn copy_sheets(sheets: &Vec<(String, String)>) -> (copy: Vec<(String, String)>)
    ensures
        copy@ == sheets@,
{
    let mut copy: Vec<(String, String)> = Vec::new();
    let mut i: usize = 0;
    while i < sheets.len()
        invariant
            i <= sheets@.len(),
            copy@ == sheets@.take(i as int),
        decreases sheets@.len() - i,
    {
        copy.push((sheets[i].0.clone(), sheets[i].1.clone()));
        assert(copy@ =~= sheets@.take(i + 1));
        i = i + 1;
    }
    assert(sheets@.take(sheets@.len() as int) =~= sheets@);
    copy
}

impl Clone for Action {
    fn clone(&self) -> (copy: Action)
        ensures
            is_copy(*self, copy),
    {
        match self {
            Action::ChangeView(index) => Action::ChangeView(*index),
            Action::CloseCurrentView => Action::CloseCurrentView,
            Action::CloseView(index) => Action::CloseView(*index),
            Action::CreateView(page) => Action::CreateView(page.clone()),
            Action::GoBackward => Action::GoBackward,
            Action::GoForward => Action::GoForward,
            Action::GoToUrl(url) => Action::GoToUrl(url.clone()),
            Action::Refresh => Action::Refresh,
            Action::SendKeyboardEvent(event) => Action::SendKeyboardEvent(event.clone()),
            Action::SendMouseEvent(event, point, modifiers) => {
                Action::SendMouseEvent(*event, *point, *modifiers)
            },
            Action::Focus => Action::Focus,
            Action::Unfocus => Action::Unfocus,
            Action::Update => Action::Update,
            Action::Resize(size) => Action::Resize(*size),
            Action::CopySelection => Action::CopySelection,
            Action::FetchComplete(id, url, result) => {
                let result = match result {
                    Ok(page) => Ok((page.0.clone(), copy_sheets(&page.1))),
                    Err(error) => Err(error.clone()),
                };
                Action::FetchComplete(*id, url.clone(), result)
            },
            Action::ImageFetchComplete(id, src, result, redraw, epoch) => {
                let result = match result {
                    Ok(bytes) => Ok(crate::path::copy_bytes(bytes.as_slice())),
                    Err(error) => Err(error.clone()),
                };
                Action::ImageFetchComplete(*id, src.clone(), result, *redraw, *epoch)
            },
        }
    }
}

/// What the engine or the host is to be told.
#[derive(Debug)]
pub enum Effect {
    /// Tell the host that the address of the current view changed.
    PublishUrl(String),
    /// Tell the host that the title of the current view changed.
    PublishTitle(String),
    /// Tell the host that a view was closed.
    PublishClosed,
    /// Tell the host that a view was created.
    PublishCreated,
    /// Tell the host what text was copied.
    PublishCopied(String),
    RequestRender(ViewId, Size),
    RemoveView(ViewId),
    /// Create a view and hand its id to [`WebView::view_created`].
    NewView(Size, Option<PageType>),
    Goto(ViewId, PageType),
    /// Fetch the page at an address and report it with
    /// [`Action::FetchComplete`].
    FetchPage(ViewId, String),
    GoBack(ViewId),
    GoForward(ViewId),
    Refresh(ViewId),
    Keyboard(ViewId, KeyboardEvent),
    Mouse(ViewId, Point, MouseEvent, Modifiers),
    /// Ask the engine for a clicked link and hand it to
    /// [`WebView::anchor_clicked`].
    TakeAnchorClick(ViewId),
    ScrollToFragment(ViewId, String),
    FocusEngine,
    UnfocusEngine,
    /// Pick up the display scale that was detected while drawing.
    ApplyDetectedScale,
    SetScaleFactor(u32),
    UpdateEngine,
    FlushStagedImages(ViewId, Size),
    /// Ask the engine for images that pages need and hand them to
    /// [`WebView::images_pending`].
    TakePendingImages,
    ResizeEngine(Size),
    SetCssCache(ViewId, Vec<(String, String)>),
    LoadImage(ViewId, String, Vec<u8>, bool),
}

/// What the host wants to hear about.
#[derive(Clone, Copy, Debug, PartialEq, Eq, Structural)]
pub struct Subscriptions {
    pub create_view: bool,
    pub close_view: bool,
    pub url_change: bool,
    pub title_change: bool,
    pub copy: bool,
    /// Whether results of fetches can be routed back as actions.
    pub action: bool,
}

/// What the engine says when an action arrives: the address, the title and the
/// selection of the current view, and whether the view that the action names
/// still exists.
#[derive(Debug)]
pub struct Seen {
    pub url: String,
    pub title: String,
    pub selected_text: Option<String>,
    pub has_view: bool,
}

/// The basic web view.
pub struct WebView {
    view_size: Size,
    scale_factor: u32,
    current_view_index: Option<usize>,
    view_ids: Vec<ViewId>,
    used: Vec<ViewId>,
    subscriptions: Subscriptions,
    url: String,
    title: String,
    inflight_images: usize,
    nav_epochs: HashMap<ViewId, u64>,
    handles_urls: bool,
    fetches: bool,
    creating: Option<Option<String>>,
}

/// The state of a web view.
#[verifier::ext_equal]
pub struct WebViewState {
    /// The size of the views, in pixels.
    pub view_size: Size,
    /// The display scale, as the bits of the number.
    pub scale_factor: u32,
    /// The position of the current view among the open ones.
    pub current: Option<int>,
    /// The open views, by position.
    pub ids: Seq<ViewId>,
    /// The open views, the last used one last.
    pub used: Seq<ViewId>,
    pub subscriptions: Subscriptions,
    /// The address and the title the host was last told.
    pub url: Seq<char>,
    pub title: Seq<char>,
    /// The number of images that are being fetched.
    pub inflight: int,
    /// How often each view was sent to another address, where it ever was.
    pub epochs: Map<ViewId, u64>,
    /// Whether the engine fetches pages itself.
    pub handles_urls: bool,
    /// Whether this build can fetch pages and images for the engine.
    pub fetches: bool,
    /// Whether a view is being created, and where it is to go afterwards.
    pub creating: Option<Option<String>>,
}

impl View for WebView {
    type V = WebViewState;

    closed spec fn view(&self) -> WebViewState {
        WebViewState {
            view_size: self.view_size,
            scale_factor: self.scale_factor,
            current: match self.current_view_index {
                Some(i) => Some(i as int),
                None => None,
            },
            ids: self.view_ids@,
            used: self.used@,
            subscriptions: self.subscriptions,
            url: self.url@,
            title: self.title@,
            inflight: self.inflight_images as int,
            epochs: self.nav_epochs@,
            handles_urls: self.handles_urls,
            fetches: self.fetches,
            creating: self.creating,
        }
    }
}

/// The list without an id.
pub open spec fn without(ids: Seq<ViewId>, id: ViewId) -> Seq<ViewId>
    decreases ids.len(),
{
    if ids.len() == 0 {
        Seq::empty()
    } else {
        let before = without(ids.drop_last(), id);
        if ids.last() == id {
            before
        } else {
            before.push(ids.last())
        }
    }
}

/// The first position of an id in a list, or the length of the list.
pub open spec fn position_of(ids: Seq<ViewId>, id: ViewId) -> int
    decreases ids.len(),
{
    if ids.len() == 0 {
        0
    } else if ids.first() == id {
        0
    } else {
        1 + position_of(ids.drop_first(), id)
    }
}

/// The bits of the scale factor one.
pub const SCALE_ONE: u32 = 0x3f80_0000;

impl WebViewState {
    /// No view is open and the host wants to hear of nothing.
    pub open spec fn at_start(handles_urls: bool, fetches: bool) -> WebViewState {
        WebViewState {
            view_size: Size { width: 1920, height: 1080 },
            scale_factor: SCALE_ONE,
            current: None,
            ids: Seq::empty(),
            used: Seq::empty(),
            subscriptions: Subscriptions {
                create_view: false,
                close_view: false,
                url_change: false,
                title_change: false,
                copy: false,
                action: false,
            },
            url: Seq::empty(),
            title: Seq::empty(),
            inflight: 0,
            epochs: Map::empty(),
            handles_urls,
            fetches,
            creating: None,
        }
    }

    /// The current view is one of the open ones, the open views are those whose
    /// use is remembered, and a new view is only sent somewhere afterwards where
    /// the engine does not fetch pages itself.
    pub open spec fn is_valid(self) -> bool {
        &&& self.current matches Some(i) ==> 0 <= i < self.ids.len()
        &&& forall|id: ViewId| #[trigger] self.ids.contains(id) <==> self.used.contains(id)
        &&& self.creating matches Some(Some(_)) ==> !self.handles_urls
    }

    /// The id of the current view.
    pub open spec fn current_id(self) -> ViewId
        recommends
            self.current is Some,
    {
        self.ids[self.current->0]
    }

    /// The navigation a view is in.
    pub open spec fn epoch(self, id: ViewId) -> u64 {
        if self.epochs.dom().contains(id) {
            self.epochs[id]
        } else {
            0
        }
    }

    /// The host having been told the address and the title.
    pub open spec fn synced(self, seen: Seen) -> WebViewState {
        WebViewState {
            url: if self.current is Some && self.subscriptions.url_change {
                seen.url@
            } else {
                self.url
            },
            title: if self.current is Some && self.subscriptions.title_change {
                seen.title@
            } else {
                self.title
            },
            ..self
        }
    }

    /// What the host is told first: a changed address, then a changed title.
    pub open spec fn sync_effects(self, seen: Seen) -> Seq<Effect> {
        (if self.current is Some && self.subscriptions.url_change && self.url != seen.url@ {
            seq![Effect::PublishUrl(seen.url)]
        } else {
            Seq::empty()
        }) + (if self.current is Some && self.subscriptions.title_change && self.title
            != seen.title@ {
            seq![Effect::PublishTitle(seen.title)]
        } else {
            Seq::empty()
        })
    }

    /// A view having become the current one by being chosen.
    pub open spec fn switched_to(self, index: int) -> WebViewState {
        WebViewState {
            current: Some(index),
            used: without(self.used, self.ids[index]).push(self.ids[index]),
            ..self
        }
    }

    /// The view at a position having been closed, whichever is current.
    pub open spec fn closed(self, index: int) -> WebViewState {
        let ids = self.ids.remove(index);
        WebViewState {
            ids,
            used: if ids.contains(self.ids[index]) {
                self.used
            } else {
                without(self.used, self.ids[index])
            },
            ..self
        }
    }

    /// The last used view having become the current one, if any is open.
    pub open spec fn fallen_back(self) -> WebViewState {
        WebViewState {
            current: if self.used.len() == 0 {
                None
            } else {
                Some(position_of(self.ids, self.used.last()))
            },
            ..self
        }
    }

    /// Whether an action can be carried out.
    pub open spec fn allows(self, action: Action) -> bool {
        &&& self.creating is None
        &&& match action {
            Action::ChangeView(index) => (index as int) < self.ids.len(),
            Action::CloseView(index) => {
                &&& (index as int) < self.ids.len()
                &&& self.current matches Some(i) ==> i < self.ids.len() - 1
            },
            Action::CloseCurrentView => self.current is Some,
            Action::GoBackward => self.current is Some,
            Action::GoForward => self.current is Some,
            Action::GoToUrl(_) => self.current is Some,
            Action::Refresh => self.current is Some,
            Action::SendKeyboardEvent(_) => self.current is Some,
            Action::SendMouseEvent(..) => self.current is Some,
            _ => true,
        }
    }

    /// What an action does to the state.
    pub open spec fn after(self, action: Action) -> WebViewState {
        match action {
            Action::ChangeView(index) => self.switched_to(index as int),
            Action::CloseCurrentView => self.closed(self.current->0).fallen_back(),
            Action::CloseView(index) => self.closed(index as int),
            Action::CreateView(page) => WebViewState {
                creating: match page {
                    PageType::Url(url) => if self.handles_urls {
                        Some(None)
                    } else {
                        Some(Some(url))
                    },
                    PageType::Html(_) => Some(None),
                },
                ..self
            },
            Action::GoToUrl(_) => WebViewState {
                inflight: 0,
                epochs: self.epochs.insert(
                    self.current_id(),
                    vstd::wrapping::u64_specs::wrapping_add(self.epoch(self.current_id()), 1),
                ),
                ..self
            },
            Action::Resize(size) => WebViewState { view_size: size, ..self },
            Action::ImageFetchComplete(..) => WebViewState {
                inflight: if self.inflight > 0 {
                    self.inflight - 1
                } else {
                    0
                },
                ..self
            },
            _ => self,
        }
    }

    /// What an action makes the engine and the host be told, apart from the
    /// page that stands for a failed fetch.
    pub open spec fn action_effects(self, action: Action, seen: Seen) -> Seq<Effect> {
        match action {
            Action::ChangeView(index) => seq![
                Effect::RequestRender(self.ids[index as int], self.view_size),
            ],
            Action::CloseCurrentView => seq![Effect::RemoveView(self.current_id())]
                + self.close_notice(),
            Action::CloseView(index) => seq![Effect::RemoveView(self.ids[index as int])]
                + self.close_notice(),
            Action::CreateView(page) => seq![
                Effect::NewView(
                    self.view_size,
                    if page is Url && !self.handles_urls {
                        None
                    } else {
                        Some(page)
                    },
                ),
            ],
            Action::GoBackward => seq![Effect::GoBack(self.current_id())],
            Action::GoForward => seq![Effect::GoForward(self.current_id())],
            Action::GoToUrl(url) => seq![
                Effect::Goto(self.current_id(), PageType::Url(url.text)),
            ] + self.page_fetch(self.current_id(), url.text),
            Action::Refresh => seq![Effect::Refresh(self.current_id())],
            Action::SendKeyboardEvent(event) => seq![Effect::Keyboard(self.current_id(), event)],
            Action::SendMouseEvent(event, point, modifiers) => seq![
                Effect::Mouse(self.current_id(), point, event, modifiers),
                Effect::TakeAnchorClick(self.current_id()),
            ],
            Action::Focus => seq![Effect::FocusEngine],
            Action::Unfocus => seq![Effect::UnfocusEngine],
            Action::Update => self.update_effects(),
            Action::Resize(size) => if size != self.view_size {
                seq![Effect::ResizeEngine(size)]
            } else {
                Seq::empty()
            },
            Action::CopySelection => match seen.selected_text {
                Some(text) => if self.current is Some && self.subscriptions.copy {
                    seq![Effect::PublishCopied(text)]
                } else {
                    Seq::empty()
                },
                None => Seq::empty(),
            },
            Action::FetchComplete(id, _, result) => match result {
                Ok(page) => if seen.has_view {
                    seq![
                        Effect::SetCssCache(id, page.1),
                        Effect::Goto(id, PageType::Html(page.0)),
                    ]
                } else {
                    Seq::empty()
                },
                Err(_) => Seq::empty(),
            },
            Action::ImageFetchComplete(id, src, result, redraw, epoch) => match result {
                Ok(bytes) => if epoch == self.epoch(id) && seen.has_view {
                    seq![Effect::LoadImage(id, src, bytes, redraw)]
                } else {
                    Seq::empty()
                },
                Err(_) => Seq::empty(),
            },
        }
    }

    /// The notice that a view was closed, where the host wants it.
    pub open spec fn close_notice(self) -> Seq<Effect> {
        if self.subscriptions.close_view {
            seq![Effect::PublishClosed]
        } else {
            Seq::empty()
        }
    }

    /// The fetch of a page, for an engine that does not fetch pages itself.
    pub open spec fn page_fetch(self, id: ViewId, url: String) -> Seq<Effect> {
        if !self.handles_urls && self.fetches && self.subscriptions.action {
            seq![Effect::FetchPage(id, url)]
        } else {
            Seq::empty()
        }
    }

    /// What a tick does for the current view. Images that have arrived are
    /// only drawn once none is being fetched any more.
    pub open spec fn tick_effects(self) -> Seq<Effect> {
        if self.current is Some {
            seq![Effect::RequestRender(self.current_id(), self.view_size)] + (if self.inflight
                == 0 {
                seq![Effect::FlushStagedImages(self.current_id(), self.view_size)]
            } else {
                Seq::empty()
            })
        } else {
            Seq::empty()
        }
    }

    /// What a tick does.
    pub open spec fn update_effects(self) -> Seq<Effect> {
        seq![Effect::ApplyDetectedScale, Effect::UpdateEngine] + self.tick_effects() + (if self.fetches
            && self.subscriptions.action {
            seq![Effect::TakePendingImages]
        } else {
            Seq::empty()
        })
    }

    /// The render that most actions end with, in the state they lead to.
    pub open spec fn closing_render(self) -> Seq<Effect> {
        if self.current is Some {
            seq![Effect::RequestRender(self.current_id(), self.view_size)]
        } else {
            Seq::empty()
        }
    }

    /// Whether an action ends with a render of the current view.
    pub open spec fn ends_with_render(self, action: Action, seen: Seen) -> bool {
        match action {
            Action::CreateView(_) => false,
            Action::SendMouseEvent(..) => false,
            Action::Update => false,
            Action::CopySelection => false,
            Action::ImageFetchComplete(..) => false,
            Action::Resize(size) => size != self.view_size,
            Action::FetchComplete(..) => seen.has_view,
            _ => true,
        }
    }

    /// The render an action ends with, if any.
    pub open spec fn end_effects(self, action: Action, seen: Seen) -> Seq<Effect> {
        if self.ends_with_render(action, seen) {
            self.after(action).closing_render()
        } else {
            Seq::empty()
        }
    }

    /// Whether `told` is what an action itself makes the engine and the host be
    /// told. A fetch that failed has the view show a page that says so.
    pub open spec fn acts(self, action: Action, seen: Seen, told: Seq<Effect>) -> bool {
        match action {
            Action::FetchComplete(id, url, Err(error)) if seen.has_view => {
                &&& told.len() == 1
                &&& shows_page(told[0], id, crate::util::fetch_error_page(url@, error@))
            },
            _ => told == self.action_effects(action, seen),
        }
    }

    /// Whether `told` is all that an action makes the engine and the host be
    /// told: first a changed address and title, then what the action is about,
    /// then the render it ends with.
    pub open spec fn is_told(self, action: Action, seen: Seen, told: Seq<Effect>) -> bool {
        let now = self.synced(seen);
        exists|acted: Seq<Effect>|
            {
                &&& #[trigger] now.acts(action, seen, acted)
                &&& told == self.sync_effects(seen) + acted + now.end_effects(action, seen)
            }
    }
}

impl WebViewState {
    /// A view having been created, behind all others, and made the current one.
    pub open spec fn with_view(self, id: ViewId) -> WebViewState {
        WebViewState {
            current: Some(self.ids.len() as int),
            ids: self.ids.push(id),
            used: without(self.used, id).push(id),
            creating: None,
            ..self
        }
    }

    /// What follows once a view was created: where it is to go, the notice to
    /// the host, and its render.
    pub open spec fn created_effects(self, id: ViewId) -> Seq<Effect> {
        (match self.creating {
            Some(Some(url)) => seq![Effect::Goto(id, PageType::Url(url))] + self.page_fetch(id, url),
            _ => Seq::empty(),
        }) + (if self.subscriptions.create_view {
            seq![Effect::PublishCreated]
        } else {
            Seq::empty()
        }) + seq![Effect::RequestRender(id, self.view_size)]
    }

    /// Images being fetched.
    pub open spec fn fetching(self, images: int) -> WebViewState {
        WebViewState { inflight: self.inflight + images, ..self }
    }
}

/// Where a clicked link leads.
#[derive(Debug)]
pub enum AnchorTarget {
    /// Nowhere: it has no address, or one that is no web page.
    Nowhere,
    /// To a place in the page it is on.
    Fragment(String),
    /// To another page.
    Page(PageUrl),
}

/// Where a clicked link leads, as texts.
pub enum AnchorView {
    Nowhere,
    Fragment(Seq<char>),
    Page(crate::util::UrlView),
}

impl View for AnchorTarget {
    type V = AnchorView;

    open spec fn view(&self) -> AnchorView {
        match self {
            AnchorTarget::Nowhere => AnchorView::Nowhere,
            AnchorTarget::Fragment(fragment) => AnchorView::Fragment(fragment@),
            AnchorTarget::Page(url) => AnchorView::Page(url@),
        }
    }
}

/// Whether an address is that of something on the web.
pub open spec fn is_web(scheme: Seq<char>) -> bool {
    scheme == "http"@ || scheme == "https"@
}

/// Where a link leads: only to web pages, and within a page where it differs
/// from the page's address in the fragment alone.
pub open spec fn anchor_leads(
    resolved: Result<crate::util::UrlView, url::ParseError>,
    base: Result<crate::util::UrlView, url::ParseError>,
) -> AnchorView {
    match resolved {
        Ok(target) => if !is_web(target.scheme) {
            AnchorView::Nowhere
        } else if base is Ok && crate::util::same_page(target, base->Ok_0) {
            match target.fragment {
                Some(fragment) => AnchorView::Fragment(fragment),
                None => AnchorView::Nowhere,
            }
        } else {
            AnchorView::Page(target)
        },
        Err(_) => AnchorView::Nowhere,
    }
}

/// Where a link on a page leads, given its text and the page's address.
pub open spec fn link_leads(href: Seq<char>, page: Seq<char>) -> AnchorView {
    anchor_leads(
        crate::util::resolved_url(href, Seq::empty(), page),
        crate::util::url_parsed(page),
    )
}

/// Whether an address is that of something on the web.
fn is_web_scheme(scheme: &str) -> (web: bool)
    ensures
        web == is_web(scheme@),
{
    crate::text::str_eq(scheme, "http") || crate::text::str_eq(scheme, "https")
}

/// Where a link leads, given its address and that of the page it is on.
pub fn anchor_target(
    resolved: Result<PageUrl, url::ParseError>,
    base: Result<PageUrl, url::ParseError>,
) -> (target: AnchorTarget)
    ensures
        target@ == anchor_leads(crate::util::url_result(resolved), crate::util::url_result(base)),
{
    match resolved {
        Ok(target) => {
            if !is_web_scheme(target.scheme.as_str()) {
                return AnchorTarget::Nowhere;
            }
            let same: bool = match &base {
                Ok(page) => is_same_page(&target, page),
                Err(_) => false,
            };
            if same {
                match target.fragment {
                    Some(fragment) => AnchorTarget::Fragment(fragment),
                    None => AnchorTarget::Nowhere,
                }
            } else {
                AnchorTarget::Page(target)
            }
        },
        Err(_) => AnchorTarget::Nowhere,
    }
}

/// An image a page needs: the view, the text that names the image, the address
/// of what names it, whether it can be shown without a new layout, and the
/// address of the page.
#[derive(Debug)]
pub struct PendingImage {
    pub view: ViewId,
    pub src: String,
    pub baseurl: String,
    pub redraw_on_ready: bool,
    pub page_url: String,
}

/// An image to fetch from an address, and what its arrival is reported with in
/// [`Action::ImageFetchComplete`].
#[derive(Debug)]
pub struct ImageFetch {
    pub view: ViewId,
    pub src: String,
    pub url: String,
    pub redraw_on_ready: bool,
    pub epoch: u64,
}

/// An image to fetch, with texts for strings.
pub struct ImageFetchView {
    pub view: ViewId,
    pub src: Seq<char>,
    pub url: Seq<char>,
    pub redraw_on_ready: bool,
    pub epoch: u64,
}

impl View for ImageFetch {
    type V = ImageFetchView;

    open spec fn view(&self) -> ImageFetchView {
        ImageFetchView {
            view: self.view,
            src: self.src@,
            url: self.url@,
            redraw_on_ready: self.redraw_on_ready,
            epoch: self.epoch,
        }
    }
}

/// The address an image is fetched from: only what is on the web is fetched.
pub open spec fn fetch_address(
    resolved: Result<crate::util::UrlView, url::ParseError>,
) -> Option<Seq<char>> {
    match resolved {
        Ok(url) => if is_web(url.scheme) {
            Some(url.text)
        } else {
            None
        },
        Err(_) => None,
    }
}

/// The address an image is fetched from, if any.
pub fn image_address(resolved: Result<PageUrl, url::ParseError>) -> (address: Option<String>)
    ensures
        crate::util::opt_text(address) == fetch_address(crate::util::url_result(resolved)),
{
    match resolved {
        Ok(url) => {
            if is_web_scheme(url.scheme.as_str()) {
                Some(url.text)
            } else {
                None
            }
        },
        Err(_) => None,
    }
}

impl WebViewState {
    /// The fetches for images that pages need, in order, each for the
    /// navigation its view is in.
    pub open spec fn image_fetches(self, pending: Seq<PendingImage>) -> Seq<ImageFetchView>
        decreases pending.len(),
    {
        if pending.len() == 0 {
            Seq::empty()
        } else {
            let before = self.image_fetches(pending.drop_last());
            let image = pending.last();
            match fetch_address(
                crate::util::resolved_url(image.src@, image.baseurl@, image.page_url@),
            ) {
                Some(url) => before.push(
                    ImageFetchView {
                        view: image.view,
                        src: image.src@,
                        url,
                        redraw_on_ready: image.redraw_on_ready,
                        epoch: self.epoch(image.view),
                    },
                ),
                None => before,
            }
        }
    }
}

/// Whether an effect makes a view show a page given as text.
pub open spec fn shows_page(effect: Effect, id: ViewId, html: Seq<char>) -> bool {
    effect matches Effect::Goto(view, PageType::Html(page)) && view == id && page@ == html
}

/// Whether an effect makes a view scroll to a place in its page.
pub open spec fn scrolls_to(effect: Effect, id: ViewId, fragment: Seq<char>) -> bool {
    effect matches Effect::ScrollToFragment(view, place) && view == id && place@ == fragment
}

/// The list without an id.
fn remove_all(ids: &Vec<ViewId>, id: ViewId) -> (rest: Vec<ViewId>)
    ensures
        rest@ == without(ids@, id),
{
    let mut rest: Vec<ViewId> = Vec::new();
    let mut i: usize = 0;
    assert(ids@.take(0) =~= Seq::empty());
    while i < ids.len()
        invariant
            i <= ids.len(),
            rest@ == without(ids@.take(i as int), id),
        decreases ids.len() - i,
    {
        assert(ids@.take(i as int + 1).drop_last() =~= ids@.take(i as int));
        if ids[i] != id {
            rest.push(ids[i]);
        }
        i = i + 1;
    }
    assert(ids@.take(ids@.len() as int) =~= ids@);
    rest
}

/// The first position of an id in a list, or the length of the list.
fn position(ids: &Vec<ViewId>, id: ViewId) -> (at: usize)
    ensures
        at == position_of(ids@, id),
        at <= ids@.len(),
        at < ids@.len() <==> ids@.contains(id),
        at < ids@.len() ==> ids@[at as int] == id,
{
    let mut i: usize = 0;
    assert(ids@.skip(0) =~= ids@);
    while i < ids.len()
        invariant
            i <= ids.len(),
            position_of(ids@, id) == i + position_of(ids@.skip(i as int), id),
            forall|k: int| 0 <= k < i ==> ids@[k] != id,
        decreases ids.len() - i,
    {
        assert(ids@.skip(i as int).first() == ids@[i as int]);
        assert(ids@.skip(i as int).drop_first() =~= ids@.skip(i as int + 1));
        if ids[i] == id {
            return i;
        }
        i = i + 1;
    }
    assert(ids@.skip(ids@.len() as int) =~= Seq::empty());
    i
}

/// An id is left over exactly when it is another one.
proof fn lemma_without(ids: Seq<ViewId>, id: ViewId)
    ensures
        forall|x: ViewId| #[trigger]
            without(ids, id).contains(x) <==> ids.contains(x) && x != id,
    decreases ids.len(),
{
    if ids.len() > 0 {
        let start = ids.drop_last();
        lemma_without(start, id);
        let rest = without(ids, id);
        let before = without(start, id);
        assert forall|x: ViewId| #[trigger] rest.contains(x) <==> ids.contains(x) && x != id by {
            assert(ids =~= start.push(ids.last()));
            if rest.contains(x) {
                let k = choose|k: int| 0 <= k < rest.len() && rest[k] == x;
                if k < before.len() {
                    assert(before[k] == x);
                    assert(before.contains(x));
                    let j = choose|j: int| 0 <= j < start.len() && start[j] == x;
                    assert(ids[j] == x);
                } else {
                    assert(ids[ids.len() - 1] == x);
                }
            }
            if ids.contains(x) && x != id {
                let j = choose|j: int| 0 <= j < ids.len() && ids[j] == x;
                if j < start.len() {
                    assert(start[j] == x);
                    assert(start.contains(x));
                    assert(before.contains(x));
                    let k = choose|k: int| 0 <= k < before.len() && before[k] == x;
                    assert(rest[k] == x);
                } else {
                    assert(rest[rest.len() - 1] == x);
                }
            }
        }
    }
}

proof fn lemma_push_contains(ids: Seq<ViewId>, id: ViewId)
    ensures
        forall|x: ViewId| #[trigger] ids.push(id).contains(x) <==> ids.contains(x) || x == id,
{
    assert forall|x: ViewId| #[trigger] ids.push(id).contains(x) <==> ids.contains(x) || x
        == id by {
        if ids.contains(x) {
            let k = choose|k: int| 0 <= k < ids.len() && ids[k] == x;
            assert(ids.push(id)[k] == x);
        }
        if x == id {
            assert(ids.push(id)[ids.len() as int] == x);
        }
        if ids.push(id).contains(x) {
            let k = choose|k: int| 0 <= k < ids.push(id).len() && ids.push(id)[k] == x;
            if k < ids.len() {
                assert(ids[k] == x);
            }
        }
    }
}

proof fn lemma_remove_contains(ids: Seq<ViewId>, at: int)
    requires
        0 <= at < ids.len(),
    ensures
        forall|x: ViewId|
            x != ids[at] ==> (#[trigger] ids.remove(at).contains(x) <==> ids.contains(x)),
{
    let rest = ids.remove(at);
    assert forall|x: ViewId| x != ids[at] implies (#[trigger] rest.contains(x) <==> ids.contains(
        x,
    )) by {
        if ids.contains(x) {
            let k = choose|k: int| 0 <= k < ids.len() && ids[k] == x;
            if k < at {
                assert(rest[k] == x);
            } else {
                assert(rest[k - 1] == x);
            }
        }
        if rest.contains(x) {
            let k = choose|k: int| 0 <= k < rest.len() && rest[k] == x;
            if k < at {
                assert(ids[k] == x);
            } else {
                assert(ids[k + 1] == x);
            }
        }
    }
}

proof fn lemma_position(ids: Seq<ViewId>, id: ViewId)
    ensures
        0 <= position_of(ids, id) <= ids.len(),
        ids.contains(id) ==> position_of(ids, id) < ids.len() && ids[position_of(ids, id)] == id,
    decreases ids.len(),
{
    if ids.len() > 0 && ids.first() != id {
        lemma_position(ids.drop_first(), id);
        if ids.contains(id) {
            let k = choose|k: int| 0 <= k < ids.len() && ids[k] == id;
            assert(ids.drop_first()[k - 1] == id);
        }
    }
}

/// Every action that a valid view allows leaves it valid.
pub proof fn law_actions_keep_views_valid(state: WebViewState, action: Action, seen: Seen)
    requires
        state.is_valid(),
        state.allows(action),
    ensures
        state.synced(seen).after(action).is_valid(),
{
    let now = state.synced(seen);
    assert(now.is_valid());
    match action {
        Action::ChangeView(index) => {
            let id = now.ids[index as int];
            assert(now.ids.contains(id));
            lemma_without(now.used, id);
            lemma_push_contains(without(now.used, id), id);
        },
        Action::CloseCurrentView => {
            lemma_closed_valid(now, now.current->0);
            let closed = now.closed(now.current->0);
            if closed.used.len() > 0 {
                assert(closed.used.contains(closed.used.last()));
                lemma_position(closed.ids, closed.used.last());
            }
        },
        Action::CloseView(index) => {
            lemma_closed_valid(now, index as int);
        },
        _ => {},
    }
}

proof fn lemma_closed_valid(state: WebViewState, index: int)
    requires
        state.is_valid(),
        0 <= index < state.ids.len(),
    ensures
        ({
            let closed = state.closed(index);
            &&& closed.ids.len() == state.ids.len() - 1
            &&& forall|id: ViewId| #[trigger] closed.ids.contains(id) <==> closed.used.contains(id)
        }),
{
    let id = state.ids[index];
    assert(state.ids.contains(id));
    lemma_remove_contains(state.ids, index);
    lemma_without(state.used, id);
    let closed = state.closed(index);
    assert forall|x: ViewId| #[trigger] closed.ids.contains(x) <==> closed.used.contains(x) by {
        assert(state.ids.contains(x) <==> state.used.contains(x));
    }
}

impl Default for WebView {
    fn default() -> (view: Self)
        ensures
            view@ == WebViewState::at_start(false, false),
    {
        WebView::new(false, false)
    }
}

impl WebView {
    /// A web view without views, for an engine that fetches pages itself or
    /// not, in a build that can fetch for it or not.
    pub fn new(handles_urls: bool, fetches: bool) -> (view: WebView)
        ensures
            view@ == WebViewState::at_start(handles_urls, fetches),
    {
        broadcast use vstd::std_specs::hash::group_hash_axioms;

        let view = WebView {
            view_size: Size { width: 1920, height: 1080 },
            scale_factor: SCALE_ONE,
            current_view_index: None,
            view_ids: Vec::new(),
            used: Vec::new(),
            subscriptions: Subscriptions {
                create_view: false,
                close_view: false,
                url_change: false,
                title_change: false,
                copy: false,
                action: false,
            },
            url: String::new(),
            title: String::new(),
            inflight_images: 0,
            nav_epochs: HashMap::new(),
            handles_urls,
            fetches,
            creating: None,
        };
        assert(view@ =~= WebViewState::at_start(handles_urls, fetches));
        view
    }

    /// Set the display scale factor for HiDPI rendering.
    pub fn set_scale_factor(&mut self, scale: u32) -> (told: Effect)
        ensures
            final(self)@ == (WebViewState { scale_factor: scale, ..old(self)@ }),
            told == Effect::SetScaleFactor(scale),
    {
        self.scale_factor = scale;
        Effect::SetScaleFactor(scale)
    }

    /// The display scale factor.
    pub fn scale_factor(&self) -> (scale: u32)
        ensures
            scale == self@.scale_factor,
    {
        self.scale_factor
    }

    /// The size of the views.
    pub fn view_size(&self) -> (size: Size)
        ensures
            size == self@.view_size,
    {
        self.view_size
    }

    /// Subscribe to create view events.
    pub fn on_create_view(self) -> (view: WebView)
        ensures
            view@ == (WebViewState {
                subscriptions: Subscriptions { create_view: true, ..self@.subscriptions },
                ..self@
            }),
    {
        let mut view = self;
        view.subscriptions.create_view = true;
        view
    }

    /// Subscribe to close view events.
    pub fn on_close_view(self) -> (view: WebView)
        ensures
            view@ == (WebViewState {
                subscriptions: Subscriptions { close_view: true, ..self@.subscriptions },
                ..self@
            }),
    {
        let mut view = self;
        view.subscriptions.close_view = true;
        view
    }

    /// Subscribe to url change events.
    pub fn on_url_change(self) -> (view: WebView)
        ensures
            view@ == (WebViewState {
                subscriptions: Subscriptions { url_change: true, ..self@.subscriptions },
                ..self@
            }),
    {
        let mut view = self;
        view.subscriptions.url_change = true;
        view
    }

    /// Subscribe to title change events.
    pub fn on_title_change(self) -> (view: WebView)
        ensures
            view@ == (WebViewState {
                subscriptions: Subscriptions { title_change: true, ..self@.subscriptions },
                ..self@
            }),
    {
        let mut view = self;
        view.subscriptions.title_change = true;
        view
    }

    /// Subscribe to copy events.
    pub fn on_copy(self) -> (view: WebView)
        ensures
            view@ == (WebViewState {
                subscriptions: Subscriptions { copy: true, ..self@.subscriptions },
                ..self@
            }),
    {
        let mut view = self;
        view.subscriptions.copy = true;
        view
    }

    /// Say that results of fetches can be routed back as actions. Required for
    /// navigation on engines that do not fetch pages themselves.
    pub fn on_action(self) -> (view: WebView)
        ensures
            view@ == (WebViewState {
                subscriptions: Subscriptions { action: true, ..self@.subscriptions },
                ..self@
            }),
    {
        let mut view = self;
        view.subscriptions.action = true;
        view
    }

    /// Whether a view is current.
    pub fn has_current_view(&self) -> (has: bool)
        ensures
            has == (self@.current is Some),
    {
        self.current_view_index.is_some()
    }

    /// The number of images that are being fetched.
    pub fn inflight_images(&self) -> (images: usize)
        ensures
            images == self@.inflight,
    {
        self.inflight_images
    }

    /// Whether an action can be carried out now: the view it is about is there,
    /// and no view is being created.
    pub fn accepts(&self, action: &Action) -> (accepts: bool)
        requires
            self@.is_valid(),
        ensures
            accepts == self@.allows(*action),
    {
        if self.creating.is_some() {
            return false;
        }
        match action {
            Action::ChangeView(index) => (*index as usize) < self.view_ids.len(),
            Action::CloseView(index) => {
                (*index as usize) < self.view_ids.len() && match self.current_view_index {
                    Some(current) => current < self.view_ids.len() - 1,
                    None => true,
                }
            },
            Action::CloseCurrentView
            | Action::GoBackward
            | Action::GoForward
            | Action::GoToUrl(_)
            | Action::Refresh
            | Action::SendKeyboardEvent(_)
            | Action::SendMouseEvent(..) => self.current_view_index.is_some(),
            _ => true,
        }
    }

    /// The id of the current view.
    pub fn get_current_view_id(&self) -> (id: ViewId)
        requires
            self@.is_valid(),
            self@.current is Some,
        ensures
            id == self@.current_id(),
    {
        match self.current_view_index {
            Some(index) => self.view_ids[index],
            None => 0,
        }
    }

    /// The id of the view at a position.
    pub fn index_as_view_id(&self, index: u32) -> (id: ViewId)
        requires
            (index as int) < self@.ids.len(),
        ensures
            id == self@.ids[index as int],
    {
        self.view_ids[index as usize]
    }

    /// The navigation a view is in.
    fn epoch_of(&self, id: ViewId) -> (epoch: u64)
        ensures
            epoch == self@.epoch(id),
    {
        broadcast use vstd::std_specs::hash::group_hash_axioms;

        match self.nav_epochs.get(&id) {
            Some(epoch) => *epoch,
            None => 0,
        }
    }

    /// Tell the host the address and the title of the current view, where they
    /// changed.
    fn sync(&mut self, seen: &Seen) -> (told: Vec<Effect>)
        ensures
            final(self)@ == old(self)@.synced(*seen),
            told@ == old(self)@.sync_effects(*seen),
    {
        let mut told: Vec<Effect> = Vec::new();
        if self.current_view_index.is_some() {
            if self.subscriptions.url_change && self.url != seen.url {
                self.url = seen.url.clone();
                told.push(Effect::PublishUrl(seen.url.clone()));
            }
            if self.subscriptions.title_change && self.title != seen.title {
                self.title = seen.title.clone();
                told.push(Effect::PublishTitle(seen.title.clone()));
            }
        }
        assert(self@ =~= old(self)@.synced(*seen));
        assert(told@ =~= old(self)@.sync_effects(*seen));
        told
    }

    /// Remember that a view was used last.
    fn note_used(&mut self, id: ViewId)
        ensures
            final(self)@ == (WebViewState {
                used: without(old(self)@.used, id).push(id),
                ..old(self)@
            }),
    {
        let mut used = remove_all(&self.used, id);
        used.push(id);
        self.used = used;
        assert(self@ =~= (WebViewState {
            used: without(old(self)@.used, id).push(id),
            ..old(self)@
        }));
    }

    /// Close the view at a position, whichever is current.
    fn close_at(&mut self, index: usize)
        requires
            (index as int) < old(self)@.ids.len(),
        ensures
            final(self)@ == old(self)@.closed(index as int),
    {
        let id = self.view_ids.remove(index);
        let at = position(&self.view_ids, id);
        if at == self.view_ids.len() {
            self.used = remove_all(&self.used, id);
        }
        assert(self@ =~= old(self)@.closed(index as int));
    }

    /// Make the last used view the current one.
    fn fall_back(&mut self)
        requires
            forall|id: ViewId| #[trigger]
                old(self)@.ids.contains(id) <==> old(self)@.used.contains(id),
        ensures
            final(self)@ == old(self)@.fallen_back(),
    {
        let n = self.used.len();
        if n == 0 {
            self.current_view_index = None;
        } else {
            let id = self.used[n - 1];
            self.current_view_index = Some(position(&self.view_ids, id));
        }
        assert(self@ =~= old(self)@.fallen_back());
    }

    /// Tell that a view was closed, where the host wants it.
    fn close_view(&self, id: ViewId) -> (told: Vec<Effect>)
        ensures
            told@ == seq![Effect::RemoveView(id)] + self@.close_notice(),
    {
        let mut told: Vec<Effect> = Vec::new();
        told.push(Effect::RemoveView(id));
        if self.subscriptions.close_view {
            told.push(Effect::PublishClosed);
        }
        assert(told@ =~= seq![Effect::RemoveView(id)] + self@.close_notice());
        told
    }

    /// Close the current view and fall back to the last used one.
    fn close_current(&mut self) -> (told: Vec<Effect>)
        requires
            old(self)@.is_valid(),
            old(self)@.current is Some,
        ensures
            final(self)@ == old(self)@.closed(old(self)@.current->0).fallen_back(),
            told@ == seq![Effect::RemoveView(old(self)@.current_id())] + old(self)@.close_notice(),
    {
        let told = self.close_view(self.get_current_view_id());
        match self.current_view_index {
            Some(index) => {
                proof {
                    lemma_closed_valid(self@, index as int);
                }
                self.close_at(index);
                self.fall_back();
            },
            None => {},
        }
        told
    }

    /// Have the engine make a view that shows a page.
    fn create(&mut self, page: PageType) -> (told: Vec<Effect>)
        ensures
            final(self)@ == old(self)@.after(Action::CreateView(page)),
            told@ == seq![
                Effect::NewView(
                    old(self)@.view_size,
                    if page is Url && !old(self)@.handles_urls {
                        None
                    } else {
                        Some(page)
                    },
                ),
            ],
    {
        let mut told: Vec<Effect> = Vec::new();
        match page {
            PageType::Url(url) => {
                if self.handles_urls {
                    self.creating = Some(None);
                    told.push(Effect::NewView(self.view_size, Some(PageType::Url(url))));
                } else {
                    self.creating = Some(Some(url));
                    told.push(Effect::NewView(self.view_size, None));
                }
            },
            PageType::Html(html) => {
                self.creating = Some(None);
                told.push(Effect::NewView(self.view_size, Some(PageType::Html(html))));
            },
        }
        assert(self@ =~= old(self)@.after(Action::CreateView(page)));
        told
    }

    /// Send the current view to an address.
    fn go_to(&mut self, url: PageUrl) -> (told: Vec<Effect>)
        requires
            old(self)@.is_valid(),
            old(self)@.current is Some,
        ensures
            final(self)@ == old(self)@.after(Action::GoToUrl(url)),
            told@ == seq![Effect::Goto(old(self)@.current_id(), PageType::Url(url.text))]
                + old(self)@.page_fetch(old(self)@.current_id(), url.text),
    {
        broadcast use vstd::std_specs::hash::group_hash_axioms;

        let mut told: Vec<Effect> = Vec::new();
        let id = self.get_current_view_id();
        let epoch: u64 = self.epoch_of(id).wrapping_add(1);
        self.inflight_images = 0;
        self.nav_epochs.insert(id, epoch);
        told.push(Effect::Goto(id, PageType::Url(url.text.clone())));
        if !self.handles_urls && self.fetches && self.subscriptions.action {
            told.push(Effect::FetchPage(id, url.text));
        }
        assert(self@ =~= old(self)@.after(Action::GoToUrl(url)));
        assert(told@ =~= seq![Effect::Goto(old(self)@.current_id(), PageType::Url(url.text))]
            + old(self)@.page_fetch(old(self)@.current_id(), url.text));
        told
    }

    /// Let the engine work on what happened since the last tick.
    fn tick(&self) -> (told: Vec<Effect>)
        requires
            self@.is_valid(),
        ensures
            told@ == self@.update_effects(),
    {
        let mut told: Vec<Effect> = Vec::new();
        told.push(Effect::ApplyDetectedScale);
        told.push(Effect::UpdateEngine);
        if self.current_view_index.is_some() {
            let id = self.get_current_view_id();
            told.push(Effect::RequestRender(id, self.view_size));
            if self.inflight_images == 0 {
                told.push(Effect::FlushStagedImages(id, self.view_size));
            }
        }
        if self.fetches && self.subscriptions.action {
            told.push(Effect::TakePendingImages);
        }
        assert(told@ =~= self@.update_effects());
        told
    }

    /// Show a page that was fetched, or say why it could not be.
    fn show_fetched(
        id: ViewId,
        url: String,
        result: Result<(String, Vec<(String, String)>), String>,
    ) -> (told: Vec<Effect>)
        ensures
            match result {
                Ok(page) => told@ == seq![
                    Effect::SetCssCache(id, page.1),
                    Effect::Goto(id, PageType::Html(page.0)),
                ],
                Err(error) => told@.len() == 1 && shows_page(
                    told@[0],
                    id,
                    crate::util::fetch_error_page(url@, error@),
                ),
            },
    {
        let mut told: Vec<Effect> = Vec::new();
        match result {
            Ok((html, css_cache)) => {
                told.push(Effect::SetCssCache(id, css_cache));
                told.push(Effect::Goto(id, PageType::Html(html)));
            },
            Err(error) => {
                let page = crate::util::failed_fetch_page(url.as_str(), error.as_str());
                told.push(Effect::Goto(id, PageType::Html(page)));
            },
        }
        told
    }

    /// Hand an image that was fetched to the engine, unless the view has been
    /// sent elsewhere since.
    fn take_image(
        &mut self,
        id: ViewId,
        src: String,
        result: Result<Vec<u8>, String>,
        redraw: bool,
        epoch: u64,
        has_view: bool,
    ) -> (told: Vec<Effect>)
        ensures
            final(self)@ == old(self)@.after(
                Action::ImageFetchComplete(id, src, result, redraw, epoch),
            ),
            told@ == match result {
                Ok(bytes) => if epoch == old(self)@.epoch(id) && has_view {
                    seq![Effect::LoadImage(id, src, bytes, redraw)]
                } else {
                    Seq::empty()
                },
                Err(_) => Seq::empty(),
            },
    {
        let mut told: Vec<Effect> = Vec::new();
        let current_epoch = self.epoch_of(id);
        if self.inflight_images > 0 {
            self.inflight_images = self.inflight_images - 1;
        }
        if epoch == current_epoch && has_view {
            match result {
                Ok(bytes) => {
                    told.push(Effect::LoadImage(id, src, bytes, redraw));
                },
                Err(_) => {},
            }
        }
        assert(self@ =~= old(self)@.after(
            Action::ImageFetchComplete(id, src, result, redraw, epoch),
        ));
        told
    }

    /// Make a view the current one.
    fn change_view(&mut self, index: u32) -> (told: Vec<Effect>)
        requires
            (index as int) < old(self)@.ids.len(),
        ensures
            final(self)@ == old(self)@.switched_to(index as int),
            told@ == seq![Effect::RequestRender(old(self)@.ids[index as int], old(self)@.view_size)],
    {
        let mut told: Vec<Effect> = Vec::new();
        let id = self.index_as_view_id(index);
        self.current_view_index = Some(index as usize);
        self.note_used(id);
        told.push(Effect::RequestRender(id, self.view_size));
        assert(self@ =~= old(self)@.switched_to(index as int));
        told
    }

    /// Do what an action says, without telling the host of a changed address or
    /// title and without the closing render.
    fn act(&mut self, action: Action, seen: Seen) -> (told: (Vec<Effect>, bool))
        requires
            old(self)@.is_valid(),
            old(self)@.allows(action),
        ensures
            final(self)@ == old(self)@.after(action),
            old(self)@.acts(action, seen, told.0@),
            told.1 == old(self)@.ends_with_render(action, seen),
    {
        let mut told: Vec<Effect> = Vec::new();
        let mut render: bool = true;
        match action {
            Action::ChangeView(index) => {
                told = self.change_view(index);
            },
            Action::CloseCurrentView => {
                told = self.close_current();
            },
            Action::CloseView(index) => {
                told = self.close_view(self.index_as_view_id(index));
                self.close_at(index as usize);
            },
            Action::CreateView(page) => {
                told = self.create(page);
                render = false;
            },
            Action::GoBackward => {
                told.push(Effect::GoBack(self.get_current_view_id()));
            },
            Action::GoForward => {
                told.push(Effect::GoForward(self.get_current_view_id()));
            },
            Action::GoToUrl(url) => {
                told = self.go_to(url);
            },
            Action::Refresh => {
                told.push(Effect::Refresh(self.get_current_view_id()));
            },
            Action::SendKeyboardEvent(event) => {
                told.push(Effect::Keyboard(self.get_current_view_id(), event));
            },
            Action::SendMouseEvent(event, point, modifiers) => {
                let id = self.get_current_view_id();
                told.push(Effect::Mouse(id, point, event, modifiers));
                told.push(Effect::TakeAnchorClick(id));
                render = false;
            },
            Action::Focus => {
                told.push(Effect::FocusEngine);
            },
            Action::Unfocus => {
                told.push(Effect::UnfocusEngine);
            },
            Action::Update => {
                told = self.tick();
                render = false;
            },
            Action::Resize(size) => {
                if self.view_size != size {
                    self.view_size = size;
                    told.push(Effect::ResizeEngine(size));
                } else {
                    render = false;
                }
            },
            Action::CopySelection => {
                match seen.selected_text {
                    Some(text) => {
                        if self.current_view_index.is_some() && self.subscriptions.copy {
                            told.push(Effect::PublishCopied(text));
                        }
                    },
                    None => {},
                }
                render = false;
            },
            Action::FetchComplete(id, url, result) => {
                if seen.has_view {
                    told = WebView::show_fetched(id, url, result);
                } else {
                    render = false;
                }
            },
            Action::ImageFetchComplete(id, src, result, redraw, epoch) => {
                told = self.take_image(id, src, result, redraw, epoch, seen.has_view);
                render = false;
            },
        }
        assert(self@ =~= old(self)@.after(action));
        assert(old(self)@.acts(action, seen, told@)) by {
            match action {
                Action::FetchComplete(_, _, Err(_)) if seen.has_view => {},
                _ => {
                    assert(told@ =~= old(self)@.action_effects(action, seen));
                },
            }
        }
        (told, render)
    }

    /// Carry out an action: the engine and the host are to be told what is
    /// returned, in this order.
    ///
    /// After [`Effect::NewView`] comes [`WebView::view_created`], before any
    /// other action.
    pub fn update(&mut self, action: Action, seen: Seen) -> (told: Vec<Effect>)
        requires
            old(self)@.is_valid(),
            old(self)@.allows(action),
        ensures
            final(self)@ == old(self)@.synced(seen).after(action),
            old(self)@.is_told(action, seen, told@),
            final(self)@.is_valid(),
    {
        proof {
            law_actions_keep_views_valid(self@, action, seen);
        }
        let mut told = self.sync(&seen);
        let ghost start = told@;
        let ghost now = self@;
        let (mut middle, render) = self.act(action, seen);
        let ghost acted = middle@;
        told.append(&mut middle);
        if render && self.current_view_index.is_some() {
            told.push(Effect::RequestRender(self.get_current_view_id(), self.view_size));
        }
        assert(told@ =~= start + acted + now.end_effects(action, seen));
        told
    }
}

impl WebView {
    /// A view was created: it is the current one from here on.
    pub fn view_created(&mut self, id: ViewId) -> (told: Vec<Effect>)
        requires
            old(self)@.is_valid(),
            old(self)@.creating is Some,
        ensures
            final(self)@ == old(self)@.with_view(id),
            told@ == old(self)@.created_effects(id),
            final(self)@.is_valid(),
    {
        let mut told: Vec<Effect> = Vec::new();
        match self.creating.take() {
            Some(Some(url)) => {
                told.push(Effect::Goto(id, PageType::Url(url.clone())));
                if self.fetches && self.subscriptions.action {
                    told.push(Effect::FetchPage(id, url));
                }
            },
            _ => {},
        }
        self.view_ids.push(id);
        self.current_view_index = Some(self.view_ids.len() - 1);
        self.note_used(id);
        if self.subscriptions.create_view {
            told.push(Effect::PublishCreated);
        }
        told.push(Effect::RequestRender(id, self.view_size));
        proof {
            assert(self@ =~= old(self)@.with_view(id));
            assert(told@ =~= old(self)@.created_effects(id));
            law_created_view_is_current(old(self)@, id);
        }
        told
    }

    /// A link in the current view was clicked. `seen` is what the engine says of
    /// the view, whose address the link is relative to.
    pub fn anchor_clicked(&mut self, href: String, seen: Seen) -> (told: Vec<Effect>)
        requires
            old(self)@.is_valid(),
            old(self)@.current is Some,
            old(self)@.creating is None,
        ensures
            final(self)@.is_valid(),
            match link_leads(href@, seen.url@) {
                AnchorView::Nowhere => final(self)@ == old(self)@ && told@.len() == 0,
                AnchorView::Fragment(fragment) => {
                    &&& final(self)@ == old(self)@
                    &&& told@.len() == 1
                    &&& scrolls_to(told@[0], old(self)@.current_id(), fragment)
                },
                AnchorView::Page(url) => {
                    exists|page: PageUrl|
                        {
                            &&& #[trigger] page@ == url
                            &&& final(self)@ == old(self)@.synced(seen).after(Action::GoToUrl(page))
                            &&& old(self)@.is_told(Action::GoToUrl(page), seen, told@)
                        }
                },
            },
    {
        let base = crate::util::parse_url(seen.url.as_str());
        let resolved = resolve_url(href.as_str(), "", seen.url.as_str());
        proof {
            reveal_strlit("");
            assert(""@ =~= Seq::<char>::empty());
        }
        let mut told: Vec<Effect> = Vec::new();
        match anchor_target(resolved, base) {
            AnchorTarget::Nowhere => {},
            AnchorTarget::Fragment(fragment) => {
                told.push(Effect::ScrollToFragment(self.get_current_view_id(), fragment));
            },
            AnchorTarget::Page(page) => {
                told = self.update(Action::GoToUrl(page), seen);
            },
        }
        told
    }

    /// Pages need images: those to fetch.
    pub fn images_pending(&mut self, pending: Vec<PendingImage>) -> (fetches: Vec<ImageFetch>)
        requires
            old(self)@.inflight + pending@.len() <= usize::MAX,
        ensures
            fetches@.map_values(|f: ImageFetch| f@) == old(self)@.image_fetches(pending@),
            final(self)@ == old(self)@.fetching(fetches@.len() as int),
    {
        let mut fetches: Vec<ImageFetch> = Vec::new();
        let mut i: usize = 0;
        assert(pending@.take(0) =~= Seq::empty());
        assert(fetches@.map_values(|f: ImageFetch| f@) =~= Seq::empty());
        while i < pending.len()
            invariant
                i <= pending@.len(),
                fetches@.len() <= i,
                old(self)@.inflight + pending@.len() <= usize::MAX,
                fetches@.map_values(|f: ImageFetch| f@) == old(self)@.image_fetches(
                    pending@.take(i as int),
                ),
                self@ == old(self)@.fetching(fetches@.len() as int),
            decreases pending@.len() - i,
        {
            let image = &pending[i];
            assert(pending@.take(i as int + 1).drop_last() =~= pending@.take(i as int));
            let resolved = resolve_url(
                image.src.as_str(),
                image.baseurl.as_str(),
                image.page_url.as_str(),
            );
            match image_address(resolved) {
                Some(url) => {
                    let ghost before = fetches@;
                    let fetch = ImageFetch {
                        view: image.view,
                        src: image.src.clone(),
                        url,
                        redraw_on_ready: image.redraw_on_ready,
                        epoch: self.epoch_of(image.view),
                    };
                    let ghost added = fetch;
                    self.inflight_images = self.inflight_images + 1;
                    fetches.push(fetch);
                    assert(self@ =~= old(self)@.fetching(fetches@.len() as int));
                    assert(fetches@.map_values(|f: ImageFetch| f@) =~= before.map_values(
                        |f: ImageFetch| f@,
                    ).push(added@));
                },
                None => {},
            }
            i = i + 1;
        }
        assert(pending@.take(pending@.len() as int) =~= pending@);
        fetches
    }
}

/// A view that was just created is valid, current and the last used one.
pub proof fn law_created_view_is_current(state: WebViewState, id: ViewId)
    requires
        state.is_valid(),
    ensures
        state.with_view(id).is_valid(),
        state.with_view(id).current_id() == id,
        state.with_view(id).used.last() == id,
{
    lemma_push_contains(state.ids, id);
    lemma_without(state.used, id);
    lemma_push_contains(without(state.used, id), id);
}

/// Closing the current view goes back to the view that was used before it.
pub proof fn law_close_returns_to_last_used(state: WebViewState, before: int, current: int)
    requires
        state.is_valid(),
        state.ids.no_duplicates(),
        0 <= before < state.ids.len(),
        0 <= current < state.ids.len(),
        before != current,
    ensures
        ({
            let after = state.switched_to(before).switched_to(current).after(
                Action::CloseCurrentView,
            );
            after.current is Some && after.current_id() == state.ids[before]
        }),
{
    let a = state.ids[before];
    let b = state.ids[current];
    let first = state.switched_to(before);
    let second = first.switched_to(current);
    let closed = second.closed(current);
    let used = without(state.used, a).push(a);
    assert(used.drop_last() =~= without(state.used, a));
    assert(without(used, b).last() == a && without(used, b).len() > 0);
    let again = without(used, b).push(b);
    assert(again.drop_last() =~= without(used, b));
    lemma_without(without(used, b), b);
    lemma_without(used, b);
    lemma_without_absent(without(used, b), b);
    assert(without(again, b) == without(used, b));
    assert(!closed.ids.contains(b)) by {
        if closed.ids.contains(b) {
            let k = choose|k: int| 0 <= k < closed.ids.len() && closed.ids[k] == b;
            if k < current {
                assert(state.ids[k] == b);
            } else {
                assert(state.ids[k + 1] == b);
            }
        }
    }
    assert(closed.used == without(used, b));
    lemma_remove_contains(state.ids, current);
    assert(state.ids.contains(a));
    assert(closed.ids.contains(a));
    lemma_position(closed.ids, a);
}

proof fn lemma_without_absent(ids: Seq<ViewId>, id: ViewId)
    requires
        !ids.contains(id),
    ensures
        without(ids, id) == ids,
    decreases ids.len(),
{
    if ids.len() > 0 {
        assert(ids[ids.len() - 1] == ids.last());
        assert forall|k: int| 0 <= k < ids.drop_last().len() implies ids.drop_last()[k] != id by {
            assert(ids[k] == ids.drop_last()[k]);
        }
        lemma_without_absent(ids.drop_last(), id);
        assert(ids.drop_last().push(ids.last()) =~= ids);
    }
}

/// Something that happens to a web view.
pub enum ViewStep {
    /// An action was carried out, the engine having said what it sees.
    Acted(Action, Seen),
    /// The view that was asked for was created.
    Created(ViewId),
    /// So many images are being fetched from here on.
    Fetching(nat),
    /// The display scale was set.
    Scaled(u32),
}

impl WebViewState {
    /// Whether a step can be taken.
    pub open spec fn can_take(self, step: ViewStep) -> bool {
        match step {
            ViewStep::Acted(action, _) => self.allows(action),
            ViewStep::Created(_) => self.creating is Some,
            _ => true,
        }
    }

    /// What a step leads to.
    pub open spec fn after_step(self, step: ViewStep) -> WebViewState {
        match step {
            ViewStep::Acted(action, seen) => self.synced(seen).after(action),
            ViewStep::Created(id) => self.with_view(id),
            ViewStep::Fetching(images) => self.fetching(images as int),
            ViewStep::Scaled(scale) => WebViewState { scale_factor: scale, ..self },
        }
    }

    /// What steps lead to, one after the other.
    pub open spec fn after_steps(self, steps: Seq<ViewStep>) -> WebViewState
        decreases steps.len(),
    {
        if steps.len() == 0 {
            self
        } else {
            self.after_steps(steps.drop_last()).after_step(steps.last())
        }
    }

    /// Whether steps can be taken, one after the other.
    pub open spec fn can_take_all(self, steps: Seq<ViewStep>) -> bool
        decreases steps.len(),
    {
        steps.len() > 0 ==> self.can_take_all(steps.drop_last()) && self.after_steps(
            steps.drop_last(),
        ).can_take(steps.last())
    }

    /// Whether a step sends a view to another address.
    pub open spec fn sends(self, step: ViewStep, id: ViewId) -> bool {
        &&& step matches ViewStep::Acted(Action::GoToUrl(_), _)
        &&& self.current_id() == id
    }

    /// How often steps send a view to another address.
    pub open spec fn times_sent(self, steps: Seq<ViewStep>, id: ViewId) -> nat
        decreases steps.len(),
    {
        if steps.len() == 0 {
            0
        } else {
            self.times_sent(steps.drop_last(), id) + if self.after_steps(steps.drop_last()).sends(
                steps.last(),
                id,
            ) {
                1nat
            } else {
                0
            }
        }
    }
}

/// Whatever happens to a valid web view, it stays valid.
pub proof fn law_reached_views_are_valid(state: WebViewState, steps: Seq<ViewStep>)
    requires
        state.is_valid(),
        state.can_take_all(steps),
    ensures
        state.after_steps(steps).is_valid(),
    decreases steps.len(),
{
    if steps.len() > 0 {
        let before = state.after_steps(steps.drop_last());
        law_reached_views_are_valid(state, steps.drop_last());
        match steps.last() {
            ViewStep::Acted(action, seen) => {
                law_actions_keep_views_valid(before, action, seen);
            },
            ViewStep::Created(id) => {
                law_created_view_is_current(before, id);
            },
            _ => {},
        }
    }
}

/// Every time a view is sent to another address its navigation is a new one,
/// until the numbers are used up.
proof fn lemma_epoch_counts(state: WebViewState, steps: Seq<ViewStep>, id: ViewId)
    requires
        state.can_take_all(steps),
    ensures
        state.after_steps(steps).epoch(id) == (state.epoch(id) + state.times_sent(steps, id))
            % 0x1_0000_0000_0000_0000,
    decreases steps.len(),
{
    if steps.len() > 0 {
        lemma_epoch_counts(state, steps.drop_last(), id);
    }
}

/// An image that was fetched for an earlier navigation of a view is discarded:
/// whatever has happened since, once the view was sent to another address,
/// neither the engine nor the host is told of it. (Navigations are numbered by
/// 64 bits.)
pub proof fn law_stale_image_is_discarded(
    state: WebViewState,
    steps: Seq<ViewStep>,
    id: ViewId,
    src: String,
    result: Result<Vec<u8>, String>,
    redraw: bool,
    seen: Seen,
)
    requires
        state.can_take_all(steps),
        0 < state.times_sent(steps, id) < 0x1_0000_0000_0000_0000,
    ensures
        ({
            let late = Action::ImageFetchComplete(id, src, result, redraw, state.epoch(id));
            let after = state.after_steps(steps);
            after.action_effects(late, seen).len() == 0 && !after.ends_with_render(late, seen)
        }),
{
    lemma_epoch_counts(state, steps, id);
}

/// An image that was fetched for the navigation its view is in reaches the
/// engine, as long as the view is open.
pub proof fn law_current_image_is_loaded(
    state: WebViewState,
    id: ViewId,
    src: String,
    bytes: Vec<u8>,
    redraw: bool,
    seen: Seen,
)
    requires
        seen.has_view,
    ensures
        state.action_effects(
            Action::ImageFetchComplete(id, src, Ok(bytes), redraw, state.epoch(id)),
            seen,
        ) == seq![Effect::LoadImage(id, src, bytes, redraw)],
{
}

/// What a list of actions does to the state.
pub open spec fn after_all(state: WebViewState, actions: Seq<Action>) -> WebViewState
    decreases actions.len(),
{
    if actions.len() == 0 {
        state
    } else {
        after_all(state, actions.drop_last()).after(actions.last())
    }
}

/// While images arrive, a tick draws them only once as many have arrived as are
/// being fetched: a burst of images is drawn in one pass.
pub proof fn law_images_are_drawn_in_one_pass(state: WebViewState, arrivals: Seq<Action>)
    requires
        state.current is Some,
        arrivals.len() <= state.inflight,
        forall|k: int| 0 <= k < arrivals.len() ==> #[trigger] arrivals[k] is ImageFetchComplete,
    ensures
        after_all(state, arrivals).inflight == state.inflight - arrivals.len(),
        after_all(state, arrivals).current == state.current,
        after_all(state, arrivals).ids == state.ids,
        after_all(state, arrivals).update_effects().contains(
            Effect::FlushStagedImages(state.current_id(), after_all(state, arrivals).view_size),
        ) <==> arrivals.len() == state.inflight,
    decreases arrivals.len(),
{
    if arrivals.len() > 0 {
        assert(arrivals[arrivals.len() - 1] is ImageFetchComplete);
        assert forall|k: int| 0 <= k < arrivals.drop_last().len() implies #[trigger]
            arrivals.drop_last()[k] is ImageFetchComplete by {
            assert(arrivals[k] is ImageFetchComplete);
        }
        law_images_are_drawn_in_one_pass(state, arrivals.drop_last());
    }
    let after = after_all(state, arrivals);
    let effects = after.update_effects();
    if arrivals.len() == state.inflight {
        assert(effects[3] == Effect::FlushStagedImages(state.current_id(), after.view_size));
    } else {
        assert forall|k: int| 0 <= k < effects.len() implies !(#[trigger] effects[k]
            is FlushStagedImages) by {}
    }
}

/// Resizing to the size a view already has tells nobody of anything, apart
/// from a changed address or title.
pub proof fn law_no_op_resize(state: WebViewState, seen: Seen)
    ensures
        state.after(Action::Resize(state.view_size)) == state,
        state.action_effects(Action::Resize(state.view_size), seen).len() == 0,
        state.end_effects(Action::Resize(state.view_size), seen).len() == 0,
{
}

/// The host is told of an address and a title once: what it was told it is not
/// told again.
pub proof fn law_changes_are_told_once(state: WebViewState, seen: Seen)
    ensures
        state.synced(seen).sync_effects(seen).len() == 0,
        state.synced(seen).synced(seen) == state.synced(seen),
{
}

/// The widget that shows a view as an image.
pub struct WebViewWidget {
    bounds: Size,
    cursor: Interaction,
}

impl WebViewWidget {
    /// The size the engine was last told.
    pub closed spec fn told_size(&self) -> Size {
        self.bounds
    }

    /// The pointer the page asks for.
    pub closed spec fn page_cursor(&self) -> Interaction {
        self.cursor
    }

    /// A widget that has told no size yet.
    pub fn new(cursor: Interaction) -> (widget: WebViewWidget)
        ensures
            widget.told_size() == (Size { width: 0, height: 0 }),
            widget.page_cursor() == cursor,
    {
        WebViewWidget { bounds: Size { width: 0, height: 0 }, cursor }
    }

    /// What an event has the widget ask for. `inside` is where the pointer is,
    /// relative to the widget, if it is over it.
    pub fn update(&mut self, event: Event, size: Size, inside: Option<Point>) -> (asked: Vec<Action>)
        ensures
            final(self).told_size() == size,
            final(self).page_cursor() == old(self).page_cursor(),
            asked@ == widget_asks(old(self).told_size(), event, size, inside),
    {
        let mut asked: Vec<Action> = Vec::new();
        if self.bounds != size {
            self.bounds = size;
            asked.push(Action::Resize(size));
        }
        match event {
            Event::Keyboard(event) => {
                if event.copies_selection() {
                    asked.push(Action::CopySelection);
                }
                asked.push(Action::SendKeyboardEvent(event));
            },
            Event::Mouse(event) => match inside {
                Some(point) => {
                    asked.push(Action::SendMouseEvent(event, point, Modifiers::empty()));
                },
                None => {
                    if event == MouseEvent::CursorLeft {
                        asked.push(
                            Action::SendMouseEvent(event, Point::origin(), Modifiers::empty()),
                        );
                    }
                },
            },
            _ => {},
        }
        assert(asked@ =~= widget_asks(old(self).told_size(), event, size, inside));
        asked
    }

    /// The pointer to show, given whether it is over the widget.
    pub fn mouse_interaction(&self, over: bool) -> (interaction: Interaction)
        ensures
            interaction == if over {
                self.page_cursor()
            } else {
                Interaction::Idle
            },
    {
        if over {
            self.cursor
        } else {
            Interaction::Idle
        }
    }
}

/// What an event has the image widget ask for: a resize where the size is not
/// the one told last, then every key, with the copy shortcut asking for a copy
/// first, and every mouse event over the widget. That the pointer left the
/// window is passed on wherever it was.
pub open spec fn widget_asks(
    told_size: Size,
    event: Event,
    size: Size,
    inside: Option<Point>,
) -> Seq<Action> {
    (if told_size != size {
        seq![Action::Resize(size)]
    } else {
        Seq::empty()
    }) + (match event {
        Event::Keyboard(key) => (if key.is_copy_shortcut() {
            seq![Action::CopySelection]
        } else {
            Seq::empty()
        }) + seq![Action::SendKeyboardEvent(key)],
        Event::Mouse(mouse) => match inside {
            Some(point) => seq![Action::SendMouseEvent(mouse, point, Modifiers::none_held())],
            None => if mouse == MouseEvent::CursorLeft {
                seq![Action::SendMouseEvent(mouse, Point::at_origin(), Modifiers::none_held())]
            } else {
                Seq::empty()
            },
        },
        _ => Seq::empty(),
    })
}

/// How much news the host gets before an action is carried out: a changed
/// address and a changed title count one each.
pub open spec fn news(state: WebViewState, seen: Seen) -> int {
    let told_url = state.current is Some && state.subscriptions.url_change && state.url
        != seen.url@;
    let told_title = state.current is Some && state.subscriptions.title_change && state.title
        != seen.title@;
    (if told_url {
        1int
    } else {
        0
    }) + (if told_title {
        1int
    } else {
        0
    })
}

/// Before anything else the host is told the address and then the title of the
/// current view, each where it wants to hear of it and it differs from what the
/// host was told last. From then on that is what the host was told.
pub proof fn law_news_comes_first(
    state: WebViewState,
    action: Action,
    seen: Seen,
    told: Seq<Effect>,
)
    requires
        state.is_told(action, seen, told),
    ensures
        ({
            let new_url = state.current is Some && state.subscriptions.url_change && state.url
                != seen.url@;
            let new_title = state.current is Some && state.subscriptions.title_change && state.title
                != seen.title@;
            &&& told.len() >= news(state, seen)
            &&& new_url ==> told[0] == Effect::PublishUrl(seen.url)
            &&& new_title ==> told[news(state, seen) - 1] == Effect::PublishTitle(seen.title)
            &&& state.current is Some && state.subscriptions.url_change ==> state.synced(seen).url
                == seen.url@
            &&& state.current is Some && state.subscriptions.title_change ==> state.synced(
                seen,
            ).title == seen.title@
            &&& state.current is None || !state.subscriptions.url_change ==> state.synced(seen).url
                == state.url
            &&& state.current is None || !state.subscriptions.title_change ==> state.synced(
                seen,
            ).title == state.title
            &&& state.synced(seen) == (WebViewState {
                url: state.synced(seen).url,
                title: state.synced(seen).title,
                ..state
            })
        }),
{
    let now = state.synced(seen);
    let acted = choose|acted: Seq<Effect>|
        {
            &&& #[trigger] now.acts(action, seen, acted)
            &&& told == state.sync_effects(seen) + acted + now.end_effects(action, seen)
        };
    assert(state.sync_effects(seen).len() == news(state, seen));
    assert(told.take(news(state, seen)) =~= state.sync_effects(seen));
}

/// A key goes to the view that is current, which is then rendered.
pub proof fn law_key_goes_to_current_view(
    state: WebViewState,
    event: KeyboardEvent,
    seen: Seen,
    told: Seq<Effect>,
)
    requires
        state.current is Some,
        state.is_told(Action::SendKeyboardEvent(event), seen, told),
    ensures
        ({
            let n = news(state, seen);
            let id = state.ids[state.current->0];
            &&& told.len() == n + 2
            &&& told[n] == Effect::Keyboard(id, event)
            &&& told[n + 1] == Effect::RequestRender(id, state.view_size)
        }),
        state.after(Action::SendKeyboardEvent(event)) == state,
{
    law_news_comes_first(state, Action::SendKeyboardEvent(event), seen, told);
}

/// A mouse event goes to the view that is current, at its place and with its
/// modifiers; the view is then asked for a link that was clicked, and is not
/// rendered on the spot.
pub proof fn law_mouse_goes_to_current_view(
    state: WebViewState,
    event: MouseEvent,
    point: Point,
    modifiers: Modifiers,
    seen: Seen,
    told: Seq<Effect>,
)
    requires
        state.current is Some,
        state.is_told(Action::SendMouseEvent(event, point, modifiers), seen, told),
    ensures
        ({
            let n = news(state, seen);
            let id = state.ids[state.current->0];
            &&& told.len() == n + 2
            &&& told[n] == Effect::Mouse(id, point, event, modifiers)
            &&& told[n + 1] == Effect::TakeAnchorClick(id)
        }),
        state.after(Action::SendMouseEvent(event, point, modifiers)) == state,
{
    law_news_comes_first(state, Action::SendMouseEvent(event, point, modifiers), seen, told);
}

/// Going back, going forward and refreshing are for the view that is current,
/// which is then rendered.
pub proof fn law_history_is_of_current_view(state: WebViewState, seen: Seen, told: Seq<Effect>)
    requires
        state.current is Some,
    ensures
        ({
            let n = news(state, seen);
            let id = state.ids[state.current->0];
            let render = Effect::RequestRender(id, state.view_size);
            &&& state.is_told(Action::GoBackward, seen, told) ==> told.len() == n + 2 && told[n]
                == Effect::GoBack(id) && told[n + 1] == render
            &&& state.is_told(Action::GoForward, seen, told) ==> told.len() == n + 2 && told[n]
                == Effect::GoForward(id) && told[n + 1] == render
            &&& state.is_told(Action::Refresh, seen, told) ==> told.len() == n + 2 && told[n]
                == Effect::Refresh(id) && told[n + 1] == render
        }),
        state.after(Action::GoBackward) == state,
        state.after(Action::GoForward) == state,
        state.after(Action::Refresh) == state,
{
    if state.is_told(Action::GoBackward, seen, told) {
        law_news_comes_first(state, Action::GoBackward, seen, told);
    }
    if state.is_told(Action::GoForward, seen, told) {
        law_news_comes_first(state, Action::GoForward, seen, told);
    }
    if state.is_told(Action::Refresh, seen, told) {
        law_news_comes_first(state, Action::Refresh, seen, told);
    }
}

/// The view that is current is the one that is sent to an address. Where the
/// engine does not fetch pages, and this build does and can report back, the
/// page is fetched for it. No image counts as being fetched any more, and the
/// view is in a new navigation, but no other view is.
pub proof fn law_current_view_is_sent_to_address(
    state: WebViewState,
    url: PageUrl,
    seen: Seen,
    told: Seq<Effect>,
    other: ViewId,
)
    requires
        state.current is Some,
        state.is_told(Action::GoToUrl(url), seen, told),
    ensures
        ({
            let n = news(state, seen);
            let id = state.ids[state.current->0];
            let after = state.after(Action::GoToUrl(url));
            &&& told.len() >= n + 2
            &&& told[n] == Effect::Goto(id, PageType::Url(url.text))
            &&& told.last() == Effect::RequestRender(id, state.view_size)
            &&& if !state.handles_urls && state.fetches && state.subscriptions.action {
                told.len() == n + 3 && told[n + 1] == Effect::FetchPage(id, url.text)
            } else {
                told.len() == n + 2
            }
            &&& after.inflight == 0
            &&& after.epoch(id) != state.epoch(id)
            &&& state.epoch(id) < u64::MAX ==> after.epoch(id) == state.epoch(id) + 1
            &&& other != id ==> after.epoch(other) == state.epoch(other)
            &&& after == (WebViewState { inflight: after.inflight, epochs: after.epochs, ..state })
        }),
{
    law_news_comes_first(state, Action::GoToUrl(url), seen, told);
}

/// Whatever goes to the current view goes to no other: of an input or a
/// navigation, no effect names a view but the current one.
pub proof fn law_no_other_view_is_touched(
    state: WebViewState,
    action: Action,
    seen: Seen,
    told: Seq<Effect>,
    k: int,
)
    requires
        state.current is Some,
        state.is_told(action, seen, told),
        action is SendKeyboardEvent || action is SendMouseEvent || action is GoBackward
            || action is GoForward || action is Refresh || action is GoToUrl,
        0 <= k < told.len(),
    ensures
        named_view(told[k]) matches Some(id) ==> id == state.ids[state.current->0],
{
    law_news_comes_first(state, action, seen, told);
    match action {
        Action::SendKeyboardEvent(event) => {
            law_key_goes_to_current_view(state, event, seen, told);
        },
        Action::SendMouseEvent(event, point, modifiers) => {
            law_mouse_goes_to_current_view(state, event, point, modifiers, seen, told);
        },
        Action::GoToUrl(url) => {
            law_current_view_is_sent_to_address(state, url, seen, told, 0);
        },
        _ => {
            law_history_is_of_current_view(state, seen, told);
        },
    }
    if k < news(state, seen) {
        let now = state.synced(seen);
        let acted = choose|acted: Seq<Effect>|
            {
                &&& #[trigger] now.acts(action, seen, acted)
                &&& told == state.sync_effects(seen) + acted + now.end_effects(action, seen)
            };
        assert(told[k] == state.sync_effects(seen)[k]);
    }
}

/// The view an effect is about, if it is about one.
pub open spec fn named_view(effect: Effect) -> Option<ViewId> {
    match effect {
        Effect::RequestRender(id, _) => Some(id),
        Effect::RemoveView(id) => Some(id),
        Effect::Goto(id, _) => Some(id),
        Effect::FetchPage(id, _) => Some(id),
        Effect::GoBack(id) => Some(id),
        Effect::GoForward(id) => Some(id),
        Effect::Refresh(id) => Some(id),
        Effect::Keyboard(id, _) => Some(id),
        Effect::Mouse(id, _, _, _) => Some(id),
        Effect::TakeAnchorClick(id) => Some(id),
        Effect::ScrollToFragment(id, _) => Some(id),
        Effect::FlushStagedImages(id, _) => Some(id),
        Effect::SetCssCache(id, _) => Some(id),
        Effect::LoadImage(id, _, _, _) => Some(id),
        _ => None,
    }
}

/// Choosing a view makes it the current one and the last used one, closes and
/// opens none, and renders it.
pub proof fn law_chosen_view_is_current(
    state: WebViewState,
    index: u32,
    seen: Seen,
    told: Seq<Effect>,
)
    requires
        (index as int) < state.ids.len(),
        state.is_told(Action::ChangeView(index), seen, told),
    ensures
        ({
            let n = news(state, seen);
            let id = state.ids[index as int];
            let after = state.after(Action::ChangeView(index));
            &&& after.current == Some(index as int)
            &&& after.used.last() == id
            &&& after == (WebViewState { current: after.current, used: after.used, ..state })
            &&& told.len() == n + 2
            &&& told[n] == Effect::RequestRender(id, state.view_size)
            &&& told[n + 1] == Effect::RequestRender(id, state.view_size)
        }),
{
    law_news_comes_first(state, Action::ChangeView(index), seen, told);
}

/// Closing takes exactly the view at the position out of the list, tells the
/// engine to remove it, and tells the host where it wants to hear of it.
pub proof fn law_closing_removes_the_view(
    state: WebViewState,
    index: u32,
    seen: Seen,
    told: Seq<Effect>,
    k: int,
)
    requires
        (index as int) < state.ids.len(),
        state.is_told(Action::CloseView(index), seen, told),
        state.current matches Some(i) ==> 0 <= i < state.ids.len() - 1,
    ensures
        ({
            let n = news(state, seen);
            let after = state.after(Action::CloseView(index));
            let notices: int = if state.subscriptions.close_view {
                1
            } else {
                0
            };
            &&& after.ids.len() == state.ids.len() - 1
            &&& 0 <= k < index ==> after.ids[k] == state.ids[k]
            &&& index <= k < after.ids.len() ==> after.ids[k] == state.ids[k + 1]
            &&& after.current == state.current
            &&& after == (WebViewState { ids: after.ids, used: after.used, ..state })
            &&& told.len() == n + 1 + notices + if state.current is Some {
                1int
            } else {
                0
            }
            &&& told[n] == Effect::RemoveView(state.ids[index as int])
            &&& state.subscriptions.close_view ==> told[n + 1] == Effect::PublishClosed
            &&& state.current matches Some(i) ==> told.last() == Effect::RequestRender(
                after.ids[i],
                state.view_size,
            )
        }),
{
    law_news_comes_first(state, Action::CloseView(index), seen, told);
}

/// Closing the current view takes it out of the list and removes it, then
/// renders the view that is current from there on, which is the last used one
/// of those that are left. Where none is left no view is current.
pub proof fn law_closing_current_removes_it(
    state: WebViewState,
    seen: Seen,
    told: Seq<Effect>,
    k: int,
)
    requires
        state.is_valid(),
        state.current is Some,
        state.is_told(Action::CloseCurrentView, seen, told),
    ensures
        ({
            let n = news(state, seen);
            let at = state.current->0;
            let after = state.after(Action::CloseCurrentView);
            let notices: int = if state.subscriptions.close_view {
                1
            } else {
                0
            };
            &&& after.ids.len() == state.ids.len() - 1
            &&& 0 <= k < at ==> after.ids[k] == state.ids[k]
            &&& at <= k < after.ids.len() ==> after.ids[k] == state.ids[k + 1]
            &&& after.current is Some <==> after.ids.len() > 0
            &&& after.current matches Some(i) ==> 0 <= i < after.ids.len() && after.ids[i]
                == after.used.last()
            &&& after == (WebViewState {
                ids: after.ids,
                used: after.used,
                current: after.current,
                ..state
            })
            &&& told.len() == n + 1 + notices + if after.current is Some {
                1int
            } else {
                0
            }
            &&& told[n] == Effect::RemoveView(state.ids[at])
            &&& state.subscriptions.close_view ==> told[n + 1] == Effect::PublishClosed
            &&& after.current matches Some(i) ==> told.last() == Effect::RequestRender(
                after.ids[i],
                state.view_size,
            )
        }),
{
    law_news_comes_first(state, Action::CloseCurrentView, seen, told);
    let closed = state.closed(state.current->0);
    lemma_closed_valid(state, state.current->0);
    if closed.used.len() > 0 {
        assert(closed.used.contains(closed.used.last()));
        lemma_position(closed.ids, closed.used.last());
    }
    if closed.ids.len() > 0 {
        assert(closed.ids.contains(closed.ids[0]));
        assert(closed.used.contains(closed.ids[0]));
    }
}

/// A new view is asked for in the size of the views, with the page it is to
/// show; an engine that does not fetch pages is given an address afterwards.
/// No view is closed or changed, and nothing is rendered yet.
pub proof fn law_new_view_is_asked_for(
    state: WebViewState,
    page: PageType,
    seen: Seen,
    told: Seq<Effect>,
)
    requires
        state.is_told(Action::CreateView(page), seen, told),
    ensures
        ({
            let n = news(state, seen);
            let after = state.after(Action::CreateView(page));
            let later = page is Url && !state.handles_urls;
            &&& told.len() == n + 1
            &&& later ==> told[n] == Effect::NewView(state.view_size, None)
            &&& !later ==> told[n] == Effect::NewView(state.view_size, Some(page))
            &&& after == (WebViewState { creating: after.creating, ..state })
            &&& later ==> after.creating == Some(Some(page->Url_0))
            &&& !later ==> after.creating == Some(None::<String>)
        }),
{
    law_news_comes_first(state, Action::CreateView(page), seen, told);
}

/// A view that was created stands behind all others, is current, and is
/// rendered. Where it still has to go somewhere it is sent there first, and the
/// page is fetched for it if this build does that; then the host is told, where
/// it wants to hear of it.
pub proof fn law_created_view_is_sent_on(state: WebViewState, id: ViewId, k: int)
    requires
        state.creating is Some,
        state.creating matches Some(Some(_)) ==> !state.handles_urls,
    ensures
        ({
            let after = state.with_view(id);
            let told = state.created_effects(id);
            let goes: int = if state.creating->0 is Some {
                1
            } else {
                0
            };
            let fetched: int = if goes == 1 && state.fetches && state.subscriptions.action {
                1
            } else {
                0
            };
            let notice: int = if state.subscriptions.create_view {
                1
            } else {
                0
            };
            &&& after.ids.len() == state.ids.len() + 1
            &&& after.ids.last() == id
            &&& 0 <= k < state.ids.len() ==> after.ids[k] == state.ids[k]
            &&& after.current == Some(state.ids.len() as int)
            &&& after.creating is None
            &&& after == (WebViewState {
                ids: after.ids,
                current: after.current,
                used: after.used,
                creating: after.creating,
                ..state
            })
            &&& told.len() == goes + fetched + notice + 1
            &&& told.last() == Effect::RequestRender(id, state.view_size)
            &&& state.creating matches Some(Some(url)) ==> told[0] == Effect::Goto(
                id,
                PageType::Url(url),
            ) && (fetched == 1 ==> told[1] == Effect::FetchPage(id, url))
            &&& notice == 1 ==> told[goes + fetched] == Effect::PublishCreated
        }),
{
}

/// Gaining and losing the keyboard is passed on to the engine as what it is.
pub proof fn law_focus_is_passed_on(state: WebViewState, seen: Seen, told: Seq<Effect>)
    ensures
        state.is_told(Action::Focus, seen, told) ==> told.len() >= news(state, seen) + 1 && told[news(
            state,
            seen,
        )] == Effect::FocusEngine,
        state.is_told(Action::Unfocus, seen, told) ==> told.len() >= news(state, seen) + 1
            && told[news(state, seen)] == Effect::UnfocusEngine,
        state.after(Action::Focus) == state,
        state.after(Action::Unfocus) == state,
{
    if state.is_told(Action::Focus, seen, told) {
        law_news_comes_first(state, Action::Focus, seen, told);
    }
    if state.is_told(Action::Unfocus, seen, told) {
        law_news_comes_first(state, Action::Unfocus, seen, told);
    }
}

/// A tick picks up the display scale, lets the engine work, renders the current
/// view, draws what images have arrived once none is on its way, and looks for
/// images to fetch where this build fetches and can report back.
pub proof fn law_tick_works_in_order(state: WebViewState, seen: Seen, told: Seq<Effect>)
    requires
        state.is_told(Action::Update, seen, told),
    ensures
        ({
            let n = news(state, seen);
            let rendered: int = if state.current is Some {
                1
            } else {
                0
            };
            let flushed: int = if state.current is Some && state.inflight == 0 {
                1
            } else {
                0
            };
            let looked: int = if state.fetches && state.subscriptions.action {
                1
            } else {
                0
            };
            &&& told.len() == n + 2 + rendered + flushed + looked
            &&& told[n] == Effect::ApplyDetectedScale
            &&& told[n + 1] == Effect::UpdateEngine
            &&& rendered == 1 ==> told[n + 2] == Effect::RequestRender(
                state.ids[state.current->0],
                state.view_size,
            )
            &&& flushed == 1 ==> told[n + 3] == Effect::FlushStagedImages(
                state.ids[state.current->0],
                state.view_size,
            )
            &&& looked == 1 ==> told.last() == Effect::TakePendingImages
        }),
        state.after(Action::Update) == state,
{
    law_news_comes_first(state, Action::Update, seen, told);
}

/// A new size is taken over and passed on to the engine, and the current view is
/// rendered in it.
pub proof fn law_new_size_is_passed_on(
    state: WebViewState,
    size: Size,
    seen: Seen,
    told: Seq<Effect>,
)
    requires
        state.is_told(Action::Resize(size), seen, told),
        size != state.view_size,
    ensures
        ({
            let n = news(state, seen);
            &&& state.after(Action::Resize(size)) == (WebViewState { view_size: size, ..state })
            &&& told.len() == n + 1 + if state.current is Some {
                1int
            } else {
                0
            }
            &&& told[n] == Effect::ResizeEngine(size)
            &&& state.current matches Some(i) ==> told.last() == Effect::RequestRender(
                state.ids[i],
                size,
            )
        }),
{
    law_news_comes_first(state, Action::Resize(size), seen, told);
}

/// The selection of the current view is what is copied, and only where there is
/// one and the host wants it; nothing else happens.
pub proof fn law_selection_is_copied(state: WebViewState, seen: Seen, told: Seq<Effect>)
    requires
        state.is_told(Action::CopySelection, seen, told),
    ensures
        ({
            let n = news(state, seen);
            let copies = state.current is Some && state.subscriptions.copy && seen.selected_text
                is Some;
            &&& told.len() == n + if copies {
                1int
            } else {
                0
            }
            &&& copies ==> told[n] == Effect::PublishCopied(seen.selected_text->0)
        }),
        state.after(Action::CopySelection) == state,
{
    law_news_comes_first(state, Action::CopySelection, seen, told);
}

/// A page that was fetched is shown by the view it was fetched for, with its
/// style sheets, whichever view is current; one that could not be fetched is
/// stood in for by a page that names the address and the error. For a view that
/// is gone nothing happens.
pub proof fn law_fetched_page_is_shown(
    state: WebViewState,
    id: ViewId,
    url: String,
    result: Result<(String, Vec<(String, String)>), String>,
    seen: Seen,
    told: Seq<Effect>,
)
    requires
        state.is_told(Action::FetchComplete(id, url, result), seen, told),
    ensures
        ({
            let n = news(state, seen);
            let render: int = if state.current is Some {
                1
            } else {
                0
            };
            &&& !seen.has_view ==> told.len() == n
            &&& seen.has_view ==> (match result {
                Ok(page) => {
                    &&& told.len() == n + 2 + render
                    &&& told[n] == Effect::SetCssCache(id, page.1)
                    &&& told[n + 1] == Effect::Goto(id, PageType::Html(page.0))
                },
                Err(error) => {
                    &&& told.len() == n + 1 + render
                    &&& told[n] matches Effect::Goto(view, PageType::Html(html)) && view == id
                        && html@ == "<html><body><h1>Failed to load</h1><p>"@
                        + crate::util::html_escaped(url@) + "</p><p>"@ + crate::util::html_escaped(
                        error@,
                    ) + "</p></body></html>"@
                },
            })
            &&& seen.has_view && render == 1 ==> told.last() == Effect::RequestRender(
                state.ids[state.current->0],
                state.view_size,
            )
        }),
        state.after(Action::FetchComplete(id, url, result)) == state,
{
    law_news_comes_first(state, Action::FetchComplete(id, url, result), seen, told);
}

/// An image that has arrived is given to the view it was fetched for exactly if
/// it was fetched, the view is still there, and it is still in the navigation
/// the image was fetched for. One image less is being fetched either way.
pub proof fn law_arrived_image_is_given_to_its_view(
    state: WebViewState,
    id: ViewId,
    src: String,
    result: Result<Vec<u8>, String>,
    redraw: bool,
    epoch: u64,
    seen: Seen,
    told: Seq<Effect>,
)
    requires
        state.is_told(Action::ImageFetchComplete(id, src, result, redraw, epoch), seen, told),
    ensures
        ({
            let n = news(state, seen);
            let action = Action::ImageFetchComplete(id, src, result, redraw, epoch);
            let known = if state.epochs.dom().contains(id) {
                state.epochs[id]
            } else {
                0
            };
            let given = result is Ok && seen.has_view && epoch == known;
            &&& told.len() == n + if given {
                1int
            } else {
                0
            }
            &&& given ==> told[n] == Effect::LoadImage(id, src, result->Ok_0, redraw)
            &&& state.inflight > 0 ==> state.after(action).inflight == state.inflight - 1
            &&& state.inflight <= 0 ==> state.after(action).inflight == 0
            &&& state.after(action) == (WebViewState {
                inflight: state.after(action).inflight,
                ..state
            })
        }),
{
    law_news_comes_first(
        state,
        Action::ImageFetchComplete(id, src, result, redraw, epoch),
        seen,
        told,
    );
}

/// What can be asked at any time, what needs a current view, and what needs a
/// view at the position it names: nothing while a view is being created.
pub proof fn law_actions_that_can_be_carried_out(
    state: WebViewState,
    index: u32,
    page: PageType,
    url: PageUrl,
    key: KeyboardEvent,
    size: Size,
)
    requires
        state.creating is None,
    ensures
        state.allows(Action::CreateView(page)),
        state.allows(Action::Update),
        state.allows(Action::Resize(size)),
        state.allows(Action::CopySelection),
        state.allows(Action::Focus),
        state.allows(Action::Unfocus),
        state.allows(Action::ChangeView(index)) <==> index < state.ids.len(),
        state.allows(Action::CloseCurrentView) <==> state.current is Some,
        state.allows(Action::GoBackward) <==> state.current is Some,
        state.allows(Action::GoForward) <==> state.current is Some,
        state.allows(Action::Refresh) <==> state.current is Some,
        state.allows(Action::GoToUrl(url)) <==> state.current is Some,
        state.allows(Action::SendKeyboardEvent(key)) <==> state.current is Some,
        index < state.ids.len() && state.current is None ==> state.allows(
            Action::CloseView(index),
        ),
        index < state.ids.len() && state.current is Some && state.current->0 < state.ids.len() - 1
            ==> state.allows(Action::CloseView(index)),
{
}

/// A web view starts without views, at 1920 by 1080 pixels and a scale of one,
/// and the host hears of nothing.
pub proof fn law_web_view_starts_empty(handles_urls: bool, fetches: bool)
    ensures
        ({
            let state = WebViewState::at_start(handles_urls, fetches);
            &&& state.ids.len() == 0 && state.used.len() == 0
            &&& state.current is None && state.creating is None
            &&& state.view_size.width == 1920 && state.view_size.height == 1080
            &&& state.scale_factor == 0x3f80_0000
            &&& state.url.len() == 0 && state.title.len() == 0
            &&& state.inflight == 0
            &&& forall|id: ViewId| state.epoch(id) == 0
            &&& !state.subscriptions.create_view && !state.subscriptions.close_view
            &&& !state.subscriptions.url_change && !state.subscriptions.title_change
            &&& !state.subscriptions.copy && !state.subscriptions.action
            &&& state.handles_urls == handles_urls && state.fetches == fetches
        }),
{
}

/// A link to another page on the web leads there, whether or not it names a
/// place in it: the pages differ where the scheme, the host, the port, the path
/// or the query do. A link within the page leads to the place it names, or
/// nowhere. What is not on the web is not followed.
pub proof fn law_link_leads_where_it_says(
    target: crate::util::UrlView,
    base: Result<crate::util::UrlView, url::ParseError>,
    error: url::ParseError,
)
    ensures
        ({
            let on_web = target.scheme == "http"@ || target.scheme == "https"@;
            let within = base matches Ok(page) && target.scheme == page.scheme && target.host
                == page.host && target.port == page.port && target.path == page.path && target.query
                == page.query;
            let leads = anchor_leads(Ok(target), base);
            &&& !on_web ==> leads is Nowhere
            &&& on_web && !within ==> leads == AnchorView::Page(target)
            &&& on_web && within && target.fragment is Some ==> leads == AnchorView::Fragment(
                target.fragment->0,
            )
            &&& on_web && within && target.fragment is None ==> leads is Nowhere
        }),
        anchor_leads(Err(error), base) is Nowhere,
{
}

/// A link is taken for what it says where it is an address of its own, and
/// relative to the page otherwise.
pub proof fn law_link_is_relative_to_page(href: Seq<char>, page: Seq<char>)
    ensures
        crate::util::url_parsed(href) is Ok ==> link_leads(href, page) == anchor_leads(
            crate::util::url_parsed(href),
            crate::util::url_parsed(page),
        ),
        crate::util::url_parsed(href) is Err ==> link_leads(href, page) == anchor_leads(
            crate::util::url_joined(page, href),
            crate::util::url_parsed(page),
        ),
{
}

/// Only images on the web are fetched, from the whole address they have.
pub proof fn law_images_come_from_the_web(
    url: crate::util::UrlView,
    error: url::ParseError,
)
    ensures
        url.scheme == "http"@ || url.scheme == "https"@ ==> fetch_address(Ok(url)) == Some(
            url.text,
        ),
        url.scheme != "http"@ && url.scheme != "https"@ ==> fetch_address(Ok(url)) is None,
        fetch_address(Err(error)) is None,
{
}

/// Every image that is on the web is fetched, in the order it was asked for,
/// and reported with the view, the name and the navigation it was asked for.
pub proof fn law_each_image_is_fetched(
    state: WebViewState,
    pending: Seq<PendingImage>,
    image: PendingImage,
    n: int,
)
    ensures
        ({
            let before = state.image_fetches(pending);
            let fetches = state.image_fetches(pending.push(image));
            match fetch_address(
                crate::util::resolved_url(image.src@, image.baseurl@, image.page_url@),
            ) {
                None => fetches == before,
                Some(url) => {
                    &&& fetches.len() == before.len() + 1
                    &&& fetches.drop_last() == before
                    &&& fetches.last().view == image.view
                    &&& fetches.last().src == image.src@
                    &&& fetches.last().url == url
                    &&& fetches.last().redraw_on_ready == image.redraw_on_ready
                    &&& fetches.last().epoch == if state.epochs.dom().contains(image.view) {
                        state.epochs[image.view]
                    } else {
                        0
                    }
                },
            }
        }),
        state.image_fetches(Seq::empty()).len() == 0,
        state.fetching(n) == (WebViewState { inflight: state.inflight + n, ..state }),
{
    assert(pending.push(image).drop_last() =~= pending);
    let fetches = state.image_fetches(pending.push(image));
    if fetches.len() > state.image_fetches(pending).len() {
        assert(fetches.drop_last() =~= state.image_fetches(pending));
    }
}

/// Taking an id out of a list leaves the others as they are, in order; the
/// position of an id is the first one it has.
pub proof fn law_lists_of_ids(ids: Seq<ViewId>, id: ViewId)
    ensures
        without(ids, id) == ids.filter(|x: ViewId| x != id),
        ids.contains(id) ==> 0 <= position_of(ids, id) < ids.len() && ids[position_of(ids, id)]
            == id,
        !ids.contains(id) ==> position_of(ids, id) == ids.len(),
        forall|k: int| 0 <= k < position_of(ids, id) && k < ids.len() ==> ids[k] != id,
    decreases ids.len(),
{
    reveal(Seq::filter);
    lemma_position(ids, id);
    lemma_none_before(ids, id);
    lemma_without_filters(ids, id);
}

proof fn lemma_none_before(ids: Seq<ViewId>, id: ViewId)
    ensures
        forall|k: int| 0 <= k < position_of(ids, id) && k < ids.len() ==> ids[k] != id,
        !ids.contains(id) ==> position_of(ids, id) == ids.len(),
    decreases ids.len(),
{
    if ids.len() > 0 && ids.first() != id {
        let rest = ids.drop_first();
        lemma_none_before(rest, id);
        assert forall|k: int| 0 <= k < position_of(ids, id) && k < ids.len() implies ids[k]
            != id by {
            if k > 0 {
                assert(rest[k - 1] == ids[k]);
            }
        }
        if !ids.contains(id) {
            assert forall|k: int| 0 <= k < rest.len() implies rest[k] != id by {
                assert(ids[k + 1] == rest[k]);
            }
        }
    } else if ids.len() > 0 {
        assert(ids[0] == id);
    }
}

proof fn lemma_without_filters(ids: Seq<ViewId>, id: ViewId)
    ensures
        without(ids, id) == ids.filter(|x: ViewId| x != id),
    decreases ids.len(),
{
    reveal(Seq::filter);
    if ids.len() > 0 {
        lemma_without_filters(ids.drop_last(), id);
    }
}

/// The image widget asks for a resize first where its size is not the one it
/// told last.
pub proof fn law_widget_tells_its_size(
    told: Size,
    event: Event,
    size: Size,
    inside: Option<Point>,
)
    ensures
        told != size ==> widget_asks(told, event, size, inside).len() > 0 && widget_asks(
            told,
            event,
            size,
            inside,
        )[0] == Action::Resize(size) && widget_asks(told, event, size, inside).drop_first()
            == widget_asks(size, event, size, inside),
        forall|k: int|
            0 <= k < widget_asks(size, event, size, inside).len() ==> !(#[trigger] widget_asks(
                size,
                event,
                size,
                inside,
            )[k] is Resize),
{
    if told != size {
        assert(widget_asks(told, event, size, inside).drop_first() =~= widget_asks(
            size,
            event,
            size,
            inside,
        ));
    }
}

/// The image widget passes every key on, asking for a copy first where the key
/// is the shortcut for it, and every mouse event over it, at its place. From
/// elsewhere it passes on only that the pointer left the window.
pub proof fn law_widget_passes_input_on(
    size: Size,
    key: KeyboardEvent,
    mouse: MouseEvent,
    touch: crate::input::TouchEvent,
    point: Point,
    inside: Option<Point>,
)
    ensures
        ({
            let asked = widget_asks(size, Event::Keyboard(key), size, inside);
            &&& asked.len() > 0
            &&& asked.last() == Action::SendKeyboardEvent(key)
            &&& asked.len() == if key.is_copy_shortcut() {
                2int
            } else {
                1
            }
            &&& key.is_copy_shortcut() ==> asked[0] == Action::CopySelection
        }),
        ({
            let asked = widget_asks(size, Event::Mouse(mouse), size, Some(point));
            asked.len() == 1 && asked[0] == Action::SendMouseEvent(
                mouse,
                point,
                Modifiers::none_held(),
            )
        }),
        ({
            let asked = widget_asks(size, Event::Mouse(mouse), size, None);
            &&& asked.len() == if mouse == MouseEvent::CursorLeft {
                1int
            } else {
                0
            }
            &&& mouse == MouseEvent::CursorLeft ==> asked[0] == Action::SendMouseEvent(
                mouse,
                Point { x: 0, y: 0 },
                Modifiers::none_held(),
            )
        }),
        widget_asks(size, Event::Touch(touch), size, inside).len() == 0,
        widget_asks(size, Event::Other, size, inside).len() == 0,
{
}

/// Which view was used before which is remembered: the view that becomes the
/// current one moves to the end of that list, a closed one leaves it, and the
/// others stay there in their order.
pub proof fn law_use_is_remembered(state: WebViewState, index: u32, id: ViewId)
    requires
        (index as int) < state.ids.len(),
    ensures
        ({
            let chosen = state.after(Action::ChangeView(index));
            let at = state.ids[index as int];
            chosen.used == state.used.filter(|x: ViewId| x != at).push(at)
        }),
        state.with_view(id).used == state.used.filter(|x: ViewId| x != id).push(id),
        ({
            let closed = state.after(Action::CloseView(index));
            let at = state.ids[index as int];
            &&& !closed.ids.contains(at) ==> closed.used == state.used.filter(|x: ViewId| x != at)
            &&& closed.ids.contains(at) ==> closed.used == state.used
        }),
{
    lemma_without_filters(state.used, state.ids[index as int]);
    lemma_without_filters(state.used, id);
}

/// Nothing can be asked while a view is being created; what has been fetched
/// can be reported at any other time, and the mouse needs a current view.
pub proof fn law_actions_wait_for_new_view(
    state: WebViewState,
    action: Action,
    id: ViewId,
    url: String,
    result: Result<(String, Vec<(String, String)>), String>,
    bytes: Result<Vec<u8>, String>,
    redraw: bool,
    epoch: u64,
    event: MouseEvent,
    point: Point,
    modifiers: Modifiers,
)
    ensures
        state.creating is Some ==> !state.allows(action),
        state.creating is None ==> state.allows(Action::FetchComplete(id, url, result)),
        state.creating is None ==> state.allows(
            Action::ImageFetchComplete(id, url, bytes, redraw, epoch),
        ),
        state.creating is None ==> (state.allows(Action::SendMouseEvent(event, point, modifiers))
            <==> state.current is Some),
{
}

/// Showing a page is sending the view to that very text, and scrolling is
/// scrolling the view to that very place; neither is anything else.
pub proof fn law_pages_and_places_are_the_ones_named(
    effect: Effect,
    id: ViewId,
    text: String,
    other: Seq<char>,
)
    ensures
        shows_page(Effect::Goto(id, PageType::Html(text)), id, text@),
        scrolls_to(Effect::ScrollToFragment(id, text), id, text@),
        shows_page(effect, id, other) ==> (effect matches Effect::Goto(view, PageType::Html(page))
            && view == id && page@ == other),
        scrolls_to(effect, id, other) ==> (effect matches Effect::ScrollToFragment(view, place)
            && view == id && place@ == other),
{
}

} // verus!
