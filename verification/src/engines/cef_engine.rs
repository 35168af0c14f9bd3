//! The state of the CEF engine: its views and what their browsers report.
//!
//! CEF renders pages off-screen and reports by callbacks. What a callback
//! reports goes into the [`SharedState`] of the view it is about, and is taken
//! from there once a tick. Whoever holds the browsers makes the calls; here it
//! is decided which. `B` is a browser.

use std::sync::Arc;

use vstd::prelude::*;
use vstd::string::*;

use crate::data_url::html_data_url;
use crate::engines::cef_input::{
    cursor_type_to_interaction, key_events, ClickState, CursorType, KeyEvent, PageMouse, SinceClick,
};
use crate::engines::paint::{PaintBuffer, Rect};
use crate::engines::{random_view_id, ConsoleMessage, FrameImage, PageType, PixelFormat, ViewId};
use crate::input::{Interaction, KeyboardEvent, Modifiers, MouseEvent, Size};

verus! {

/// The address of an empty page.
pub const ABOUT_BLANK: &'static str = "about:blank";

/// How often a second a page is painted.
pub const FRAME_RATE: i32 = 60;

/// What stands for a character in the text of an error page.
pub open spec fn tag_escaped_char(c: char) -> Seq<char> {
    if c == '&' {
        "&amp;"@
    } else if c == '<' {
        "&lt;"@
    } else if c == '>' {
        "&gt;"@
    } else {
        seq![c]
    }
}

/// A text with the characters replaced that could open or close a tag.
pub open spec fn tag_escaped(text: Seq<char>) -> Seq<char>
    decreases text.len(),
{
    if text.len() == 0 {
        Seq::empty()
    } else {
        tag_escaped(text.drop_last()) + tag_escaped_char(text.last())
    }
}

/// Minimal HTML escaping for text in the error page.
pub fn html_escape(value: &str) -> (escaped: String)
    ensures
        escaped@ == tag_escaped(value@),
{
    let mut escaped: String = String::new();
    assert(value@.take(0) =~= Seq::empty());
    for c in iter: value.chars()
        invariant
            iter.seq() == value@,
            escaped@ == tag_escaped(value@.take(iter.index())),
    {
        proof {
            let k = iter.index();
            assert(value@.take(k + 1).drop_last() =~= value@.take(k));
            assert(value@.take(k + 1).last() == c);
            assert(escaped@.push(c) =~= escaped@ + seq![c]);
        }
        if c == '&' {
            escaped.append("&amp;");
        } else if c == '<' {
            escaped.append("&lt;");
        } else if c == '>' {
            escaped.append("&gt;");
        } else {
            escaped.push(c);
        }
    }
    assert(value@.take(value@.len() as int) =~= value@);
    escaped
}

/// Escaped text opens and closes no tag.
pub proof fn law_escaped_text_has_no_tag(text: Seq<char>)
    ensures
        !tag_escaped(text).contains('<'),
        !tag_escaped(text).contains('>'),
    decreases text.len(),
{
    if text.len() > 0 {
        law_escaped_text_has_no_tag(text.drop_last());
        reveal_strlit("&amp;");
        reveal_strlit("&lt;");
        reveal_strlit("&gt;");
        let before = tag_escaped(text.drop_last());
        let last = tag_escaped_char(text.last());
        let all = tag_escaped(text);
        assert(all == before + last);
        assert forall|k: int| 0 <= k < all.len() implies all[k] != '<' && all[k] != '>' by {
            if k < before.len() {
                assert(before.contains(before[k]));
            } else {
                assert(last[k - before.len()] == all[k]);
            }
        }
    }
}

/// The page shown in place of one that could not be loaded.
pub open spec fn load_error_page(url: Seq<char>, error: Seq<char>) -> Seq<char> {
    "<html><body style=\"font-family:sans-serif;padding:2rem\"><h2>Failed to load</h2><p>"@
        + tag_escaped(url) + "</p><p style=\"color:#666\">"@ + tag_escaped(error)
        + "</p></body></html>"@
}

/// The address of the page shown in place of one that could not be loaded.
pub fn load_error_address(url: &str, error: &str) -> (address: String)
    ensures
        address@ == crate::data_url::html_address(load_error_page(url@, error@)),
{
    let mut page: String =
        "<html><body style=\"font-family:sans-serif;padding:2rem\"><h2>Failed to load</h2><p>".to_owned();
    page.append(html_escape(url).as_str());
    page.append("</p><p style=\"color:#666\">");
    page.append(html_escape(error).as_str());
    page.append("</p></body></html>");
    html_data_url(page.as_str())
}

/// A switch on a browser's command line, with its value if it has one.
#[derive(Clone, Copy, Debug)]
pub struct Switch {
    pub name: &'static str,
    pub value: Option<&'static str>,
}

/// A switch, with texts for strings.
pub struct SwitchView {
    pub name: Seq<char>,
    pub value: Option<Seq<char>>,
}

impl View for Switch {
    type V = SwitchView;

    open spec fn view(&self) -> SwitchView {
        SwitchView {
            name: self.name@,
            value: match self.value {
                Some(value) => Some(value@),
                None => None,
            },
        }
    }
}

/// A switch without a value.
pub open spec fn flag(name: &str) -> SwitchView {
    SwitchView { name: name@, value: None }
}

/// A switch with a value.
pub open spec fn setting(name: &str, value: &str) -> SwitchView {
    SwitchView { name: name@, value: Some(value@) }
}

/// The switches a process is started with. All processes use or avoid the GPU
/// alike and leave the system keyring alone; the rest is for the browser.
pub open spec fn process_switches(disable_gpu: bool, is_browser: bool) -> Seq<SwitchView> {
    (if disable_gpu {
        seq![setting("ozone-platform", "headless"), flag("disable-gpu"), flag("in-process-gpu")]
    } else {
        seq![setting("ozone-platform-hint", "x11")]
    }) + seq![setting("password-store", "basic")] + (if is_browser {
        seq![
            flag("disable-gpu-compositing"),
            flag("disable-gpu-shader-disk-cache"),
            flag("enable-accelerated-2d-canvas"),
            setting(
                "enable-features",
                "CanvasOopRasterization,UserAgentClientHints,GreaseUACH",
            ),
        ]
    } else {
        Seq::empty()
    })
}

/// Whether a value of the environment says that the GPU is not to be used.
pub open spec fn says_yes(value: Option<Seq<char>>) -> bool {
    value matches Some(text) && {
        let word = crate::text::trimmed(text);
        word == "1"@ || word == "true"@ || word == "yes"@
    }
}

/// Whether a value of the environment says that the GPU is not to be used.
pub fn disables_gpu(value: Option<&str>) -> (disables: bool)
    ensures
        disables == says_yes(
            match value {
                Some(text) => Some(text@),
                None => None,
            },
        ),
{
    match value {
        Some(text) => {
            let word: &str = crate::text::trim(text);
            crate::text::str_eq(word, "1") || crate::text::str_eq(word, "true")
                || crate::text::str_eq(word, "yes")
        },
        None => false,
    }
}

/// Whether a process is the browser: it has no type, or an empty one.
pub fn is_browser_process(process_type: Option<&str>) -> (is_browser: bool)
    ensures
        is_browser == (process_type matches Some(text) ==> text@.len() == 0),
{
    match process_type {
        Some(text) => text.is_empty(),
        None => true,
    }
}

fn push_switch(switches: &mut Vec<Switch>, name: &'static str, value: Option<&'static str>)
    ensures
        switch_views(final(switches)@) == switch_views(old(switches)@).push(
            SwitchView {
                name: name@,
                value: match value {
                    Some(text) => Some(text@),
                    None => None,
                },
            },
        ),
{
    let ghost before = switches@;
    let switch = Switch { name, value };
    switches.push(switch);
    assert(switch_views(switches@) =~= switch_views(before).push(switch@));
}

/// Switches with texts for strings.
pub open spec fn switch_views(switches: Seq<Switch>) -> Seq<SwitchView> {
    switches.map_values(|s: Switch| s@)
}

/// The switches a process is started with.
pub fn command_line_switches(disable_gpu: bool, is_browser: bool) -> (switches: Vec<Switch>)
    ensures
        switch_views(switches@) == process_switches(disable_gpu, is_browser),
{
    let mut switches: Vec<Switch> = Vec::new();
    if disable_gpu {
        push_switch(&mut switches, "ozone-platform", Some("headless"));
        push_switch(&mut switches, "disable-gpu", None);
        push_switch(&mut switches, "in-process-gpu", None);
    } else {
        push_switch(&mut switches, "ozone-platform-hint", Some("x11"));
    }
    push_switch(&mut switches, "password-store", Some("basic"));
    if is_browser {
        push_switch(&mut switches, "disable-gpu-compositing", None);
        push_switch(&mut switches, "disable-gpu-shader-disk-cache", None);
        push_switch(&mut switches, "enable-accelerated-2d-canvas", None);
        push_switch(
            &mut switches,
            "enable-features",
            Some("CanvasOopRasterization,UserAgentClientHints,GreaseUACH"),
        );
    }
    assert(switch_views(switches@) =~= process_switches(disable_gpu, is_browser));
    switches
}

/// The switches that a helper process gets are those the browser gets first.
pub proof fn law_helpers_share_switches(disable_gpu: bool)
    ensures
        process_switches(disable_gpu, false).is_prefix_of(process_switches(disable_gpu, true)),
{
}

/// The directory the browser keeps its files in: below the cache directory,
/// which is below the home directory unless it is named.
pub open spec fn cache_place(xdg_cache_home: Option<Seq<char>>, home: Option<Seq<char>>) -> Seq<
    char,
> {
    (match xdg_cache_home {
        Some(dir) => dir,
        None => (match home {
            Some(dir) => dir,
            None => "/tmp"@,
        }) + "/.cache"@,
    }) + "/iced_webview_cef"@
}

/// An optional text as its characters.
pub open spec fn opt_chars(text: Option<&str>) -> Option<Seq<char>> {
    match text {
        Some(t) => Some(t@),
        None => None,
    }
}

/// The directory the browser keeps its files in.
pub fn cache_dir(xdg_cache_home: Option<&str>, home: Option<&str>) -> (dir: String)
    ensures
        dir@ == cache_place(opt_chars(xdg_cache_home), opt_chars(home)),
{
    let mut dir: String = match xdg_cache_home {
        Some(cache) => cache.to_owned(),
        None => {
            let mut cache: String = match home {
                Some(home) => home.to_owned(),
                None => "/tmp".to_owned(),
            };
            cache.append("/.cache");
            cache
        },
    };
    dir.append("/iced_webview_cef");
    dir
}

/// The files in that directory that a crashed run may have left behind.
pub const SINGLETON_FILES: [&'static str; 3] = [
    "SingletonLock",
    "SingletonSocket",
    "SingletonCookie",
];

/// Why CEF could not be initialized, given what initializing returned.
pub open spec fn init_failure(result: int, cef_dir: Seq<char>, cache: Seq<char>) -> Option<
    Seq<char>,
> {
    if result == 1 {
        None
    } else {
        Some(
            "CEF initialize() returned "@ + crate::text::int_text(result)
                + " (expected 1). cef_dir="@ + cef_dir + ", cache="@ + cache,
        )
    }
}

/// Why CEF could not be initialized, if it could not.
pub fn init_error_message(result: i32, cef_dir: &str, cache: &str) -> (message: Option<String>)
    ensures
        crate::util::opt_text(message) == init_failure(result as int, cef_dir@, cache@),
{
    if result == 1 {
        return None;
    }
    let mut message: String = "CEF initialize() returned ".to_owned();
    message.append(crate::text::i32_text(result).as_str());
    message.append(" (expected 1). cef_dir=");
    message.append(cef_dir);
    message.append(", cache=");
    message.append(cache);
    Some(message)
}

/// The library path with the CEF directory in front, if it is no entry of it
/// yet.
pub open spec fn extended_lib_path(cef_dir: Seq<char>, ld_path: Seq<char>) -> Option<Seq<char>> {
    if crate::text::split_on(ld_path, ':').contains(cef_dir) {
        None
    } else if ld_path.len() == 0 {
        Some(cef_dir)
    } else {
        Some(cef_dir + ":"@ + ld_path)
    }
}

/// Whether a directory is an entry of a search path.
fn has_entry(search_path: &str, dir: &str) -> (has: bool)
    ensures
        has == crate::text::split_on(search_path@, ':').contains(dir@),
{
    let entries: Vec<String> = crate::text::split_text(search_path, ':');
    let ghost texts = crate::text::texts(entries@);
    let mut i: usize = 0;
    while i < entries.len()
        invariant
            i <= entries@.len(),
            texts == crate::text::texts(entries@),
            texts == crate::text::split_on(search_path@, ':'),
            forall|k: int| 0 <= k < i ==> texts[k] != dir@,
        decreases entries@.len() - i,
    {
        assert(texts[i as int] == entries@[i as int]@);
        if crate::text::str_eq(entries[i].as_str(), dir) {
            return true;
        }
        i = i + 1;
    }
    false
}

/// The library path that lets helper processes find CEF's libraries, if it
/// differs from the one there is.
pub fn cef_lib_path(cef_dir: &str, ld_path: &str) -> (path: Option<String>)
    ensures
        crate::util::opt_text(path) == extended_lib_path(cef_dir@, ld_path@),
{
    if has_entry(ld_path, cef_dir) {
        return None;
    }
    let mut path: String = cef_dir.to_owned();
    if !ld_path.is_empty() {
        path.append(":");
        path.append(ld_path);
    }
    Some(path)
}

/// The CEF directory is on the library path afterwards, as an entry of its own.
pub proof fn law_cef_dir_is_on_lib_path(cef_dir: Seq<char>, ld_path: Seq<char>)
    requires
        !cef_dir.contains(':'),
    ensures
        crate::text::split_on(
            match extended_lib_path(cef_dir, ld_path) {
                Some(path) => path,
                None => ld_path,
            },
            ':',
        ).contains(cef_dir),
{
    match extended_lib_path(cef_dir, ld_path) {
        Some(path) => {
            reveal_strlit(":");
            let pieces = crate::text::split_on(path, ':');
            if ld_path.len() == 0 {
                crate::text::lemma_split_whole(cef_dir, ':');
            } else {
                assert(path =~= cef_dir.push(':') + ld_path);
                crate::text::lemma_split_first(cef_dir, ld_path, ':');
            }
            assert(pieces[0] == cef_dir);
        },
        None => {},
    }
}

/// Once the library path was extended it is not extended again.
pub proof fn law_lib_path_is_extended_once(cef_dir: Seq<char>, ld_path: Seq<char>)
    requires
        !cef_dir.contains(':'),
    ensures
        extended_lib_path(cef_dir, ld_path) matches Some(path) ==> extended_lib_path(cef_dir, path)
            is None,
{
    law_cef_dir_is_on_lib_path(cef_dir, ld_path);
}

/// Whether this process is a helper of CEF's and its work is done. `has_type`
/// says whether the command line, if there is one, names a process type, and
/// `executed` what running the helper returned.
pub fn is_finished_subprocess(has_type: Option<bool>, executed: i32) -> (finished: bool)
    ensures
        finished == (has_type == Some(true) && executed >= 0),
{
    is_subprocess(has_type) && executed >= 0
}

/// Whether this process is a helper of CEF's, which is then to be run.
pub fn is_subprocess(has_type: Option<bool>) -> (is_helper: bool)
    ensures
        is_helper == (has_type == Some(true)),
{
    match has_type {
        Some(has) => has,
        None => false,
    }
}

/// What became of a window that a page wants to open.
#[derive(Debug)]
pub enum PopupAnswer {
    /// There is nothing to open.
    Nothing,
    /// The host is to open it elsewhere.
    HandedToHost,
    /// It is to be loaded in place of the page.
    LoadHere(String),
}

/// What the callbacks of a browser have reported since the last tick.
#[derive(Debug)]
pub struct SharedState {
    frame_buffer: Option<(Arc<Vec<u8>>, u32, u32)>,
    persistent: PaintBuffer,
    url: Option<String>,
    popup_url: Option<String>,
    title: Option<String>,
    cursor_type: CursorType,
    size: Size,
    scale_factor: u32,
    page_loaded: bool,
    console_messages: Vec<ConsoleMessage>,
    block_navigation: bool,
    user_agent: Option<String>,
}

/// What the callbacks of a browser have reported since the last tick.
#[verifier::ext_equal]
pub struct SharedView {
    /// A frame nobody has taken yet.
    pub frame: Option<(Seq<u8>, u32, u32)>,
    /// The last frame.
    pub persistent: crate::engines::paint::PaintView,
    pub url: Option<Seq<char>>,
    /// An address the host is to open elsewhere.
    pub popup_url: Option<Seq<char>>,
    pub title: Option<Seq<char>>,
    pub cursor_type: CursorType,
    pub size: Size,
    /// The display scale, as the bits of the number.
    pub scale_factor: u32,
    /// Whether a page has finished loading.
    pub page_loaded: bool,
    pub console: Seq<crate::engines::ConsoleView>,
    /// Whether the page may not be left. Links are then handed to the host.
    pub block_navigation: bool,
    /// What the browser calls itself, where it is not left to the engine.
    pub user_agent: Option<Seq<char>>,
}

/// Console messages with texts for strings.
pub open spec fn console_views(messages: Seq<ConsoleMessage>) -> Seq<crate::engines::ConsoleView> {
    messages.map_values(|m: ConsoleMessage| m@)
}

impl View for SharedState {
    type V = SharedView;

    closed spec fn view(&self) -> SharedView {
        SharedView {
            frame: match self.frame_buffer {
                Some((pixels, width, height)) => Some((pixels@, width, height)),
                None => None,
            },
            persistent: self.persistent@,
            url: crate::util::opt_text(self.url),
            popup_url: crate::util::opt_text(self.popup_url),
            title: crate::util::opt_text(self.title),
            cursor_type: self.cursor_type,
            size: self.size,
            scale_factor: self.scale_factor,
            page_loaded: self.page_loaded,
            console: console_views(self.console_messages@),
            block_navigation: self.block_navigation,
            user_agent: crate::util::opt_text(self.user_agent),
        }
    }
}

/// Whether an address is part of the document a view was given, or no document
/// at all.
pub open spec fn stays_in_document(url: Seq<char>) -> bool {
    url.len() == 0 || "data:"@.is_prefix_of(url) || url == ABOUT_BLANK@
}

impl SharedView {
    /// A browser that has reported nothing.
    pub open spec fn at_start(
        size: Size,
        scale_factor: u32,
        block_navigation: bool,
        user_agent: Option<Seq<char>>,
    ) -> SharedView {
        SharedView {
            frame: None,
            persistent: crate::engines::paint::PaintView {
                pixels: Seq::empty(),
                width: 0,
                height: 0,
            },
            url: None,
            popup_url: None,
            title: None,
            cursor_type: CursorType::Pointer,
            size,
            scale_factor,
            page_loaded: false,
            console: Seq::empty(),
            block_navigation,
            user_agent,
        }
    }

    /// Whether a navigation is cancelled: the page may not be left, and the
    /// main frame would leave it. An unknown frame counts as the main one.
    pub open spec fn cancels(self, is_main: Option<bool>, url: Option<Seq<char>>) -> bool {
        &&& self.block_navigation
        &&& is_main != Some(false)
        &&& url matches Some(target) && !stays_in_document(target)
    }
}

impl SharedState {
    /// A browser that has reported nothing.
    pub fn new(
        size: Size,
        scale_factor: u32,
        block_navigation: bool,
        user_agent: Option<String>,
    ) -> (shared: SharedState)
        ensures
            shared@ == SharedView::at_start(
                size,
                scale_factor,
                block_navigation,
                crate::util::opt_text(user_agent),
            ),
    {
        let shared = SharedState {
            frame_buffer: None,
            persistent: PaintBuffer::new(),
            url: None,
            popup_url: None,
            title: None,
            cursor_type: CursorType::Pointer,
            size,
            scale_factor,
            page_loaded: false,
            console_messages: Vec::new(),
            block_navigation,
            user_agent,
        };
        assert(shared@ =~= SharedView::at_start(
            size,
            scale_factor,
            block_navigation,
            crate::util::opt_text(user_agent),
        ));
        shared
    }

    /// The size the page is rendered at.
    pub fn size(&self) -> (size: Size)
        ensures
            size == self@.size,
    {
        self.size
    }

    /// The display scale the page is rendered for.
    pub fn scale_factor(&self) -> (scale: u32)
        ensures
            scale == self@.scale_factor,
    {
        self.scale_factor
    }

    /// What every request of the page calls the browser, where that is not left
    /// to the engine.
    pub fn user_agent(&self) -> (user_agent: Option<&String>)
        ensures
            match user_agent {
                Some(text) => self@.user_agent == Some(text@),
                None => self@.user_agent is None,
            },
    {
        match &self.user_agent {
            Some(text) => Some(text),
            None => None,
        }
    }

    /// A frame was painted. `dirty` are the rectangles that changed, if they
    /// are known.
    pub fn on_paint(&mut self, src: &[u8], dirty: Option<&[Rect]>, width: u32, height: u32)
        requires
            crate::engines::paint::fits(src@, width, height),
        ensures
            old(self)@.persistent.is_repainted(
                src@,
                match dirty {
                    Some(rects) => Some(rects@),
                    None => None,
                },
                width,
                height,
                final(self)@.persistent,
            ),
            final(self)@ == (SharedView {
                persistent: final(self)@.persistent,
                frame: Some((final(self)@.persistent.pixels, width, height)),
                ..old(self)@
            }),
    {
        self.frame_buffer = None;
        self.persistent.paint(src, dirty, width, height);
        self.frame_buffer = Some((self.persistent.pixels(), width, height));
        assert(self@ =~= (SharedView {
            persistent: self@.persistent,
            frame: Some((self@.persistent.pixels, width, height)),
            ..old(self)@
        }));
    }

    /// The address of the page changed.
    pub fn on_address_change(&mut self, url: Option<String>)
        ensures
            final(self)@ == (SharedView {
                url: if url is Some {
                    crate::util::opt_text(url)
                } else {
                    old(self)@.url
                },
                ..old(self)@
            }),
    {
        if url.is_some() {
            self.url = url;
        }
        assert(self@ =~= (SharedView { url: self@.url, ..old(self)@ }));
    }

    /// The title of the page changed.
    pub fn on_title_change(&mut self, title: Option<String>)
        ensures
            final(self)@ == (SharedView {
                title: if title is Some {
                    crate::util::opt_text(title)
                } else {
                    old(self)@.title
                },
                ..old(self)@
            }),
    {
        if title.is_some() {
            self.title = title;
        }
        assert(self@ =~= (SharedView { title: self@.title, ..old(self)@ }));
    }

    /// The page wrote to its console.
    pub fn on_console_message(
        &mut self,
        level: i32,
        message: Option<String>,
        source: Option<String>,
        line: i32,
    )
        ensures
            final(self)@ == (SharedView {
                console: old(self)@.console.push(
                    crate::engines::ConsoleView {
                        level,
                        message: or_empty(crate::util::opt_text(message)),
                        source: or_empty(crate::util::opt_text(source)),
                        line,
                    },
                ),
                ..old(self)@
            }),
    {
        let entry = ConsoleMessage {
            level,
            message: text_or_empty(message),
            source: text_or_empty(source),
            line,
        };
        let ghost before = self.console_messages@;
        let ghost added = entry@;
        self.console_messages.push(entry);
        assert(console_views(self.console_messages@) =~= console_views(before).push(added));
        assert(self@ =~= (SharedView { console: old(self)@.console.push(added), ..old(self)@ }));
    }

    /// The page asks for another pointer.
    pub fn on_cursor_change(&mut self, cursor_type: CursorType)
        ensures
            final(self)@ == (SharedView { cursor_type, ..old(self)@ }),
    {
        self.cursor_type = cursor_type;
        assert(self@ =~= (SharedView { cursor_type, ..old(self)@ }));
    }

    /// The page started or stopped loading.
    pub fn on_loading_state_change(&mut self, is_loading: bool)
        ensures
            final(self)@ == (SharedView {
                page_loaded: old(self)@.page_loaded || !is_loading,
                ..old(self)@
            }),
    {
        if !is_loading {
            self.page_loaded = true;
        }
        assert(self@ =~= (SharedView {
            page_loaded: old(self)@.page_loaded || !is_loading,
            ..old(self)@
        }));
    }

    /// The page wants to open a window on an address. A page that may not be
    /// left has the host open it; any other is replaced by it, if there is a
    /// frame to load it in. Never both, which would load it twice.
    pub fn on_before_popup(&mut self, target_url: Option<String>, has_frame: bool) -> (answer:
        PopupAnswer)
        ensures
            match target_url {
                None => answer is Nothing && final(self)@ == old(self)@,
                Some(url) => if old(self)@.block_navigation || !has_frame {
                    answer is HandedToHost && final(self)@ == (SharedView {
                        popup_url: Some(url@),
                        ..old(self)@
                    })
                } else {
                    answer == PopupAnswer::LoadHere(url) && final(self)@ == old(self)@
                },
            },
    {
        match target_url {
            None => PopupAnswer::Nothing,
            Some(url) => {
                if self.block_navigation || !has_frame {
                    let ghost target = url@;
                    self.popup_url = Some(url);
                    assert(self@ =~= (SharedView { popup_url: Some(target), ..old(self)@ }));
                    PopupAnswer::HandedToHost
                } else {
                    PopupAnswer::LoadHere(url)
                }
            },
        }
    }

    /// A frame is about to navigate: whether that is cancelled. The address is
    /// then handed to the host.
    pub fn on_before_browse(&mut self, is_main: Option<bool>, url: Option<String>) -> (cancel: bool)
        ensures
            cancel == old(self)@.cancels(is_main, crate::util::opt_text(url)),
            final(self)@ == if cancel {
                SharedView { popup_url: crate::util::opt_text(url), ..old(self)@ }
            } else {
                old(self)@
            },
    {
        if !self.block_navigation {
            return false;
        }
        match is_main {
            Some(main) => {
                if !main {
                    return false;
                }
            },
            None => {},
        }
        match url {
            None => false,
            Some(target) => {
                if keeps_document(target.as_str()) {
                    return false;
                }
                let ghost address = target@;
                self.popup_url = Some(target);
                assert(self@ =~= (SharedView { popup_url: Some(address), ..old(self)@ }));
                true
            },
        }
    }

    fn set_size(&mut self, size: Size)
        ensures
            final(self)@ == (SharedView { size, ..old(self)@ }),
    {
        self.size = size;
        assert(self@ =~= (SharedView { size, ..old(self)@ }));
    }

    fn set_scale_factor(&mut self, scale_factor: u32)
        ensures
            final(self)@ == (SharedView { scale_factor, ..old(self)@ }),
    {
        self.scale_factor = scale_factor;
        assert(self@ =~= (SharedView { scale_factor, ..old(self)@ }));
    }

    fn set_block_navigation(&mut self, block_navigation: bool)
        ensures
            final(self)@ == (SharedView { block_navigation, ..old(self)@ }),
    {
        self.block_navigation = block_navigation;
        assert(self@ =~= (SharedView { block_navigation, ..old(self)@ }));
    }
}

/// A text, the empty one where there is none.
pub open spec fn or_empty(text: Option<Seq<char>>) -> Seq<char> {
    match text {
        Some(t) => t,
        None => Seq::empty(),
    }
}

fn text_or_empty(text: Option<String>) -> (result: String)
    ensures
        result@ == or_empty(crate::util::opt_text(text)),
{
    match text {
        Some(t) => t,
        None => String::new(),
    }
}

fn keeps_document(url: &str) -> (keeps: bool)
    ensures
        keeps == stays_in_document(url@),
{
    if url.is_empty() {
        return true;
    }
    proof {
        reveal_strlit("data:");
    }
    let n: usize = url.unicode_len();
    if n >= 5 && crate::text::str_eq(url.substring_char(0, 5), "data:") {
        assert(url@.subrange(0, 5) == "data:"@);
        assert("data:"@.is_prefix_of(url@));
        return true;
    }
    assert(!"data:"@.is_prefix_of(url@)) by {
        if "data:"@.is_prefix_of(url@) {
            assert(url@.subrange(0, 5) =~= "data:"@);
        }
    }
    crate::text::str_eq(url, ABOUT_BLANK)
}

/// A page given as HTML stays where it is under a block: its own address is
/// never cancelled, while an address on the web is.
pub proof fn law_document_loads_under_block(shared: SharedView, html: Seq<char>, web: Seq<char>)
    requires
        shared.block_navigation,
        "http"@.is_prefix_of(web),
    ensures
        !shared.cancels(Some(true), Some(crate::data_url::html_address(html))),
        shared.cancels(Some(true), Some(web)),
        !shared.cancels(Some(false), Some(web)),
{
    let address = crate::data_url::html_address(html);
    reveal_strlit("data:text/html;charset=utf-8,");
    reveal_strlit("data:");
    reveal_strlit("http");
    reveal_strlit("about:blank");
    assert("data:"@.is_prefix_of(address)) by {
        assert forall|k: int| 0 <= k < 5 implies "data:"@[k] == address[k] by {
            assert(address[k] == "data:text/html;charset=utf-8,"@[k]);
        }
        assert(address.subrange(0, 5) =~= "data:"@);
    }
    assert(web[0] == 'h') by {
        assert("http"@[0] == web[0]);
    }
    assert("data:"@[0] == 'd');
    assert(ABOUT_BLANK@[0] == 'a');
}

/// A view without a block leaves every navigation alone.
pub proof fn law_no_block_no_cancel(
    shared: SharedView,
    is_main: Option<bool>,
    url: Option<Seq<char>>,
)
    requires
        !shared.block_navigation,
    ensures
        !shared.cancels(is_main, url),
{
}

/// A view with its browser. It has none while the browser is being created.
pub struct CefView<B> {
    id: ViewId,
    browser: Option<B>,
    shared: SharedState,
    url: String,
    title: String,
    cursor: Interaction,
    last_frame: FrameImage,
    needs_render: bool,
    size: Size,
    clicks: ClickState,
}

/// A view with its browser.
#[verifier::ext_equal]
pub struct ViewView<B> {
    pub id: ViewId,
    pub browser: Option<B>,
    pub shared: SharedView,
    pub url: Seq<char>,
    pub title: Seq<char>,
    pub cursor: Interaction,
    pub last_frame: crate::engines::FrameImageView,
    pub needs_render: bool,
    pub size: Size,
    pub clicks: ClickState,
}

impl<B> View for CefView<B> {
    type V = ViewView<B>;

    closed spec fn view(&self) -> ViewView<B> {
        ViewView {
            id: self.id,
            browser: self.browser,
            shared: self.shared@,
            url: self.url@,
            title: self.title@,
            cursor: self.cursor,
            last_frame: self.last_frame@,
            needs_render: self.needs_render,
            size: self.size,
            clicks: self.clicks,
        }
    }
}

/// A view without a browser, kept so that it can be resumed.
pub struct ParkedView {
    id: ViewId,
    last_frame: FrameImage,
}

/// A view without a browser.
pub struct ParkedState {
    pub id: ViewId,
    pub last_frame: crate::engines::FrameImageView,
}

impl View for ParkedView {
    type V = ParkedState;

    closed spec fn view(&self) -> ParkedState {
        ParkedState { id: self.id, last_frame: self.last_frame@ }
    }
}

/// What a browser is created with.
#[derive(Clone, Copy, Debug, PartialEq, Eq, Structural)]
pub struct BrowserSettings {
    pub size: Size,
    pub frame_rate: i32,
    /// The background of pages that have none, where it is not left to CEF.
    pub background_color: Option<u32>,
}

/// The engine: its views, and what new ones are created with.
pub struct Cef<B> {
    views: Vec<CefView<B>>,
    parked_views: Vec<ParkedView>,
    scale_factor: u32,
    initialized: bool,
    init_error: Option<String>,
    background_color: Option<u32>,
    block_navigation: bool,
    user_agent: Option<String>,
}

/// The state of the engine.
#[verifier::ext_equal]
pub struct CefState<B> {
    pub views: Seq<ViewView<B>>,
    pub parked: Seq<ParkedState>,
    pub scale_factor: u32,
    pub initialized: bool,
    pub init_error: Option<Seq<char>>,
    pub background_color: Option<u32>,
    pub block_navigation: bool,
    pub user_agent: Option<Seq<char>>,
}

/// Views as the specifications see them.
pub closed spec fn view_views<B>(views: Seq<CefView<B>>) -> Seq<ViewView<B>> {
    views.map_values(|v: CefView<B>| v@)
}

/// Parked views as the specifications see them.
pub closed spec fn parked_states(parked: Seq<ParkedView>) -> Seq<ParkedState> {
    parked.map_values(|v: ParkedView| v@)
}

impl<B> View for Cef<B> {
    type V = CefState<B>;

    closed spec fn view(&self) -> CefState<B> {
        CefState {
            views: view_views(self.views@),
            parked: parked_states(self.parked_views@),
            scale_factor: self.scale_factor,
            initialized: self.initialized,
            init_error: crate::util::opt_text(self.init_error),
            background_color: self.background_color,
            block_navigation: self.block_navigation,
            user_agent: crate::util::opt_text(self.user_agent),
        }
    }
}

/// The position of the first view with an id, or the number of views.
pub open spec fn view_place<B>(views: Seq<ViewView<B>>, id: ViewId) -> int
    decreases views.len(),
{
    if views.len() == 0 || views.first().id == id {
        0
    } else {
        1 + view_place(views.drop_first(), id)
    }
}

/// The position of the first parked view with an id, or their number.
pub open spec fn parked_place(parked: Seq<ParkedState>, id: ViewId) -> int
    decreases parked.len(),
{
    if parked.len() == 0 || parked.first().id == id {
        0
    } else {
        1 + parked_place(parked.drop_first(), id)
    }
}

impl<B> ViewView<B> {
    /// The view having taken what its browser reported.
    pub open spec fn drained(self) -> ViewView<B> {
        ViewView {
            last_frame: match self.shared.frame {
                Some((pixels, width, height)) => crate::engines::FrameImageView::Pixels {
                    pixels,
                    format: PixelFormat::Bgra,
                    width,
                    height,
                },
                None => self.last_frame,
            },
            needs_render: self.needs_render && self.shared.frame is None,
            url: match self.shared.url {
                Some(url) => url,
                None => self.url,
            },
            title: match self.shared.title {
                Some(title) => title,
                None => self.title,
            },
            cursor: crate::engines::cef_input::cursor_interaction(self.shared.cursor_type),
            shared: SharedView { frame: None, url: None, title: None, ..self.shared },
            ..self
        }
    }

    /// The view being rendered at another size.
    pub open spec fn resized(self, size: Size) -> ViewView<B> {
        ViewView {
            size: size.visible(),
            shared: SharedView { size: size.visible(), ..self.shared },
            needs_render: true,
            ..self
        }
    }

    /// The view being rendered for another display scale.
    pub open spec fn rescaled(self, scale_factor: u32) -> ViewView<B> {
        ViewView {
            shared: SharedView { scale_factor, ..self.shared },
            needs_render: true,
            ..self
        }
    }

    /// The view having been told whether its page may be left.
    pub open spec fn blocked(self, block: bool) -> ViewView<B> {
        ViewView { shared: SharedView { block_navigation: block, ..self.shared }, ..self }
    }
}

impl<B> CefState<B> {
    /// Clicks are counted right in every view.
    pub open spec fn is_valid(self) -> bool {
        forall|i: int| 0 <= i < self.views.len() ==> (#[trigger] self.views[i]).clicks.is_valid()
    }

    /// No view, and nothing set.
    pub open spec fn at_start() -> CefState<B> {
        CefState {
            views: Seq::empty(),
            parked: Seq::empty(),
            scale_factor: crate::webview::basic::SCALE_ONE,
            initialized: false,
            init_error: None,
            background_color: None,
            block_navigation: false,
            user_agent: None,
        }
    }

    /// Whether a view is open.
    pub open spec fn is_open(self, id: ViewId) -> bool {
        view_place(self.views, id) < self.views.len()
    }

    /// An open view.
    pub open spec fn view_of(self, id: ViewId) -> ViewView<B> {
        self.views[view_place(self.views, id)]
    }

    /// One view having changed.
    pub open spec fn with_view(self, id: ViewId, view: ViewView<B>) -> CefState<B> {
        CefState { views: self.views.update(view_place(self.views, id), view), ..self }
    }

    /// All views having changed in one way.
    pub open spec fn with_all(self, f: spec_fn(ViewView<B>) -> ViewView<B>) -> CefState<B> {
        CefState { views: self.views.map_values(f), ..self }
    }

    /// A view that waits for its browser.
    pub open spec fn new_view(self, id: ViewId, size: Size, last_frame: Option<crate::engines::FrameImageView>) -> ViewView<
        B,
    > {
        ViewView {
            id,
            browser: None,
            shared: SharedView::at_start(
                size.visible(),
                self.scale_factor,
                self.block_navigation,
                self.user_agent,
            ),
            url: Seq::empty(),
            title: Seq::empty(),
            cursor: Interaction::Idle,
            last_frame: match last_frame {
                Some(frame) => frame,
                None => crate::engines::FrameImageView::Blank {
                    width: size.visible().width,
                    height: size.visible().height,
                },
            },
            needs_render: true,
            size: size.visible(),
            clicks: ClickState::at_start(),
        }
    }

    /// A view having been opened behind the others, if the engine runs.
    pub open spec fn opened(self, id: ViewId, size: Size, last_frame: Option<crate::engines::FrameImageView>) -> CefState<
        B,
    > {
        if self.initialized {
            CefState { views: self.views.push(self.new_view(id, size, last_frame)), ..self }
        } else {
            self
        }
    }

    /// What the browser of a new view is created with, if the engine runs.
    pub open spec fn settings(self, size: Size) -> Option<BrowserSettings> {
        if self.initialized {
            Some(
                BrowserSettings {
                    size: size.visible(),
                    frame_rate: FRAME_RATE,
                    background_color: self.background_color,
                },
            )
        } else {
            None
        }
    }

    /// A view having been closed.
    pub open spec fn removed(self, id: ViewId) -> CefState<B> {
        if self.is_open(id) {
            CefState { views: self.views.remove(view_place(self.views, id)), ..self }
        } else {
            self
        }
    }

    /// A view having been parked.
    pub open spec fn suspended(self, id: ViewId) -> CefState<B> {
        if self.is_open(id) {
            CefState {
                views: self.views.remove(view_place(self.views, id)),
                parked: self.parked.push(
                    ParkedState { id: self.view_of(id).id, last_frame: self.view_of(id).last_frame },
                ),
                ..self
            }
        } else {
            self
        }
    }

    /// Whether a view is parked.
    pub open spec fn is_parked(self, id: ViewId) -> bool {
        parked_place(self.parked, id) < self.parked.len()
    }

    /// The image a parked view showed.
    pub open spec fn parked_frame(self, id: ViewId) -> Option<crate::engines::FrameImageView> {
        if self.is_parked(id) {
            Some(self.parked[parked_place(self.parked, id)].last_frame)
        } else {
            None
        }
    }

    /// A view no longer being parked.
    pub open spec fn unparked(self, id: ViewId) -> CefState<B> {
        if self.is_parked(id) {
            CefState { parked: self.parked.remove(parked_place(self.parked, id)), ..self }
        } else {
            self
        }
    }

    /// The address of a view, that of an empty page where it has none.
    pub open spec fn url_of(self, id: ViewId) -> Seq<char> {
        if self.is_open(id) && self.view_of(id).url.len() > 0 {
            self.view_of(id).url
        } else {
            ABOUT_BLANK@
        }
    }
}

proof fn lemma_view_place<B>(views: Seq<ViewView<B>>, id: ViewId, at: int)
    requires
        0 <= at <= views.len(),
        at < views.len() ==> views[at].id == id,
        forall|k: int| 0 <= k < at ==> (#[trigger] views[k]).id != id,
    ensures
        view_place(views, id) == at,
    decreases views.len(),
{
    if at > 0 {
        let rest = views.drop_first();
        assert(views[0].id != id);
        assert forall|k: int| 0 <= k < at - 1 implies (#[trigger] rest[k]).id != id by {
            assert(views[k + 1].id != id);
        }
        lemma_view_place(rest, id, at - 1);
    }
}

proof fn lemma_parked_place(parked: Seq<ParkedState>, id: ViewId, at: int)
    requires
        0 <= at <= parked.len(),
        at < parked.len() ==> parked[at].id == id,
        forall|k: int| 0 <= k < at ==> (#[trigger] parked[k]).id != id,
    ensures
        parked_place(parked, id) == at,
    decreases parked.len(),
{
    if at > 0 {
        let rest = parked.drop_first();
        assert(parked[0].id != id);
        assert forall|k: int| 0 <= k < at - 1 implies (#[trigger] rest[k]).id != id by {
            assert(parked[k + 1].id != id);
        }
        lemma_parked_place(rest, id, at - 1);
    }
}

/// A view that is found has the id it was looked for by, and none before it
/// has.
pub proof fn lemma_place_is_first<B>(views: Seq<ViewView<B>>, id: ViewId)
    ensures
        0 <= view_place(views, id) <= views.len(),
        view_place(views, id) < views.len() ==> views[view_place(views, id)].id == id,
        forall|k: int| 0 <= k < view_place(views, id) ==> (#[trigger] views[k]).id != id,
    decreases views.len(),
{
    if views.len() > 0 && views.first().id != id {
        let rest = views.drop_first();
        lemma_place_is_first(rest, id);
        assert forall|k: int| 0 <= k < view_place(views, id) implies (#[trigger] views[k]).id
            != id by {
            if k > 0 {
                assert(rest[k - 1] == views[k]);
            }
        }
    }
}

impl<B> CefView<B> {
    fn drain(&mut self)
        ensures
            final(self)@ == old(self)@.drained(),
    {
        match self.shared.frame_buffer.take() {
            Some((pixels, width, height)) => {
                self.last_frame = FrameImage::Pixels {
                    pixels,
                    format: PixelFormat::Bgra,
                    width,
                    height,
                };
                self.needs_render = false;
            },
            None => {},
        }
        match self.shared.url.take() {
            Some(url) => {
                self.url = url;
            },
            None => {},
        }
        match self.shared.title.take() {
            Some(title) => {
                self.title = title;
            },
            None => {},
        }
        self.cursor = cursor_type_to_interaction(self.shared.cursor_type);
        assert(self@.shared =~= old(self)@.drained().shared);
        assert(self@ =~= old(self)@.drained());
    }

    fn resize(&mut self, size: Size)
        ensures
            final(self)@ == old(self)@.resized(size),
    {
        let size = size.at_least_a_pixel();
        self.size = size;
        self.shared.set_size(size);
        self.needs_render = true;
        assert(self@ =~= old(self)@.resized(size));
    }

    fn rescale(&mut self, scale_factor: u32)
        ensures
            final(self)@ == old(self)@.rescaled(scale_factor),
    {
        self.shared.set_scale_factor(scale_factor);
        self.needs_render = true;
        assert(self@ =~= old(self)@.rescaled(scale_factor));
    }

    fn block(&mut self, block: bool)
        ensures
            final(self)@ == old(self)@.blocked(block),
    {
        self.shared.set_block_navigation(block);
        assert(self@ =~= old(self)@.blocked(block));
    }
}

impl<B> Default for Cef<B> {
    fn default() -> (engine: Self)
        ensures
            engine@ == CefState::<B>::at_start(),
            engine@.is_valid(),
    {
        let engine: Cef<B> = Cef {
            views: Vec::new(),
            parked_views: Vec::new(),
            scale_factor: crate::webview::basic::SCALE_ONE,
            initialized: false,
            init_error: None,
            background_color: None,
            block_navigation: false,
            user_agent: None,
        };
        assert(engine@ =~= CefState::<B>::at_start());
        engine
    }
}

impl<B> Cef<B> {
    /// Whether CEF is still to be initialized: it was neither done nor did it
    /// fail.
    pub fn needs_initialization(&self) -> (needs: bool)
        ensures
            needs == (!self@.initialized && self@.init_error is None),
    {
        !self.initialized && !self.init_error.is_some()
    }

    /// Take note of what initializing CEF came to.
    pub fn initialization_done(&mut self, initialized: bool, error: Option<String>)
        ensures
            final(self)@ == (CefState {
                initialized,
                init_error: crate::util::opt_text(error),
                ..old(self)@
            }),
    {
        self.initialized = initialized;
        self.init_error = error;
        assert(self@ =~= (CefState {
            initialized,
            init_error: crate::util::opt_text(error),
            ..old(self)@
        }));
    }

    /// Whether CEF runs.
    pub fn is_initialized(&self) -> (initialized: bool)
        ensures
            initialized == self@.initialized,
    {
        self.initialized
    }

    /// Why CEF does not run.
    pub fn initialization_error(&self) -> (error: Option<&String>)
        ensures
            match error {
                Some(text) => self@.init_error == Some(text@),
                None => self@.init_error is None,
            },
    {
        match &self.init_error {
            Some(text) => Some(text),
            None => None,
        }
    }

    fn find_view(&self, id: ViewId) -> (place: Option<usize>)
        ensures
            match place {
                Some(i) => i == view_place(self@.views, id) && i < self.views@.len()
                    && self.views@[i as int]@ == self@.view_of(id) && self@.is_open(id),
                None => !self@.is_open(id) && view_place(self@.views, id) == self@.views.len(),
            },
    {
        let mut i: usize = 0;
        while i < self.views.len()
            invariant
                i <= self.views@.len(),
                forall|k: int| 0 <= k < i ==> (#[trigger] self@.views[k]).id != id,
            decreases self.views@.len() - i,
        {
            assert(self@.views[i as int] == self.views@[i as int]@);
            if self.views[i].id == id {
                proof {
                    lemma_view_place(self@.views, id, i as int);
                }
                return Some(i);
            }
            i = i + 1;
        }
        proof {
            lemma_view_place(self@.views, id, i as int);
        }
        None
    }

    fn find_parked(&self, id: ViewId) -> (place: Option<usize>)
        ensures
            match place {
                Some(i) => i == parked_place(self@.parked, id) && i < self.parked_views@.len()
                    && self.parked_views@[i as int]@ == self@.parked[i as int] && self@.is_parked(id),
                None => !self@.is_parked(id),
            },
    {
        let mut i: usize = 0;
        while i < self.parked_views.len()
            invariant
                i <= self.parked_views@.len(),
                forall|k: int| 0 <= k < i ==> (#[trigger] self@.parked[k]).id != id,
            decreases self.parked_views@.len() - i,
        {
            assert(self@.parked[i as int] == self.parked_views@[i as int]@);
            if self.parked_views[i].id == id {
                proof {
                    lemma_parked_place(self@.parked, id, i as int);
                }
                return Some(i);
            }
            i = i + 1;
        }
        proof {
            lemma_parked_place(self@.parked, id, i as int);
        }
        None
    }

    /// Whether a view is open or parked.
    pub fn has_view(&self, id: ViewId) -> (has: bool)
        ensures
            has == (self@.is_open(id) || self@.is_parked(id)),
    {
        self.find_view(id).is_some() || self.find_parked(id).is_some()
    }

    /// The ids of the open views.
    pub fn view_ids(&self) -> (ids: Vec<ViewId>)
        ensures
            ids@ == self@.views.map_values(|v: ViewView<B>| v.id),
    {
        let mut ids: Vec<ViewId> = Vec::new();
        let mut i: usize = 0;
        while i < self.views.len()
            invariant
                i <= self.views@.len(),
                ids@.len() == i,
                forall|k: int| 0 <= k < i ==> #[trigger] ids@[k] == self@.views[k].id,
            decreases self.views@.len() - i,
        {
            assert(self@.views[i as int] == self.views@[i as int]@);
            ids.push(self.views[i].id);
            i = i + 1;
        }
        assert(ids@ =~= self@.views.map_values(|v: ViewView<B>| v.id));
        ids
    }

    /// The browser of an open view.
    pub fn browser(&self, id: ViewId) -> (browser: Option<&B>)
        ensures
            match browser {
                Some(b) => self@.is_open(id) && self@.view_of(id).browser == Some(*b),
                None => !self@.is_open(id) || self@.view_of(id).browser is None,
            },
    {
        match self.find_view(id) {
            Some(i) => match &self.views[i].browser {
                Some(browser) => Some(browser),
                None => None,
            },
            None => None,
        }
    }

    /// The browser that gains or loses the keyboard with the engine: that of
    /// the view opened last.
    pub fn focus_target(&self) -> (browser: Option<&B>)
        ensures
            match browser {
                Some(b) => self@.views.len() > 0 && self@.views.last().browser == Some(*b),
                None => self@.views.len() == 0 || self@.views.last().browser is None,
            },
    {
        let n: usize = self.views.len();
        if n == 0 {
            return None;
        }
        assert(self@.views.last() == self.views@[n - 1]@);
        match &self.views[n - 1].browser {
            Some(browser) => Some(browser),
            None => None,
        }
    }

    fn push_view(&mut self, id: ViewId, size: Size, last_frame: Option<FrameImage>) -> (settings:
        Option<BrowserSettings>)
        ensures
            final(self)@ == old(self)@.opened(
                id,
                size,
                match last_frame {
                    Some(frame) => Some(frame@),
                    None => None,
                },
            ),
            settings == old(self)@.settings(size),
    {
        if !self.initialized {
            return None;
        }
        let size: Size = size.at_least_a_pixel();
        let user_agent: Option<String> = match &self.user_agent {
            Some(text) => Some(text.clone()),
            None => None,
        };
        let view: CefView<B> = CefView {
            id,
            browser: None,
            shared: SharedState::new(size, self.scale_factor, self.block_navigation, user_agent),
            url: String::new(),
            title: String::new(),
            cursor: Interaction::Idle,
            last_frame: match last_frame {
                Some(frame) => frame,
                None => FrameImage::Blank { width: size.width, height: size.height },
            },
            needs_render: true,
            size,
            clicks: ClickState::new(),
        };
        let ghost added = view@;
        let ghost before = self.views@;
        self.views.push(view);
        assert(view_views(self.views@) =~= view_views(before).push(added));
        assert(added =~= old(self)@.new_view(
            id,
            size,
            match last_frame {
                Some(frame) => Some(frame@),
                None => None,
            },
        ));
        assert(self@ =~= old(self)@.opened(
            id,
            size,
            match last_frame {
                Some(frame) => Some(frame@),
                None => None,
            },
        ));
        Some(
            BrowserSettings {
                size,
                frame_rate: FRAME_RATE,
                background_color: self.background_color,
            },
        )
    }

    /// Open a view. A browser is to be created with what is returned, on an
    /// empty page, and handed to [`Cef::view_opened`].
    pub fn open_view(&mut self, id: ViewId, size: Size) -> (settings: Option<BrowserSettings>)
        requires
            old(self)@.is_valid(),
        ensures
            final(self)@ == old(self)@.opened(id, size, None),
            settings == old(self)@.settings(size),
            final(self)@.is_valid(),
    {
        self.push_view(id, size, None)
    }

    /// Open a view under an id of its own. Nothing is promised of the id, which
    /// is random; whatever it is, the view is opened under it.
    pub fn new_view(&mut self, size: Size) -> (opened: (ViewId, Option<BrowserSettings>))
        requires
            old(self)@.is_valid(),
        ensures
            final(self)@ == old(self)@.opened(opened.0, size, None),
            opened.1 == old(self)@.settings(size),
            final(self)@.is_valid(),
    {
        let id: ViewId = random_view_id();
        let settings = self.open_view(id, size);
        (id, settings)
    }

    /// The browser of the view that was opened last was created, or could not
    /// be, in which case the view is gone.
    pub fn view_opened(&mut self, browser: Option<B>)
        requires
            old(self)@.is_valid(),
            old(self)@.views.len() > 0,
        ensures
            final(self)@ == (CefState {
                views: match browser {
                    Some(_) => old(self)@.views.drop_last().push(
                        ViewView { browser, ..old(self)@.views.last() },
                    ),
                    None => old(self)@.views.drop_last(),
                },
                ..old(self)@
            }),
            final(self)@.is_valid(),
    {
        let ghost before = self.views@;
        match self.views.pop() {
            Some(mut view) => {
                assert(view_views(self.views@) =~= view_views(before).drop_last());
                assert(view@ == view_views(before).last());
                if browser.is_some() {
                    let ghost handle = browser;
                    view.browser = browser;
                    let ghost added = view@;
                    assert(added =~= (ViewView { browser: handle, ..old(self)@.views.last() }));
                    let ghost rest = self.views@;
                    self.views.push(view);
                    assert(view_views(self.views@) =~= view_views(rest).push(added));
                }
            },
            None => {},
        }
        assert(self@ =~= (CefState { views: self@.views, ..old(self)@ }));
    }

    fn take_view(&mut self, i: usize) -> (view: CefView<B>)
        requires
            (i as int) < old(self)@.views.len(),
        ensures
            view@ == old(self)@.views[i as int],
            final(self)@ == (CefState { views: old(self)@.views.remove(i as int), ..old(self)@ }),
    {
        let ghost before = self.views@;
        let view = self.views.remove(i);
        assert(view_views(self.views@) =~= view_views(before).remove(i as int));
        assert(self@ =~= (CefState { views: old(self)@.views.remove(i as int), ..old(self)@ }));
        view
    }

    /// Close a view: its browser is to be closed.
    pub fn remove_view(&mut self, id: ViewId) -> (browser: Option<B>)
        requires
            old(self)@.is_valid(),
        ensures
            final(self)@ == old(self)@.removed(id),
            browser == if old(self)@.is_open(id) {
                old(self)@.view_of(id).browser
            } else {
                None
            },
            final(self)@.is_valid(),
    {
        match self.find_view(id) {
            Some(i) => {
                let view = self.take_view(i);
                view.browser
            },
            None => None,
        }
    }

    /// Park a view: its browser is to be closed, and its last frame is kept.
    pub fn suspend_view(&mut self, id: ViewId) -> (browser: Option<B>)
        requires
            old(self)@.is_valid(),
        ensures
            final(self)@ == old(self)@.suspended(id),
            browser == if old(self)@.is_open(id) {
                old(self)@.view_of(id).browser
            } else {
                None
            },
            final(self)@.is_valid(),
    {
        match self.find_view(id) {
            Some(i) => {
                let view = self.take_view(i);
                let parked = ParkedView { id: view.id, last_frame: view.last_frame };
                let ghost added = parked@;
                let ghost before = self.parked_views@;
                self.parked_views.push(parked);
                assert(parked_states(self.parked_views@) =~= parked_states(before).push(added));
                assert(self@ =~= old(self)@.suspended(id));
                view.browser
            },
            None => None,
        }
    }

    /// Open a view again that was parked, with the frame it showed. A browser
    /// is to be created as for [`Cef::open_view`].
    pub fn resume_view(&mut self, id: ViewId, size: Size) -> (settings: Option<BrowserSettings>)
        requires
            old(self)@.is_valid(),
        ensures
            final(self)@ == old(self)@.unparked(id).opened(id, size, old(self)@.parked_frame(id)),
            settings == old(self)@.settings(size),
            final(self)@.is_valid(),
    {
        let last_frame: Option<FrameImage> = match self.find_parked(id) {
            Some(i) => {
                let ghost before = self.parked_views@;
                let parked = self.parked_views.remove(i);
                assert(parked_states(self.parked_views@) =~= parked_states(before).remove(i as int));
                Some(parked.last_frame)
            },
            None => None,
        };
        assert(self@ =~= old(self)@.unparked(id));
        self.push_view(id, size, last_frame)
    }

    /// Close all views: their browsers are to be closed.
    pub fn close_all(&mut self) -> (browsers: Vec<Option<B>>)
        ensures
            final(self)@ == (CefState { views: Seq::empty(), ..old(self)@ }),
            browsers@ == old(self)@.views.map_values(|v: ViewView<B>| v.browser),
            final(self)@.is_valid(),
    {
        let mut views: Vec<CefView<B>> = Vec::new();
        std::mem::swap(&mut views, &mut self.views);
        let ghost all = views@;
        let mut browsers: Vec<Option<B>> = Vec::new();
        for view in iter: views
            invariant
                iter.seq() == all,
                browsers@.len() == iter.index(),
                forall|k: int|
                    0 <= k < browsers@.len() ==> #[trigger] browsers@[k] == all[k]@.browser,
        {
            browsers.push(view.browser);
        }
        assert(view_views(self.views@) =~= Seq::empty());
        assert(old(self)@.views =~= view_views(all));
        assert(browsers@ =~= old(self)@.views.map_values(|v: ViewView<B>| v.browser));
        assert(self@ =~= (CefState { views: Seq::empty(), ..old(self)@ }));
        browsers
    }

    /// What the callbacks of a view's browser report to.
    pub fn shared_mut(&mut self, id: ViewId) -> (shared: Option<&mut SharedState>)
        ensures
            match shared {
                Some(state) => {
                    &&& old(self)@.is_open(id)
                    &&& state@ == old(self)@.view_of(id).shared
                    &&& final(self)@ == old(self)@.with_view(
                        id,
                        ViewView { shared: final(state)@, ..old(self)@.view_of(id) },
                    )
                },
                None => !old(self)@.is_open(id) && final(self)@ == old(self)@,
            },
    {
        match self.find_view(id) {
            Some(i) => Some(&mut self.views[i].shared),
            None => None,
        }
    }

    /// Take in what the browsers reported.
    pub fn update(&mut self)
        requires
            old(self)@.is_valid(),
        ensures
            final(self)@ == if old(self)@.initialized {
                old(self)@.with_all(|v: ViewView<B>| v.drained())
            } else {
                old(self)@
            },
            final(self)@.is_valid(),
    {
        if !self.initialized {
            return;
        }
        let ghost before = self@.views;
        let mut i: usize = 0;
        while i < self.views.len()
            invariant
                i <= self.views@.len(),
                self.views@.len() == before.len(),
                before == old(self)@.views,
                self@ == (CefState { views: self@.views, ..old(self)@ }),
                forall|k: int|
                    0 <= k < before.len() ==> #[trigger] self.views@[k]@ == if k < i {
                        before[k].drained()
                    } else {
                        before[k]
                    },
            decreases self.views@.len() - i,
        {
            self.views[i].drain();
            assert(self@ =~= (CefState { views: self@.views, ..old(self)@ }));
            i = i + 1;
        }
        assert(self@.views =~= before.map_values(|v: ViewView<B>| v.drained()));
        assert(self@ =~= old(self)@.with_all(|v: ViewView<B>| v.drained()));
    }

    /// Render all views at another size: their browsers are to be told.
    pub fn resize(&mut self, size: Size)
        requires
            old(self)@.is_valid(),
        ensures
            final(self)@ == old(self)@.with_all(|v: ViewView<B>| v.resized(size)),
            final(self)@.is_valid(),
    {
        let ghost before = self@.views;
        let mut i: usize = 0;
        while i < self.views.len()
            invariant
                i <= self.views@.len(),
                self.views@.len() == before.len(),
                before == old(self)@.views,
                self@ == (CefState { views: self@.views, ..old(self)@ }),
                forall|k: int|
                    0 <= k < before.len() ==> #[trigger] self.views@[k]@ == if k < i {
                        before[k].resized(size)
                    } else {
                        before[k]
                    },
            decreases self.views@.len() - i,
        {
            self.views[i].resize(size);
            assert(self@ =~= (CefState { views: self@.views, ..old(self)@ }));
            i = i + 1;
        }
        assert(self@.views =~= before.map_values(|v: ViewView<B>| v.resized(size)));
        assert(self@ =~= old(self)@.with_all(|v: ViewView<B>| v.resized(size)));
    }

    /// Render all views for another display scale, unless it is the `same`:
    /// whether the browsers are to be told.
    pub fn set_scale_factor(&mut self, scale: u32, same: bool) -> (changed: bool)
        requires
            old(self)@.is_valid(),
        ensures
            changed == !same,
            final(self)@ == if same {
                old(self)@
            } else {
                (CefState { scale_factor: scale, ..old(self)@ }).with_all(
                    |v: ViewView<B>| v.rescaled(scale),
                )
            },
            final(self)@.is_valid(),
    {
        if same {
            return false;
        }
        self.scale_factor = scale;
        let ghost before = self@.views;
        let mut i: usize = 0;
        assert(self@ =~= (CefState { views: self@.views, scale_factor: scale, ..old(self)@ }));
        while i < self.views.len()
            invariant
                i <= self.views@.len(),
                self.views@.len() == before.len(),
                before == old(self)@.views,
                self@ == (CefState { views: self@.views, scale_factor: scale, ..old(self)@ }),
                forall|k: int|
                    0 <= k < before.len() ==> #[trigger] self.views@[k]@ == if k < i {
                        before[k].rescaled(scale)
                    } else {
                        before[k]
                    },
            decreases self.views@.len() - i,
        {
            self.views[i].rescale(scale);
            assert(self@ =~= (CefState { views: self@.views, scale_factor: scale, ..old(self)@ }));
            i = i + 1;
        }
        assert(self@.views =~= before.map_values(|v: ViewView<B>| v.rescaled(scale)));
        assert(self@ =~= (CefState { scale_factor: scale, ..old(self)@ }).with_all(
            |v: ViewView<B>| v.rescaled(scale),
        ));
        true
    }

    /// The display scale.
    pub fn scale_factor(&self) -> (scale: u32)
        ensures
            scale == self@.scale_factor,
    {
        self.scale_factor
    }

    /// The background of pages that have none, in views opened from here on.
    pub fn set_background_color(&mut self, color: u32)
        ensures
            final(self)@ == (CefState { background_color: Some(color), ..old(self)@ }),
    {
        self.background_color = Some(color);
        assert(self@ =~= (CefState { background_color: Some(color), ..old(self)@ }));
    }

    /// What browsers call themselves, in views opened from here on.
    pub fn set_user_agent(&mut self, user_agent: Option<String>)
        ensures
            final(self)@ == (CefState {
                user_agent: crate::util::opt_text(user_agent),
                ..old(self)@
            }),
    {
        self.user_agent = user_agent;
        assert(self@ =~= (CefState {
            user_agent: crate::util::opt_text(user_agent),
            ..old(self)@
        }));
    }

    /// Whether pages may not be left, in views that are open and in those
    /// opened from here on.
    pub fn set_block_navigation(&mut self, block: bool)
        requires
            old(self)@.is_valid(),
        ensures
            final(self)@ == (CefState { block_navigation: block, ..old(self)@ }).with_all(
                |v: ViewView<B>| v.blocked(block),
            ),
            final(self)@.is_valid(),
    {
        self.block_navigation = block;
        let ghost before = self@.views;
        let mut i: usize = 0;
        assert(self@ =~= (CefState { views: self@.views, block_navigation: block, ..old(self)@ }));
        while i < self.views.len()
            invariant
                i <= self.views@.len(),
                self.views@.len() == before.len(),
                before == old(self)@.views,
                self@ == (CefState { views: self@.views, block_navigation: block, ..old(self)@ }),
                forall|k: int|
                    0 <= k < before.len() ==> #[trigger] self.views@[k]@ == if k < i {
                        before[k].blocked(block)
                    } else {
                        before[k]
                    },
            decreases self.views@.len() - i,
        {
            self.views[i].block(block);
            assert(self@ =~= (CefState {
                views: self@.views,
                block_navigation: block,
                ..old(self)@
            }));
            i = i + 1;
        }
        assert(self@.views =~= before.map_values(|v: ViewView<B>| v.blocked(block)));
        assert(self@ =~= (CefState { block_navigation: block, ..old(self)@ }).with_all(
            |v: ViewView<B>| v.blocked(block),
        ));
    }

    /// The key events the browser of a view is sent.
    pub fn handle_keyboard_event(&self, id: ViewId, event: &KeyboardEvent) -> (events: Vec<KeyEvent>)
        ensures
            events@ == if self@.is_open(id) {
                crate::engines::cef_input::page_key_events(*event)
            } else {
                Seq::empty()
            },
    {
        match self.find_view(id) {
            Some(_) => key_events(event),
            None => {
                let events: Vec<KeyEvent> = Vec::new();
                assert(events@ =~= Seq::empty());
                events
            },
        }
    }

    /// What the browser of a view is sent of the mouse.
    pub fn handle_mouse_event(
        &mut self,
        id: ViewId,
        event: MouseEvent,
        modifiers: Modifiers,
        since: Option<SinceClick>,
    ) -> (sent: Vec<PageMouse>)
        requires
            old(self)@.is_valid(),
        ensures
            if old(self)@.is_open(id) {
                let view = old(self)@.view_of(id);
                &&& sent@ == view.clicks.sends(event, modifiers, since)
                &&& final(self)@ == old(self)@.with_view(
                    id,
                    ViewView { clicks: view.clicks.after(event, since), ..view },
                )
            } else {
                sent@.len() == 0 && final(self)@ == old(self)@
            },
            final(self)@.is_valid(),
    {
        match self.find_view(id) {
            Some(i) => {
                assert(self@.views[i as int].clicks.is_valid());
                let sent = self.views[i].clicks.mouse_events(event, modifiers, since);
                let ghost view = old(self)@.view_of(id);
                let ghost changed = ViewView { clicks: view.clicks.after(event, since), ..view };
                assert(self.views@[i as int]@ =~= changed);
                assert(self@.views =~= old(self)@.views.update(i as int, changed));
                assert(self@ =~= old(self)@.with_view(id, changed));
                sent
            },
            None => Vec::new(),
        }
    }

    /// Send a view to a page: the address its browser is to load. An address
    /// is the view's from here on, a page given as HTML has none of its own.
    pub fn goto(&mut self, id: ViewId, page_type: PageType, has_frame: bool) -> (address: Option<
        String,
    >)
        requires
            old(self)@.is_valid(),
        ensures
            if old(self)@.is_open(id) && has_frame {
                match page_type {
                    PageType::Url(url) => {
                        &&& crate::util::opt_text(address) == Some(url@)
                        &&& final(self)@ == old(self)@.with_view(
                            id,
                            ViewView { url: url@, ..old(self)@.view_of(id) },
                        )
                    },
                    PageType::Html(html) => {
                        &&& crate::util::opt_text(address) == Some(
                            crate::data_url::html_address(html@),
                        )
                        &&& final(self)@ == old(self)@
                    },
                }
            } else {
                address is None && final(self)@ == old(self)@
            },
            final(self)@.is_valid(),
    {
        match self.find_view(id) {
            Some(i) => {
                if !has_frame {
                    return None;
                }
                match page_type {
                    PageType::Url(url) => {
                        self.views[i].url = url.clone();
                        let ghost changed = ViewView { url: url@, ..old(self)@.view_of(id) };
                        assert(self.views@[i as int]@ =~= changed);
                        assert(self@.views =~= old(self)@.views.update(i as int, changed));
                        assert(self@ =~= old(self)@.with_view(id, changed));
                        Some(url)
                    },
                    PageType::Html(html) => Some(html_data_url(html.as_str())),
                }
            },
            None => None,
        }
    }

    /// The address of a view.
    pub fn get_url(&self, id: ViewId) -> (url: String)
        ensures
            url@ == self@.url_of(id),
    {
        match self.find_view(id) {
            Some(i) => {
                if self.views[i].url.as_str().is_empty() {
                    ABOUT_BLANK.to_owned()
                } else {
                    self.views[i].url.clone()
                }
            },
            None => ABOUT_BLANK.to_owned(),
        }
    }

    /// The title of a view.
    pub fn get_title(&self, id: ViewId) -> (title: String)
        ensures
            title@ == if self@.is_open(id) {
                self@.view_of(id).title
            } else {
                Seq::empty()
            },
    {
        match self.find_view(id) {
            Some(i) => self.views[i].title.clone(),
            None => String::new(),
        }
    }

    /// The pointer a view asks for.
    pub fn get_cursor(&self, id: ViewId) -> (cursor: Interaction)
        ensures
            cursor == if self@.is_open(id) {
                self@.view_of(id).cursor
            } else {
                Interaction::Idle
            },
    {
        match self.find_view(id) {
            Some(i) => self.views[i].cursor,
            None => Interaction::Idle,
        }
    }

    /// The image a view shows, or showed before it was parked.
    pub fn get_view(&self, id: ViewId) -> (frame: Option<&FrameImage>)
        ensures
            match frame {
                Some(image) => if self@.is_open(id) {
                    image@ == self@.view_of(id).last_frame
                } else {
                    self@.parked_frame(id) == Some(image@)
                },
                None => !self@.is_open(id) && self@.parked_frame(id) is None,
            },
    {
        match self.find_view(id) {
            Some(i) => Some(&self.views[i].last_frame),
            None => match self.find_parked(id) {
                Some(i) => Some(&self.parked_views[i].last_frame),
                None => None,
            },
        }
    }

    /// The address a view wants opened elsewhere, once.
    pub fn take_popup_url(&mut self, id: ViewId) -> (url: Option<String>)
        requires
            old(self)@.is_valid(),
        ensures
            if old(self)@.is_open(id) {
                let view = old(self)@.view_of(id);
                &&& crate::util::opt_text(url) == view.shared.popup_url
                &&& final(self)@ == old(self)@.with_view(
                    id,
                    ViewView { shared: SharedView { popup_url: None, ..view.shared }, ..view },
                )
            } else {
                url is None && final(self)@ == old(self)@
            },
            final(self)@.is_valid(),
    {
        match self.find_view(id) {
            Some(i) => {
                let url = self.views[i].shared.popup_url.take();
                let ghost view = old(self)@.view_of(id);
                let ghost changed = ViewView {
                    shared: SharedView { popup_url: None, ..view.shared },
                    ..view
                };
                assert(self.views@[i as int]@.shared =~= changed.shared);
                assert(self.views@[i as int]@ =~= changed);
                assert(self@.views =~= old(self)@.views.update(i as int, changed));
                assert(self@ =~= old(self)@.with_view(id, changed));
                url
            },
            None => None,
        }
    }

    /// Whether a page finished loading since this was last asked.
    pub fn take_page_loaded(&mut self, id: ViewId) -> (loaded: bool)
        requires
            old(self)@.is_valid(),
        ensures
            if old(self)@.is_open(id) {
                let view = old(self)@.view_of(id);
                &&& loaded == view.shared.page_loaded
                &&& final(self)@ == old(self)@.with_view(
                    id,
                    ViewView { shared: SharedView { page_loaded: false, ..view.shared }, ..view },
                )
            } else {
                !loaded && final(self)@ == old(self)@
            },
            final(self)@.is_valid(),
    {
        match self.find_view(id) {
            Some(i) => {
                let loaded: bool = self.views[i].shared.page_loaded;
                self.views[i].shared.page_loaded = false;
                let ghost view = old(self)@.view_of(id);
                let ghost changed = ViewView {
                    shared: SharedView { page_loaded: false, ..view.shared },
                    ..view
                };
                assert(self.views@[i as int]@.shared =~= changed.shared);
                assert(self.views@[i as int]@ =~= changed);
                assert(self@.views =~= old(self)@.views.update(i as int, changed));
                assert(self@ =~= old(self)@.with_view(id, changed));
                loaded
            },
            None => false,
        }
    }

    /// What a page wrote to its console since this was last asked.
    pub fn take_console_messages(&mut self, id: ViewId) -> (messages: Vec<ConsoleMessage>)
        requires
            old(self)@.is_valid(),
        ensures
            if old(self)@.is_open(id) {
                let view = old(self)@.view_of(id);
                &&& console_views(messages@) == view.shared.console
                &&& final(self)@ == old(self)@.with_view(
                    id,
                    ViewView { shared: SharedView { console: Seq::empty(), ..view.shared }, ..view },
                )
            } else {
                messages@.len() == 0 && final(self)@ == old(self)@
            },
            final(self)@.is_valid(),
    {
        let mut messages: Vec<ConsoleMessage> = Vec::new();
        match self.find_view(id) {
            Some(i) => {
                std::mem::swap(&mut messages, &mut self.views[i].shared.console_messages);
                let ghost view = old(self)@.view_of(id);
                let ghost changed = ViewView {
                    shared: SharedView { console: Seq::empty(), ..view.shared },
                    ..view
                };
                assert(self.views@[i as int]@.shared =~= changed.shared);
                assert(self.views@[i as int]@ =~= changed);
                assert(self@.views =~= old(self)@.views.update(i as int, changed));
                assert(self@ =~= old(self)@.with_view(id, changed));
            },
            None => {},
        }
        messages
    }
}

proof fn lemma_parked_place_end(parked: Seq<ParkedState>, added: ParkedState)
    requires
        parked_place(parked, added.id) >= parked.len(),
    ensures
        parked_place(parked.push(added), added.id) == parked.len(),
{
    lemma_parked_place_is_first(parked, added.id);
    let all = parked.push(added);
    assert forall|k: int| 0 <= k < parked.len() implies (#[trigger] all[k]).id != added.id by {
        assert(parked[k].id != added.id);
    }
    lemma_parked_place(all, added.id, parked.len() as int);
}

proof fn lemma_parked_place_is_first(parked: Seq<ParkedState>, id: ViewId)
    ensures
        0 <= parked_place(parked, id) <= parked.len(),
        forall|k: int| 0 <= k < parked_place(parked, id) ==> (#[trigger] parked[k]).id != id,
    decreases parked.len(),
{
    if parked.len() > 0 && parked.first().id != id {
        let rest = parked.drop_first();
        lemma_parked_place_is_first(rest, id);
        assert forall|k: int| 0 <= k < parked_place(parked, id) implies (#[trigger] parked[k]).id
            != id by {
            if k > 0 {
                assert(rest[k - 1] == parked[k]);
            }
        }
    }
}

/// A view that is parked is still there and shows its last frame, and resuming
/// it shows that frame until the page paints again.
pub proof fn law_parked_view_keeps_its_frame<B>(state: CefState<B>, id: ViewId, size: Size)
    requires
        state.initialized,
        state.is_open(id),
        !state.is_parked(id),
    ensures
        ({
            let parked = state.suspended(id);
            let resumed = parked.unparked(id).opened(id, size, parked.parked_frame(id));
            &&& parked.is_parked(id)
            &&& parked.parked_frame(id) == Some(state.view_of(id).last_frame)
            &&& resumed.views.last().id == id
            &&& resumed.views.last().last_frame == state.view_of(id).last_frame
            &&& !resumed.is_parked(id)
            &&& resumed.parked == state.parked
        }),
{
    lemma_place_is_first(state.views, id);
    let added = ParkedState { id, last_frame: state.view_of(id).last_frame };
    lemma_parked_place_is_first(state.parked, id);
    lemma_parked_place_end(state.parked, added);
    assert(state.suspended(id).parked == state.parked.push(added));
    assert(state.parked.push(added).remove(state.parked.len() as int) =~= state.parked);
}

/// A view that was closed is gone, and all others are as they were, as long as
/// no two views share an id.
pub proof fn law_closed_view_is_gone<B>(state: CefState<B>, id: ViewId, other: ViewId)
    requires
        state.is_open(id),
        id != other,
        forall|i: int, j: int|
            0 <= i < j < state.views.len() ==> (#[trigger] state.views[i]).id != (
            #[trigger] state.views[j]).id,
    ensures
        !state.removed(id).is_open(id),
        state.removed(id).is_open(other) == state.is_open(other),
        state.is_open(other) ==> state.removed(id).view_of(other) == state.view_of(other),
{
    let at = view_place(state.views, id);
    lemma_place_is_first(state.views, id);
    lemma_place_is_first(state.views, other);
    let rest = state.views.remove(at);
    assert forall|k: int| 0 <= k < rest.len() implies (#[trigger] rest[k]).id != id by {
        if k < at {
            assert(rest[k] == state.views[k]);
        } else {
            assert(rest[k] == state.views[k + 1]);
        }
    }
    lemma_view_place(rest, id, rest.len() as int);
    let there = view_place(state.views, other);
    let now = if there > at {
        there - 1
    } else {
        there
    };
    assert forall|k: int| 0 <= k < now implies (#[trigger] rest[k]).id != other by {
        if k < at {
            assert(rest[k] == state.views[k]);
        } else {
            assert(rest[k] == state.views[k + 1]);
        }
    }
    if there < state.views.len() {
        assert(rest[now] == state.views[there]);
    }
    lemma_view_place(rest, other, now);
}

/// What happens to one view happens to no other.
pub proof fn law_views_are_independent<B>(
    state: CefState<B>,
    id: ViewId,
    view: ViewView<B>,
    other: ViewId,
)
    requires
        state.is_open(id),
        view.id == id,
        id != other,
    ensures
        state.with_view(id, view).is_open(id),
        state.with_view(id, view).view_of(id) == view,
        state.with_view(id, view).is_open(other) == state.is_open(other),
        state.is_open(other) ==> state.with_view(id, view).view_of(other) == state.view_of(other),
{
    let at = view_place(state.views, id);
    lemma_place_is_first(state.views, id);
    lemma_place_is_first(state.views, other);
    let changed = state.views.update(at, view);
    assert forall|k: int| 0 <= k < at implies (#[trigger] changed[k]).id != id by {
        assert(changed[k] == state.views[k]);
    }
    lemma_view_place(changed, id, at);
    let there = view_place(state.views, other);
    assert forall|k: int| 0 <= k < there implies (#[trigger] changed[k]).id != other by {
        if k != at {
            assert(changed[k] == state.views[k]);
        }
    }
    if there < state.views.len() {
        assert(changed[there] == state.views[there]);
    }
    lemma_view_place(changed, other, there);
}

/// What a browser reported is taken once: with nothing new, another tick
/// changes nothing.
pub proof fn law_reports_are_taken_once<B>(view: ViewView<B>)
    ensures
        view.drained().drained() == view.drained(),
{
    assert(view.drained().drained().shared =~= view.drained().shared);
    assert(view.drained().drained() =~= view.drained());
}

/// Whether pages may be left is the same in all views: those that are open and
/// the next one to be opened.
pub proof fn law_block_reaches_every_view<B>(
    state: CefState<B>,
    block: bool,
    id: ViewId,
    size: Size,
    i: int,
)
    ensures
        ({
            let blocked = (CefState { block_navigation: block, ..state }).with_all(
                |v: ViewView<B>| v.blocked(block),
            );
            let after = blocked.opened(id, size, None);
            0 <= i < after.views.len() ==> after.views[i].shared.block_navigation == block
        }),
{
}

/// A view is never rendered at less than a pixel each way.
pub proof fn law_views_are_visible<B>(state: CefState<B>, view: ViewView<B>, id: ViewId, size: Size)
    ensures
        view.resized(size).size.width > 0 && view.resized(size).size.height > 0,
        view.resized(size).shared.size == view.resized(size).size,
        state.new_view(id, size, None).size.width > 0 && state.new_view(id, size, None).size.height
            > 0,
        state.new_view(id, size, None).shared.size == state.new_view(id, size, None).size,
        size.width > 0 && size.height > 0 ==> view.resized(size).size == size,
{
}

/// After a tick of a running engine every open view whose browser painted shows
/// exactly the frame that was painted last, whatever it showed before and
/// whether or not a render was outstanding; a view whose browser did not paint
/// shows what it showed. Addresses and titles that were reported are the view's
/// from then on, and so is the pointer the page asks for. Nothing else of a
/// view changes, and no view comes or goes.
pub proof fn law_tick_takes_what_was_reported<B>(state: CefState<B>, i: int)
    requires
        0 <= i < state.views.len(),
    ensures
        ({
            let after = state.with_all(|v: ViewView<B>| v.drained());
            let view = state.views[i];
            let now = after.views[i];
            &&& after.views.len() == state.views.len()
            &&& after == (CefState { views: after.views, ..state })
            &&& match view.shared.frame {
                Some((pixels, width, height)) => {
                    &&& now.last_frame matches crate::engines::FrameImageView::Pixels {
                        pixels: shown,
                        format,
                        width: w,
                        height: h,
                    } && shown == pixels && format == PixelFormat::Bgra && w == width && h
                        == height
                    &&& !now.needs_render
                },
                None => now.last_frame == view.last_frame && now.needs_render == view.needs_render,
            }
            &&& view.shared.url matches Some(url) ==> now.url == url
            &&& view.shared.url is None ==> now.url == view.url
            &&& view.shared.title matches Some(title) ==> now.title == title
            &&& view.shared.title is None ==> now.title == view.title
            &&& now.cursor == crate::engines::cef_input::cursor_interaction(
                view.shared.cursor_type,
            )
            &&& now.id == view.id && now.browser == view.browser
            &&& now.size == view.size && now.clicks == view.clicks
            &&& now.shared.frame is None && now.shared.url is None && now.shared.title is None
            &&& now.shared.persistent == view.shared.persistent
            &&& now.shared.popup_url == view.shared.popup_url
            &&& now.shared.cursor_type == view.shared.cursor_type
            &&& now.shared.size == view.shared.size
            &&& now.shared.scale_factor == view.shared.scale_factor
            &&& now.shared.page_loaded == view.shared.page_loaded
            &&& now.shared.console == view.shared.console
            &&& now.shared.block_navigation == view.shared.block_navigation
            &&& now.shared.user_agent == view.shared.user_agent
        }),
{
}

/// A frame that a browser paints is what its view shows after the next tick.
pub proof fn law_painted_frame_is_shown<B>(
    view: ViewView<B>,
    painted: crate::engines::paint::PaintView,
    width: u32,
    height: u32,
)
    ensures
        ({
            let shared = SharedView {
                persistent: painted,
                frame: Some((painted.pixels, width, height)),
                ..view.shared
            };
            let after = (ViewView { shared, ..view }).drained();
            &&& after.last_frame == (crate::engines::FrameImageView::Pixels {
                pixels: painted.pixels,
                format: PixelFormat::Bgra,
                width,
                height,
            })
            &&& !after.needs_render
        }),
{
}

/// Another size changes the size a view is rendered at, for it and its browser,
/// and has it rendered; another scale changes the scale its browser paints for,
/// and has it rendered; a block changes only whether the page may be left.
pub proof fn law_views_change_in_one_thing<B>(
    view: ViewView<B>,
    size: Size,
    scale: u32,
    block: bool,
)
    ensures
        ({
            let after = view.resized(size);
            let shared = SharedView { size: after.size, ..view.shared };
            &&& size.width > 0 ==> after.size.width == size.width
            &&& size.height > 0 ==> after.size.height == size.height
            &&& size.width == 0 ==> after.size.width == 1
            &&& size.height == 0 ==> after.size.height == 1
            &&& after.needs_render
            &&& after == (ViewView { size: after.size, shared, needs_render: true, ..view })
        }),
        ({
            let after = view.rescaled(scale);
            &&& after.shared.scale_factor == scale
            &&& after.needs_render
            &&& after == (ViewView {
                shared: SharedView { scale_factor: scale, ..view.shared },
                needs_render: true,
                ..view
            })
        }),
        ({
            let after = view.blocked(block);
            &&& after.shared.block_navigation == block
            &&& after == (ViewView {
                shared: SharedView { block_navigation: block, ..view.shared },
                ..view
            })
        }),
{
}

/// A new view has no browser, page or title yet, shows a blank image of its
/// size or the one it is given, waits for its first render, and its browser is
/// to paint at the size, the scale and the rules that hold for new views. It
/// stands behind the others, which stay as they are.
pub proof fn law_new_view_waits_for_browser<B>(
    state: CefState<B>,
    id: ViewId,
    size: Size,
    frame: crate::engines::FrameImageView,
    k: int,
)
    requires
        state.initialized,
    ensures
        ({
            let after = state.opened(id, size, None);
            let size = Size {
                width: if size.width > 0 {
                    size.width
                } else {
                    1
                },
                height: if size.height > 0 {
                    size.height
                } else {
                    1
                },
            };
            let view = after.views.last();
            &&& after.views.len() == state.views.len() + 1
            &&& 0 <= k < state.views.len() ==> after.views[k] == state.views[k]
            &&& after == (CefState { views: after.views, ..state })
            &&& view.id == id && view.browser is None
            &&& view.url.len() == 0 && view.title.len() == 0
            &&& view.cursor == Interaction::Idle
            &&& view.needs_render
            &&& view.size == size
            &&& view.last_frame == (crate::engines::FrameImageView::Blank {
                width: size.width,
                height: size.height,
            })
            &&& view.shared.size == size
            &&& view.shared.scale_factor == state.scale_factor
            &&& view.shared.block_navigation == state.block_navigation
            &&& view.shared.user_agent == state.user_agent
            &&& view.shared.frame is None && view.shared.url is None
            &&& view.shared.title is None && view.shared.popup_url is None
            &&& view.shared.cursor_type == CursorType::Pointer
            &&& !view.shared.page_loaded
            &&& view.shared.console.len() == 0
            &&& view.shared.persistent.pixels.len() == 0
            &&& view.shared.persistent.width == 0 && view.shared.persistent.height == 0
            &&& view.clicks == ClickState::at_start()
            &&& state.opened(id, size, Some(frame)).views.last() == (ViewView {
                last_frame: frame,
                ..view
            })
        }),
        ({
            let settings = state.settings(size);
            &&& settings is Some
            &&& settings->0.size.width == if size.width > 0 {
                size.width
            } else {
                1
            }
            &&& settings->0.size.height == if size.height > 0 {
                size.height
            } else {
                1
            }
            &&& settings->0.frame_rate == 60
            &&& settings->0.background_color == state.background_color
        }),
{
}

/// An engine that does not run opens no view and asks for no browser.
pub proof fn law_idle_engine_opens_nothing<B>(
    state: CefState<B>,
    id: ViewId,
    size: Size,
    frame: Option<crate::engines::FrameImageView>,
)
    requires
        !state.initialized,
    ensures
        state.opened(id, size, frame) == state,
        state.settings(size) is None,
{
}

/// At the start an engine has no view, does not run, nothing has gone wrong,
/// pages may be left, and the scale is one.
pub proof fn law_engine_starts_idle<B>()
    ensures
        ({
            let start = CefState::<B>::at_start();
            &&& start.views.len() == 0 && start.parked.len() == 0
            &&& !start.initialized && start.init_error is None
            &&& start.scale_factor == 0x3f80_0000
            &&& start.background_color is None
            &&& !start.block_navigation
            &&& start.user_agent is None
        }),
{
}

/// A view is open exactly if one with its id is among the open ones, and it is
/// the first of those; a view is parked exactly if one with its id is among the
/// parked ones, and its image is that of the first of those.
pub proof fn law_views_are_found_by_id<B>(state: CefState<B>, id: ViewId)
    ensures
        state.is_open(id) <==> exists|k: int|
            0 <= k < state.views.len() && (#[trigger] state.views[k]).id == id,
        state.is_open(id) ==> state.view_of(id).id == id,
        state.is_open(id) ==> exists|k: int|
            {
                &&& 0 <= k < state.views.len()
                &&& state.view_of(id) == #[trigger] state.views[k]
                &&& forall|j: int| 0 <= j < k ==> (#[trigger] state.views[j]).id != id
            },
        state.is_parked(id) <==> exists|k: int|
            0 <= k < state.parked.len() && (#[trigger] state.parked[k]).id == id,
        state.is_parked(id) ==> exists|k: int|
            {
                &&& 0 <= k < state.parked.len()
                &&& (#[trigger] state.parked[k]).id == id
                &&& state.parked_frame(id) == Some(state.parked[k].last_frame)
                &&& forall|j: int| 0 <= j < k ==> (#[trigger] state.parked[j]).id != id
            },
        !state.is_parked(id) ==> state.parked_frame(id) is None,
{
    lemma_place_is_first(state.views, id);
    lemma_parked_place_is_first(state.parked, id);
    lemma_parked_place_has_id(state.parked, id);
    if state.is_open(id) {
        let k = view_place(state.views, id);
        assert(state.views[k].id == id);
    }
    if state.is_parked(id) {
        let k = parked_place(state.parked, id);
        assert(state.parked[k].id == id);
    }
}

proof fn lemma_parked_place_has_id(parked: Seq<ParkedState>, id: ViewId)
    ensures
        parked_place(parked, id) < parked.len() ==> parked[parked_place(parked, id)].id == id,
    decreases parked.len(),
{
    if parked.len() > 0 && parked.first().id != id {
        lemma_parked_place_is_first(parked.drop_first(), id);
        lemma_parked_place_has_id(parked.drop_first(), id);
    }
}

/// Closing takes one view away and parks none; parking takes one away and adds
/// one to the parked ones, with its id and its image; resuming takes one of
/// those away. For a view that is not there nothing happens.
pub proof fn law_views_come_and_go_one_by_one<B>(state: CefState<B>, id: ViewId)
    ensures
        ({
            let after = state.removed(id);
            &&& after == (CefState { views: after.views, ..state })
            &&& after.views.len() == state.views.len() - if state.is_open(id) {
                1int
            } else {
                0
            }
            &&& !state.is_open(id) ==> after == state
            &&& state.is_open(id) ==> exists|k: int|
                {
                    &&& 0 <= k < state.views.len()
                    &&& (#[trigger] state.views[k]).id == id
                    &&& after.views == state.views.remove(k)
                    &&& forall|j: int| 0 <= j < k ==> (#[trigger] state.views[j]).id != id
                }
        }),
        ({
            let after = state.suspended(id);
            &&& after == (CefState { views: after.views, parked: after.parked, ..state })
            &&& after.views == state.removed(id).views
            &&& !state.is_open(id) ==> after == state
            &&& state.is_open(id) ==> {
                &&& after.parked.len() == state.parked.len() + 1
                &&& after.parked.drop_last() == state.parked
                &&& after.parked.last().id == id
                &&& after.parked.last().last_frame == state.view_of(id).last_frame
            }
        }),
        ({
            let after = state.unparked(id);
            &&& after == (CefState { parked: after.parked, ..state })
            &&& after.parked.len() == state.parked.len() - if state.is_parked(id) {
                1int
            } else {
                0
            }
            &&& !state.is_parked(id) ==> after == state
            &&& state.is_parked(id) ==> exists|k: int|
                {
                    &&& 0 <= k < state.parked.len()
                    &&& (#[trigger] state.parked[k]).id == id
                    &&& after.parked == state.parked.remove(k)
                    &&& forall|j: int| 0 <= j < k ==> (#[trigger] state.parked[j]).id != id
                }
        }),
{
    lemma_place_is_first(state.views, id);
    lemma_parked_place_is_first(state.parked, id);
    lemma_parked_place_has_id(state.parked, id);
    if state.is_parked(id) {
        assert(state.parked[parked_place(state.parked, id)].id == id);
    }
    if state.is_open(id) {
        assert(state.views[view_place(state.views, id)].id == id);
        assert(state.suspended(id).parked.drop_last() =~= state.parked);
    }
}

/// The address of a view is the one it has, and that of an empty page where it
/// has none or is not open.
pub proof fn law_address_of_empty_view<B>(state: CefState<B>, id: ViewId)
    ensures
        state.is_open(id) && state.view_of(id).url.len() > 0 ==> state.url_of(id) == state.view_of(
            id,
        ).url,
        !state.is_open(id) || state.view_of(id).url.len() == 0 ==> state.url_of(id)
            == "about:blank"@,
{
}

/// The three characters that matter to tags are replaced by their names and all
/// others stay; texts are escaped character by character.
pub proof fn law_tag_escaping_is_by_character(c: char, a: Seq<char>, b: Seq<char>)
    ensures
        tag_escaped(seq!['&']) == "&amp;"@,
        tag_escaped(seq!['<']) == "&lt;"@,
        tag_escaped(seq!['>']) == "&gt;"@,
        c != '&' && c != '<' && c != '>' ==> tag_escaped(seq![c]) == seq![c],
        tag_escaped(a + b) == tag_escaped(a) + tag_escaped(b),
    decreases b.len(),
{
    lemma_tag_escaped_one('&');
    lemma_tag_escaped_one('<');
    lemma_tag_escaped_one('>');
    lemma_tag_escaped_one(c);
    if b.len() == 0 {
        assert(a + b =~= a);
        assert(tag_escaped(a) + tag_escaped(b) =~= tag_escaped(a));
    } else {
        law_tag_escaping_is_by_character(c, a, b.drop_last());
        assert((a + b).drop_last() =~= a + b.drop_last());
        assert((a + b).last() == b.last());
        assert(tag_escaped(a + b) =~= tag_escaped(a) + tag_escaped(b));
    }
}

proof fn lemma_tag_escaped_one(c: char)
    ensures
        tag_escaped(seq![c]) == tag_escaped_char(c),
{
    reveal_with_fuel(tag_escaped, 2);
    assert(seq![c].drop_last() =~= Seq::empty());
    assert(tag_escaped(seq![c]) =~= tag_escaped_char(c));
}

/// The error page names the address and the error, with nothing in them that
/// could open or close a tag.
pub proof fn law_error_page_names_both(url: Seq<char>, error: Seq<char>)
    ensures
        load_error_page(url, error)
            == "<html><body style=\"font-family:sans-serif;padding:2rem\"><h2>Failed to load</h2><p>"@
            + tag_escaped(url) + "</p><p style=\"color:#666\">"@ + tag_escaped(error)
            + "</p></body></html>"@,
        !tag_escaped(url).contains('<') && !tag_escaped(error).contains('<'),
{
    law_escaped_text_has_no_tag(url);
    law_escaped_text_has_no_tag(error);
}

/// A process that is to avoid the GPU runs headless without it, any other is
/// hinted to X11; every process leaves the keyring alone. The browser composes
/// without the GPU, keeps no shader cache, and has the features it needs.
pub proof fn law_switches_of_processes(disable_gpu: bool, is_browser: bool)
    ensures
        ({
            let switches = process_switches(disable_gpu, is_browser);
            let n: int = if disable_gpu {
                3
            } else {
                1
            };
            &&& switches.len() == n + 1 + if is_browser {
                4int
            } else {
                0
            }
            &&& disable_gpu ==> {
                &&& switches[0] == (SwitchView {
                    name: "ozone-platform"@,
                    value: Some("headless"@),
                })
                &&& switches[1] == (SwitchView { name: "disable-gpu"@, value: None })
                &&& switches[2] == (SwitchView { name: "in-process-gpu"@, value: None })
            }
            &&& !disable_gpu ==> switches[0] == (SwitchView {
                name: "ozone-platform-hint"@,
                value: Some("x11"@),
            })
            &&& switches[n] == (SwitchView { name: "password-store"@, value: Some("basic"@) })
            &&& is_browser ==> {
                &&& switches[n + 1] == (SwitchView {
                    name: "disable-gpu-compositing"@,
                    value: None,
                })
                &&& switches[n + 2] == (SwitchView {
                    name: "disable-gpu-shader-disk-cache"@,
                    value: None,
                })
                &&& switches[n + 3] == (SwitchView {
                    name: "enable-accelerated-2d-canvas"@,
                    value: None,
                })
                &&& switches[n + 4] == (SwitchView {
                    name: "enable-features"@,
                    value: Some("CanvasOopRasterization,UserAgentClientHints,GreaseUACH"@),
                })
            }
        }),
{
}

/// The words that avoid the GPU are 1, true and yes, with white space around
/// them or not; without a value it is used.
pub proof fn law_words_that_avoid_gpu(text: Seq<char>)
    ensures
        !says_yes(None),
        says_yes(Some(text)) <==> (crate::text::trimmed(text) == seq!['1'] || crate::text::trimmed(
            text,
        ) == seq!['t', 'r', 'u', 'e'] || crate::text::trimmed(text) == seq!['y', 'e', 's']),
{
    reveal_strlit("1");
    reveal_strlit("true");
    reveal_strlit("yes");
    assert("1"@ =~= seq!['1']);
    assert("true"@ =~= seq!['t', 'r', 'u', 'e']);
    assert("yes"@ =~= seq!['y', 'e', 's']);
}

/// Files are kept below the cache directory where it is named, else below that
/// of the home directory, else in the place for temporary files.
pub proof fn law_cache_is_below_home(cache: Seq<char>, home: Option<Seq<char>>, dir: Seq<char>)
    ensures
        cache_place(Some(cache), home) == cache + "/iced_webview_cef"@,
        cache_place(None, Some(dir)) == dir + "/.cache"@ + "/iced_webview_cef"@,
        cache_place(None, None) == "/tmp"@ + "/.cache"@ + "/iced_webview_cef"@,
{
}

/// Initializing succeeded where it returned one, and no other number; the
/// message says which number came and where the files are.
pub proof fn law_only_one_is_success(result: int, cef_dir: Seq<char>, cache: Seq<char>)
    ensures
        init_failure(result, cef_dir, cache) is None <==> result == 1,
        init_failure(result, cef_dir, cache) matches Some(text) ==> text
            == "CEF initialize() returned "@ + crate::text::int_text(result)
            + " (expected 1). cef_dir="@ + cef_dir + ", cache="@ + cache,
{
}

/// The library path is left alone exactly if the CEF directory is an entry of
/// it; otherwise the directory comes first and all that was there after it.
pub proof fn law_lib_path_keeps_its_entries(cef_dir: Seq<char>, ld_path: Seq<char>)
    ensures
        extended_lib_path(cef_dir, ld_path) is None <==> crate::text::split_on(
            ld_path,
            ':',
        ).contains(cef_dir),
        extended_lib_path(cef_dir, ld_path) matches Some(path) ==> {
            &&& ld_path.len() > 0 ==> path == cef_dir.push(':') + ld_path
            &&& ld_path.len() == 0 ==> path == cef_dir
        },
{
    reveal_strlit(":");
    assert(cef_dir + ":"@ + ld_path =~= cef_dir.push(':') + ld_path);
}

/// A navigation is cancelled exactly if pages may not be left, it is not in a
/// frame below the main one, and it leads to an address that is neither empty,
/// nor that of an empty page, nor one that carries its page in itself.
pub proof fn law_navigation_is_cancelled(
    shared: SharedView,
    is_main: Option<bool>,
    url: Seq<char>,
)
    ensures
        ({
            let inline_page = url.len() >= 5 && url[0] == 'd' && url[1] == 'a' && url[2] == 't'
                && url[3] == 'a' && url[4] == ':';
            shared.cancels(is_main, Some(url)) <==> shared.block_navigation && is_main != Some(
                false,
            ) && url.len() > 0 && !inline_page && url != "about:blank"@
        }),
        !shared.cancels(is_main, None),
{
    reveal_strlit("data:");
    let head = "data:"@;
    assert(head =~= seq!['d', 'a', 't', 'a', ':']);
    if head.is_prefix_of(url) {
        assert(url.subrange(0, 5) =~= head);
        assert(url[0] == head[0] && url[1] == head[1] && url[2] == head[2] && url[3] == head[3]
            && url[4] == head[4]);
    }
    if url.len() >= 5 && url[0] == 'd' && url[1] == 'a' && url[2] == 't' && url[3] == 'a' && url[4]
        == ':' {
        assert(url.subrange(0, 5) =~= head);
    }
}

/// A text that is there is kept; one that is not counts as empty.
pub proof fn law_missing_text_is_empty(text: Seq<char>)
    ensures
        or_empty(Some(text)) == text,
        or_empty(None).len() == 0,
{
}

/// The files a crashed run may have left behind are the three that keep a
/// second run out.
pub proof fn law_left_behind_files_are_three()
    ensures
        SINGLETON_FILES[0]@ == "SingletonLock"@,
        SINGLETON_FILES[1]@ == "SingletonSocket"@,
        SINGLETON_FILES[2]@ == "SingletonCookie"@,
{
}

/// Switches, messages and optional texts are seen as the texts they hold, in
/// their order.
pub proof fn law_texts_are_seen_as_they_are(
    switches: Seq<Switch>,
    messages: Seq<ConsoleMessage>,
    text: &str,
    k: int,
)
    ensures
        switch_views(switches).len() == switches.len(),
        0 <= k < switches.len() ==> switch_views(switches)[k].name == switches[k].name@,
        0 <= k < switches.len() ==> switch_views(switches)[k].value == opt_chars(switches[k].value),
        console_views(messages).len() == messages.len(),
        0 <= k < messages.len() ==> console_views(messages)[k].level == messages[k].level
            && console_views(messages)[k].message == messages[k].message@ && console_views(
            messages,
        )[k].source == messages[k].source@ && console_views(messages)[k].line == messages[k].line,
        opt_chars(Some(text)) == Some(text@),
        opt_chars(None) is None,
{
}

} // verus!
