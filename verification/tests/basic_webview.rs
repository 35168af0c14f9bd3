//! The basic web view.

use iced_webview::engines::PageType;
use iced_webview::input::{
    Button, Event, Interaction, Key, KeyboardEvent, Location, Modifiers, MouseEvent, Named,
    Physical, Point, Size, TouchEvent,
};
use iced_webview::util::parse_url;
use iced_webview::webview::basic::{
    anchor_target, image_address, Action, AnchorTarget, Effect, PendingImage, Seen, WebView,
    WebViewWidget, SCALE_ONE,
};
use iced_webview::webview::{is_touch_release, touch_to_mouse};

const SIZE: Size = Size {
    width: 1920,
    height: 1080,
};

fn seen() -> Seen {
    Seen {
        url: String::new(),
        title: String::new(),
        selected_text: None,
        has_view: true,
    }
}

fn url(text: &str) -> Action {
    Action::GoToUrl(parse_url(text).unwrap())
}

/// A web view for an engine that does not fetch, with views of these ids.
fn with_views(ids: &[usize]) -> WebView {
    let mut view = WebView::new(false, true).on_action();
    for id in ids {
        view.update(Action::CreateView(PageType::Html("<p>".to_owned())), seen());
        view.view_created(*id);
    }
    view
}

#[test]
fn a_new_web_view_is_empty() {
    let view = WebView::default();
    assert!(!view.has_current_view());
    assert_eq!(view.view_size(), SIZE);
    assert_eq!(view.scale_factor(), SCALE_ONE);
    assert_eq!(f32::from_bits(view.scale_factor()), 1.0);
}

#[test]
fn a_created_view_is_the_current_one() {
    let mut view = WebView::new(true, false).on_create_view();
    let told = view.update(
        Action::CreateView(PageType::Url("http://a/".to_owned())),
        seen(),
    );
    assert!(matches!(
        &told[..],
        [Effect::NewView(SIZE, Some(PageType::Url(u)))] if u == "http://a/"
    ));
    let told = view.view_created(7);
    assert!(matches!(
        &told[..],
        [Effect::PublishCreated, Effect::RequestRender(7, SIZE)]
    ));
    assert_eq!(view.get_current_view_id(), 7);
    assert_eq!(view.index_as_view_id(0), 7);
}

#[test]
fn an_engine_that_does_not_fetch_is_sent_to_the_page_afterwards() {
    let mut view = WebView::new(false, true).on_action();
    let told = view.update(
        Action::CreateView(PageType::Url("http://a/".to_owned())),
        seen(),
    );
    assert!(matches!(&told[..], [Effect::NewView(SIZE, None)]));
    let told = view.view_created(7);
    assert!(matches!(
        &told[..],
        [
            Effect::Goto(7, PageType::Url(u)),
            Effect::FetchPage(7, f),
            Effect::RequestRender(7, SIZE),
        ] if u == "http://a/" && f == "http://a/"
    ));
}

#[test]
fn without_a_way_back_no_page_is_fetched() {
    let mut view = WebView::new(false, true);
    view.update(
        Action::CreateView(PageType::Url("http://a/".to_owned())),
        seen(),
    );
    let told = view.view_created(7);
    assert!(matches!(
        &told[..],
        [Effect::Goto(7, _), Effect::RequestRender(7, SIZE)]
    ));
    let told = view.update(url("http://b/"), seen());
    assert!(matches!(
        &told[..],
        [Effect::Goto(7, _), Effect::RequestRender(7, SIZE)]
    ));
}

#[test]
fn changes_of_address_and_title_are_told_once() {
    let mut view = WebView::new(true, false)
        .on_url_change()
        .on_title_change();
    view.update(Action::CreateView(PageType::Html(String::new())), seen());
    view.view_created(1);
    let now = || Seen {
        url: "http://a/".to_owned(),
        title: "A".to_owned(),
        ..seen()
    };
    let told = view.update(Action::CopySelection, now());
    assert!(matches!(
        &told[..],
        [Effect::PublishUrl(u), Effect::PublishTitle(t)] if u == "http://a/" && t == "A"
    ));
    assert!(view.update(Action::CopySelection, now()).is_empty());
}

#[test]
fn changing_the_view_renders_it() {
    let mut view = with_views(&[10, 20]);
    let told = view.update(Action::ChangeView(0), seen());
    assert!(matches!(
        &told[..],
        [
            Effect::RequestRender(10, SIZE),
            Effect::RequestRender(10, SIZE)
        ]
    ));
    assert_eq!(view.get_current_view_id(), 10);
}

#[test]
fn closing_the_current_view_goes_back_to_the_last_used_one() {
    let mut view = with_views(&[10, 20, 30]);
    view.update(Action::ChangeView(0), seen());
    view.update(Action::ChangeView(1), seen());
    view = view.on_close_view();
    let told = view.update(Action::CloseCurrentView, seen());
    assert!(matches!(
        &told[..],
        [
            Effect::RemoveView(20),
            Effect::PublishClosed,
            Effect::RequestRender(10, SIZE),
        ]
    ));
    assert_eq!(view.get_current_view_id(), 10);
    view.update(Action::CloseCurrentView, seen());
    assert_eq!(view.get_current_view_id(), 30);
    let told = view.update(Action::CloseCurrentView, seen());
    assert!(matches!(
        &told[..],
        [Effect::RemoveView(30), Effect::PublishClosed]
    ));
    assert!(!view.has_current_view());
}

#[test]
fn closing_another_view_keeps_the_position() {
    let mut view = with_views(&[10, 20, 30]);
    view.update(Action::ChangeView(0), seen());
    let told = view.update(Action::CloseView(2), seen());
    assert!(matches!(
        &told[..],
        [Effect::RemoveView(30), Effect::RequestRender(10, SIZE)]
    ));
    let told = view.update(Action::CloseView(0), seen());
    assert!(matches!(
        &told[..],
        [Effect::RemoveView(10), Effect::RequestRender(20, SIZE)]
    ));
}

#[test]
fn navigation_reaches_the_current_view() {
    let mut view = with_views(&[5]);
    let told = view.update(url("http://a/b"), seen());
    assert!(matches!(
        &told[..],
        [
            Effect::Goto(5, PageType::Url(u)),
            Effect::FetchPage(5, f),
            Effect::RequestRender(5, SIZE),
        ] if u == "http://a/b" && f == "http://a/b"
    ));
    assert!(matches!(
        &view.update(Action::GoBackward, seen())[..],
        [Effect::GoBack(5), Effect::RequestRender(5, SIZE)]
    ));
    assert!(matches!(
        &view.update(Action::GoForward, seen())[..],
        [Effect::GoForward(5), Effect::RequestRender(5, SIZE)]
    ));
    assert!(matches!(
        &view.update(Action::Refresh, seen())[..],
        [Effect::Refresh(5), Effect::RequestRender(5, SIZE)]
    ));
}

#[test]
fn input_reaches_the_current_view() {
    let mut view = with_views(&[5]);
    let point = Point { x: 1, y: 2 };
    let told = view.update(
        Action::SendMouseEvent(MouseEvent::CursorEntered, point, Modifiers::empty()),
        seen(),
    );
    assert!(matches!(
        &told[..],
        [
            Effect::Mouse(5, Point { x: 1, y: 2 }, MouseEvent::CursorEntered, _),
            Effect::TakeAnchorClick(5),
        ]
    ));
    let key = KeyboardEvent::ModifiersChanged(Modifiers::empty());
    assert!(matches!(
        &view.update(Action::SendKeyboardEvent(key), seen())[..],
        [
            Effect::Keyboard(5, KeyboardEvent::ModifiersChanged(_)),
            Effect::RequestRender(5, SIZE)
        ]
    ));
    assert!(matches!(
        &view.update(Action::Focus, seen())[..],
        [Effect::FocusEngine, Effect::RequestRender(5, SIZE)]
    ));
    assert!(matches!(
        &view.update(Action::Unfocus, seen())[..],
        [Effect::UnfocusEngine, Effect::RequestRender(5, SIZE)]
    ));
}

#[test]
fn only_a_real_resize_is_told() {
    let mut view = with_views(&[5]);
    assert!(view.update(Action::Resize(SIZE), seen()).is_empty());
    let small = Size {
        width: 3,
        height: 4,
    };
    let told = view.update(Action::Resize(small), seen());
    assert!(matches!(
        told[..],
        [Effect::ResizeEngine(a), Effect::RequestRender(5, b)] if a == small && b == small
    ));
    assert_eq!(view.view_size(), small);
}

#[test]
fn the_selection_is_copied_where_the_host_wants_it() {
    let selected = || Seen {
        selected_text: Some("text".to_owned()),
        ..seen()
    };
    let mut view = with_views(&[5]);
    assert!(view.update(Action::CopySelection, selected()).is_empty());
    view = view.on_copy();
    assert!(matches!(
        &view.update(Action::CopySelection, selected())[..],
        [Effect::PublishCopied(t)] if t == "text"
    ));
    assert!(view.update(Action::CopySelection, seen()).is_empty());
}

#[test]
fn a_fetched_page_is_shown() {
    let mut view = with_views(&[5]);
    let css = vec![("a.css".to_owned(), "p{}".to_owned())];
    let told = view.update(
        Action::FetchComplete(5, "http://a/".to_owned(), Ok(("<p>".to_owned(), css))),
        seen(),
    );
    assert!(matches!(
        &told[..],
        [
            Effect::SetCssCache(5, c),
            Effect::Goto(5, PageType::Html(h)),
            Effect::RequestRender(5, SIZE),
        ] if c.len() == 1 && h == "<p>"
    ));
}

#[test]
fn a_failed_fetch_shows_why() {
    let mut view = with_views(&[5]);
    let failed = || {
        Action::FetchComplete(5, "http://a/?<".to_owned(), Err("no \"route\"".to_owned()))
    };
    let told = view.update(failed(), seen());
    assert!(matches!(
        &told[..],
        [Effect::Goto(5, PageType::Html(h)), Effect::RequestRender(5, SIZE)]
            if h == "<html><body><h1>Failed to load</h1><p>http://a/?&lt;</p>\
                     <p>no &quot;route&quot;</p></body></html>"
    ));
    let gone = Seen {
        has_view: false,
        ..seen()
    };
    assert!(view.update(failed(), gone).is_empty());
}

fn image(src: &str, page_url: &str) -> PendingImage {
    PendingImage {
        view: 5,
        src: src.to_owned(),
        baseurl: String::new(),
        redraw_on_ready: true,
        page_url: page_url.to_owned(),
    }
}

fn arrived(epoch: u64) -> Action {
    Action::ImageFetchComplete(5, "a.png".to_owned(), Ok(vec![1, 2]), true, epoch)
}

fn flushes(told: &[Effect]) -> bool {
    told.iter()
        .any(|e| matches!(e, Effect::FlushStagedImages(5, SIZE)))
}

#[test]
fn images_on_the_web_are_fetched() {
    let mut view = with_views(&[5]);
    view.update(url("http://a/"), seen());
    let fetches = view.images_pending(vec![
        image("a.png", "http://a/dir/"),
        image("data:image/png,x", "http://a/"),
        image("b.png", ""),
        image("https://c/c.png", "http://a/"),
    ]);
    assert_eq!(fetches.len(), 2);
    assert_eq!(fetches[0].url, "http://a/dir/a.png");
    assert_eq!(fetches[0].src, "a.png");
    assert_eq!(fetches[0].epoch, 1);
    assert!(fetches[0].redraw_on_ready);
    assert_eq!(fetches[1].url, "https://c/c.png");
}

#[test]
fn images_are_drawn_in_one_pass() {
    let mut view = with_views(&[5]);
    assert!(flushes(&view.update(Action::Update, seen())));
    view.images_pending(vec![image("http://a/1", ""), image("http://a/2", "")]);
    assert!(!flushes(&view.update(Action::Update, seen())));
    view.update(arrived(0), seen());
    assert!(!flushes(&view.update(Action::Update, seen())));
    view.update(arrived(0), seen());
    assert!(flushes(&view.update(Action::Update, seen())));
}

#[test]
fn a_tick_lets_the_engine_work() {
    let mut view = with_views(&[5]);
    assert!(matches!(
        &view.update(Action::Update, seen())[..],
        [
            Effect::ApplyDetectedScale,
            Effect::UpdateEngine,
            Effect::RequestRender(5, SIZE),
            Effect::FlushStagedImages(5, SIZE),
            Effect::TakePendingImages,
        ]
    ));
    assert!(matches!(
        &WebView::default().update(Action::Update, seen())[..],
        [Effect::ApplyDetectedScale, Effect::UpdateEngine]
    ));
}

#[test]
fn images_of_an_earlier_page_are_discarded() {
    let mut view = with_views(&[5]);
    assert!(matches!(
        &view.update(arrived(0), seen())[..],
        [Effect::LoadImage(5, s, b, true)] if s == "a.png" && b == &vec![1, 2]
    ));
    view.update(url("http://a/"), seen());
    assert!(view.update(arrived(0), seen()).is_empty());
    assert_eq!(view.update(arrived(1), seen()).len(), 1);
    let gone = Seen {
        has_view: false,
        ..seen()
    };
    assert!(view.update(arrived(1), gone).is_empty());
    let failed = Action::ImageFetchComplete(5, String::new(), Err(String::new()), true, 1);
    assert!(view.update(failed, seen()).is_empty());
}

#[test]
fn links_lead_to_web_pages_only() {
    let at = |t: &str| parse_url(t);
    assert!(matches!(
        anchor_target(at("http://b/"), at("http://a/")),
        AnchorTarget::Page(p) if p.text == "http://b/"
    ));
    assert!(matches!(
        anchor_target(at("http://a/#x"), at("http://a/#y")),
        AnchorTarget::Fragment(f) if f == "x"
    ));
    assert!(matches!(
        anchor_target(at("http://a/"), at("http://a/#y")),
        AnchorTarget::Nowhere
    ));
    assert!(matches!(
        anchor_target(at("mailto:x@y"), at("http://a/")),
        AnchorTarget::Nowhere
    ));
    assert!(matches!(
        anchor_target(at("relative"), at("http://a/")),
        AnchorTarget::Nowhere
    ));
    assert!(matches!(
        anchor_target(at("https://a/#x"), at("nowhere")),
        AnchorTarget::Page(_)
    ));
}

#[test]
fn a_clicked_link_is_followed() {
    let on_page = || Seen {
        url: "http://a/dir/page".to_owned(),
        ..seen()
    };
    let mut view = with_views(&[5]);
    assert!(matches!(
        &view.anchor_clicked("other".to_owned(), on_page())[..],
        [
            Effect::Goto(5, PageType::Url(u)),
            Effect::FetchPage(5, _),
            Effect::RequestRender(5, SIZE),
        ] if u == "http://a/dir/other"
    ));
    assert!(matches!(
        &view.anchor_clicked("#part".to_owned(), on_page())[..],
        [Effect::ScrollToFragment(5, f)] if f == "part"
    ));
    assert!(view
        .anchor_clicked("javascript:x()".to_owned(), on_page())
        .is_empty());
    assert!(view.anchor_clicked("other".to_owned(), seen()).is_empty());
}

#[test]
fn only_web_images_have_an_address() {
    assert_eq!(
        image_address(parse_url("https://a/b.png")).as_deref(),
        Some("https://a/b.png")
    );
    assert_eq!(image_address(parse_url("file:///b.png")), None);
    assert_eq!(image_address(parse_url("b.png")), None);
}

#[test]
fn the_scale_factor_is_passed_on() {
    let mut view = WebView::default();
    let two = 2.0f32.to_bits();
    assert!(matches!(view.set_scale_factor(two), Effect::SetScaleFactor(s) if s == two));
    assert_eq!(view.scale_factor(), two);
}

#[test]
fn the_image_widget_passes_input_on() {
    let size = Size {
        width: 8,
        height: 9,
    };
    let point = Point { x: 3, y: 4 };
    let mut widget = WebViewWidget::new(Interaction::Text);
    let key = |c: &str, command: bool| {
        Event::Keyboard(KeyboardEvent::KeyPressed {
            key: Key::Character(c.to_owned()),
            physical_key: Physical::Unidentified,
            location: Location::Standard,
            modifiers: Modifiers {
                command,
                ..Modifiers::empty()
            },
            text: None,
            repeat: false,
        })
    };
    assert!(matches!(
        &widget.update(Event::Other, size, None)[..],
        [Action::Resize(s)] if *s == size
    ));
    assert!(widget.update(Event::Other, size, None).is_empty());
    assert!(matches!(
        &widget.update(key("c", true), size, None)[..],
        [Action::CopySelection, Action::SendKeyboardEvent(_)]
    ));
    assert!(matches!(
        &widget.update(key("c", false), size, None)[..],
        [Action::SendKeyboardEvent(_)]
    ));
    assert!(matches!(
        &widget.update(Event::Mouse(MouseEvent::CursorEntered), size, Some(point))[..],
        [Action::SendMouseEvent(MouseEvent::CursorEntered, p, _)] if *p == point
    ));
    assert!(widget
        .update(Event::Mouse(MouseEvent::CursorEntered), size, None)
        .is_empty());
    assert!(matches!(
        &widget.update(Event::Mouse(MouseEvent::CursorLeft), size, None)[..],
        [Action::SendMouseEvent(MouseEvent::CursorLeft, Point { x: 0, y: 0 }, _)]
    ));
    assert_eq!(widget.mouse_interaction(true), Interaction::Text);
    assert_eq!(widget.mouse_interaction(false), Interaction::Idle);
}

#[test]
fn touches_stand_for_mouse_events() {
    let position = Point { x: 1, y: 2 };
    let pressed = TouchEvent::FingerPressed { id: 0, position };
    let moved = TouchEvent::FingerMoved { id: 0, position };
    let lifted = TouchEvent::FingerLifted { id: 0, position };
    let lost = TouchEvent::FingerLost { id: 0, position };
    assert_eq!(
        touch_to_mouse(&pressed),
        MouseEvent::ButtonPressed(Button::Left)
    );
    assert_eq!(touch_to_mouse(&moved), MouseEvent::CursorMoved { position });
    assert_eq!(
        touch_to_mouse(&lifted),
        MouseEvent::ButtonReleased(Button::Left)
    );
    assert_eq!(
        touch_to_mouse(&lost),
        MouseEvent::ButtonReleased(Button::Left)
    );
    assert!(!is_touch_release(&pressed) && !is_touch_release(&moved));
    assert!(is_touch_release(&lifted) && is_touch_release(&lost));
}

#[test]
fn a_key_is_copied_whole() {
    let event = KeyboardEvent::KeyPressed {
        key: Key::Named(Named::F5),
        physical_key: Physical::Unidentified,
        location: Location::Numpad,
        modifiers: Modifiers::empty(),
        text: Some("x".to_owned()),
        repeat: true,
    };
    assert!(matches!(
        event.clone(),
        KeyboardEvent::KeyPressed {
            key: Key::Named(Named::F5),
            location: Location::Numpad,
            text: Some(t),
            repeat: true,
            ..
        } if t == "x"
    ));
}

#[test]
fn actions_need_the_view_they_are_about() {
    let mut view = WebView::new(false, true).on_action();
    assert!(view.accepts(&Action::Update));
    assert!(view.accepts(&Action::CopySelection));
    assert!(!view.accepts(&Action::Refresh));
    assert!(!view.accepts(&Action::CloseCurrentView));
    assert!(!view.accepts(&Action::ChangeView(0)));

    view.update(Action::CreateView(PageType::Html("<p>".to_owned())), seen());
    assert!(!view.accepts(&Action::Update));
    view.view_created(4);
    assert!(view.accepts(&Action::Update));
    assert!(view.accepts(&Action::Refresh));
    assert!(view.accepts(&Action::ChangeView(0)));
    assert!(!view.accepts(&Action::ChangeView(1)));
    assert!(!view.accepts(&Action::CloseView(0)));
    assert!(view.accepts(&Action::CloseCurrentView));
}

#[test]
fn images_are_counted_while_they_are_fetched() {
    let mut view = with_views(&[4]);
    assert_eq!(view.inflight_images(), 0);
    let fetches = view.images_pending(vec![PendingImage {
        view: 4,
        src: "a.png".to_owned(),
        baseurl: String::new(),
        redraw_on_ready: false,
        page_url: "http://a/".to_owned(),
    }]);
    assert_eq!(fetches.len(), 1);
    assert_eq!(view.inflight_images(), 1);
    view.update(
        Action::ImageFetchComplete(4, "a.png".to_owned(), Ok(vec![1]), false, 0),
        seen(),
    );
    assert_eq!(view.inflight_images(), 0);
}

#[test]
fn an_image_of_a_page_before_the_last_is_discarded() {
    let mut view = with_views(&[4]);
    view.update(url("http://a/"), seen());
    view.update(url("http://b/"), seen());
    view.update(Action::Resize(Size { width: 5, height: 6 }), seen());
    view.update(url("http://c/"), seen());
    for epoch in 0..3 {
        let told = view.update(
            Action::ImageFetchComplete(4, "a.png".to_owned(), Ok(vec![1]), false, epoch),
            seen(),
        );
        assert!(told.is_empty());
    }
    let told = view.update(
        Action::ImageFetchComplete(4, "a.png".to_owned(), Ok(vec![1]), false, 3),
        seen(),
    );
    assert!(matches!(&told[..], [Effect::LoadImage(4, ..)]));
}

#[test]
fn actions_can_be_copied() {
    let actions = [
        Action::ChangeView(3),
        Action::CreateView(PageType::Url("http://a/".to_owned())),
        url("http://a/?q#f"),
        Action::Resize(SIZE),
        Action::FetchComplete(
            4,
            "http://a/".to_owned(),
            Ok((
                "<p>".to_owned(),
                vec![("a.css".to_owned(), "p {}".to_owned())],
            )),
        ),
        Action::FetchComplete(4, "http://a/".to_owned(), Err("gone".to_owned())),
        Action::ImageFetchComplete(4, "a.png".to_owned(), Ok(vec![1, 2]), true, 5),
    ];
    for action in &actions {
        assert_eq!(action.clone(), *action);
    }
    assert_ne!(actions[0], actions[1]);
}
