//! The CEF engine: input, file dialogs and views.

use iced_webview::engines::cef_dialog::{
    dialog_filters, picked_paths, usable_entries, zenity_arguments, FileDialogMode, FileFilter,
};
use iced_webview::engines::cef_engine::{
    cache_dir, cef_lib_path, command_line_switches, disables_gpu, html_escape, init_error_message,
    is_browser_process, is_finished_subprocess, is_subprocess, load_error_address, BrowserSettings,
    Cef, PopupAnswer, SharedState, ABOUT_BLANK, SINGLETON_FILES,
};
use iced_webview::engines::cef_input::{
    cursor_type_to_interaction, iced_button_to_cef, iced_key_to_cef, iced_modifiers_to_cef,
    iced_modifiers_to_cef_key, key_events, key_location_flags, mouse_button_event_flag,
    physical_key_to_x11, ClickState, CursorType, KeyEvent, KeyEventType, MouseButtonType,
    PageMouse, SinceClick,
};
use iced_webview::engines::paint::Rect;
use iced_webview::engines::{FrameImage, PageType, PixelFormat};
use iced_webview::input::{
    Button, Code, Interaction, Key, KeyboardEvent, Location, Modifiers, MouseEvent, Named,
    Physical, Point, ScrollDelta, Size,
};

fn modifiers(shift: bool, control: bool, alt: bool) -> Modifiers {
    Modifiers {
        shift,
        control,
        alt,
        ..Modifiers::empty()
    }
}

fn pressed(key: Key, code: Code, text: Option<&str>) -> KeyboardEvent {
    KeyboardEvent::KeyPressed {
        key,
        physical_key: Physical::Code(code),
        location: Location::Standard,
        modifiers: Modifiers::empty(),
        text: text.map(|t| t.to_owned()),
        repeat: false,
    }
}

fn character(text: &str) -> Key {
    Key::Character(text.to_owned())
}

#[test]
fn physical_keys_have_x11_keycodes() {
    let code = |c| physical_key_to_x11(&Physical::Code(c));
    assert_eq!(code(Code::Escape), 9);
    assert_eq!(code(Code::Digit0), 19);
    assert_eq!(code(Code::KeyA), 38);
    assert_eq!(code(Code::Space), 65);
    assert_eq!(code(Code::F10), 76);
    assert_eq!(code(Code::F11), 95);
    assert_eq!(code(Code::NumpadEnter), 104);
    assert_eq!(code(Code::ContextMenu), 135);
    assert_eq!(code(Code::Other), 0);
    assert_eq!(physical_key_to_x11(&Physical::Unidentified), 0);
}

#[test]
fn keys_have_windows_codes() {
    let code = |k: &Key| iced_key_to_cef(k);
    assert_eq!(code(&character("a")), Some((0x41, 0x61)));
    assert_eq!(code(&character("A")), Some((0x41, 0x41)));
    assert_eq!(code(&character("7")), Some((0x37, 0x37)));
    assert_eq!(code(&character(".")), Some((0xBE, 0x2E)));
    assert_eq!(code(&character(">")), Some((0xBE, 0x3E)));
    assert_eq!(code(&character("\\")), Some((0xDC, 0x5C)));
    assert_eq!(code(&character("'")), Some((0xDE, 0x27)));
    assert_eq!(code(&character(" ")), Some((0x20, 0x20)));
    assert_eq!(code(&character("é")), Some((0xE9, 0xE9)));
    assert_eq!(code(&character("!")), Some((0x31, 0x21)));
    assert_eq!(code(&character("#")), Some((0x33, 0x23)));
    assert_eq!(code(&character("$")), Some((0x34, 0x24)));
    assert_eq!(code(&character("%")), Some((0x35, 0x25)));
    assert_eq!(code(&character("&")), Some((0x37, 0x26)));
    assert_eq!(code(&character("(")), Some((0x39, 0x28)));
    assert_eq!(code(&character(")")), Some((0x29, 0x29)));
    assert_eq!(code(&character("\u{1F600}")), Some((0x1F600, 0xF600)));
    assert_eq!(code(&character("")), None);
    assert_eq!(code(&Key::Named(Named::Enter)), Some((0x0D, 0x0D)));
    assert_eq!(code(&Key::Named(Named::Delete)), Some((0x2E, 0)));
    assert_eq!(code(&Key::Named(Named::F12)), Some((0x7B, 0)));
    assert_eq!(code(&Key::Named(Named::NumLock)), None);
    assert_eq!(code(&Key::Named(Named::Other)), None);
    assert_eq!(code(&Key::Unidentified), None);
}

#[test]
fn flags_say_what_is_held_and_where() {
    assert_eq!(iced_modifiers_to_cef(modifiers(false, false, false)), 0);
    assert_eq!(iced_modifiers_to_cef(modifiers(true, true, true)), 14);
    assert_eq!(iced_modifiers_to_cef_key(modifiers(false, true, false)), 4);
    assert_eq!(key_location_flags(Location::Standard, false), 0);
    assert_eq!(key_location_flags(Location::Numpad, false), 1 << 9);
    assert_eq!(key_location_flags(Location::Left, true), 1 << 10 | 1 << 13);
    assert_eq!(key_location_flags(Location::Right, false), 1 << 11);
    assert_eq!(mouse_button_event_flag(Button::Left), 1 << 4);
    assert_eq!(mouse_button_event_flag(Button::Middle), 1 << 5);
    assert_eq!(mouse_button_event_flag(Button::Right), 1 << 6);
    assert_eq!(mouse_button_event_flag(Button::Back), 0);
    assert_eq!(iced_button_to_cef(Button::Left), Some(MouseButtonType::Left));
    assert_eq!(
        iced_button_to_cef(Button::Middle),
        Some(MouseButtonType::Middle)
    );
    assert_eq!(
        iced_button_to_cef(Button::Right),
        Some(MouseButtonType::Right)
    );
    assert_eq!(iced_button_to_cef(Button::Other(9)), None);
}

#[test]
fn pointers_have_counterparts() {
    for (cursor, interaction) in [
        (CursorType::Pointer, Interaction::Idle),
        (CursorType::Hand, Interaction::Pointer),
        (CursorType::Ibeam, Interaction::Text),
        (CursorType::EastResize, Interaction::ResizingHorizontally),
        (CursorType::RowResize, Interaction::ResizingVertically),
        (CursorType::NotAllowed, Interaction::NotAllowed),
        (CursorType::ZoomOut, Interaction::ZoomOut),
        (CursorType::Other, Interaction::Idle),
    ] {
        assert_eq!(cursor_type_to_interaction(cursor), interaction);
    }
}

#[test]
fn a_press_is_a_key_and_what_it_types() {
    let events = key_events(&pressed(character("a"), Code::KeyA, Some("a")));
    let down = KeyEvent {
        type_: KeyEventType::RawKeyDown,
        modifiers: 0,
        windows_key_code: 0x41,
        native_key_code: 38,
        character: 0x61,
    };
    assert_eq!(
        events,
        vec![
            down,
            KeyEvent {
                type_: KeyEventType::Char,
                windows_key_code: 0x61,
                ..down
            }
        ]
    );
}

#[test]
fn a_number_pad_digit_types_without_text() {
    let events = key_events(&pressed(character("7"), Code::Numpad7, None));
    assert_eq!(events.len(), 2);
    assert_eq!(events[1].type_, KeyEventType::Char);
    assert_eq!(events[1].character, 0x37);
    assert_eq!(events[1].native_key_code, 79);
}

#[test]
fn a_control_key_types_nothing() {
    let events = key_events(&pressed(Key::Named(Named::ArrowUp), Code::ArrowUp, None));
    assert_eq!(events.len(), 1);
    let events = key_events(&pressed(Key::Named(Named::Backspace), Code::Backspace, None));
    assert_eq!(events.len(), 1);
    let events = key_events(&pressed(Key::Unidentified, Code::Other, Some("x")));
    assert_eq!(events.len(), 1);
    assert_eq!(events[0].type_, KeyEventType::Char);
    assert!(key_events(&KeyboardEvent::ModifiersChanged(Modifiers::empty())).is_empty());
}

#[test]
fn a_release_mirrors_its_press() {
    let down = key_events(&KeyboardEvent::KeyPressed {
        key: Key::Named(Named::Shift),
        physical_key: Physical::Code(Code::ShiftRight),
        location: Location::Right,
        modifiers: modifiers(true, false, false),
        text: None,
        repeat: false,
    });
    let up = key_events(&KeyboardEvent::KeyReleased {
        key: Key::Named(Named::Shift),
        physical_key: Physical::Code(Code::ShiftRight),
        location: Location::Right,
        modifiers: modifiers(true, false, false),
    });
    assert_eq!(
        up,
        vec![KeyEvent {
            type_: KeyEventType::KeyUp,
            ..down[0]
        }]
    );
    assert_eq!(up[0].modifiers, 2 | 1 << 11);
    assert_eq!(up[0].native_key_code, 62);
}

fn press(clicks: &mut ClickState, since: Option<SinceClick>) -> i32 {
    let sent = clicks.mouse_events(
        MouseEvent::ButtonPressed(Button::Left),
        Modifiers::empty(),
        since,
    );
    match sent[..] {
        [PageMouse::SetFocus, PageMouse::Click {
            button: MouseButtonType::Left,
            up: false,
            count,
            ..
        }] => count,
        _ => panic!("{sent:?}"),
    }
}

#[test]
fn clicks_in_a_row_are_counted() {
    let soon = Some(SinceClick {
        millis: 499,
        near: true,
    });
    let late = Some(SinceClick {
        millis: 500,
        near: true,
    });
    let far = Some(SinceClick {
        millis: 1,
        near: false,
    });
    let mut clicks = ClickState::new();
    assert_eq!(press(&mut clicks, None), 1);
    assert_eq!(press(&mut clicks, soon), 2);
    assert_eq!(press(&mut clicks, soon), 3);
    assert_eq!(press(&mut clicks, soon), 1);
    assert_eq!(press(&mut clicks, soon), 2);
    assert_eq!(press(&mut clicks, late), 1);
    assert_eq!(press(&mut clicks, soon), 2);
    assert_eq!(press(&mut clicks, far), 1);
}

#[test]
fn another_button_starts_a_new_click() {
    let soon = Some(SinceClick {
        millis: 100,
        near: true,
    });
    let mut clicks = ClickState::new();
    let mut count = |button, since| {
        let event = MouseEvent::ButtonPressed(button);
        match clicks.mouse_events(event, Modifiers::empty(), since)[..] {
            [PageMouse::SetFocus, PageMouse::Click { count, .. }] => count,
            _ => 0,
        }
    };
    assert_eq!(count(Button::Left, None), 1);
    assert_eq!(count(Button::Right, soon), 1);
    assert_eq!(count(Button::Right, soon), 2);
    assert_eq!(count(Button::Left, soon), 1);
    assert_eq!(count(Button::Left, soon), 2);
    assert_eq!(count(Button::Back, soon), 0);
    assert_eq!(count(Button::Left, soon), 1);
}

#[test]
fn held_buttons_are_flagged() {
    let mut clicks = ClickState::new();
    let shift = modifiers(true, false, false);
    let sent = clicks.mouse_events(MouseEvent::ButtonPressed(Button::Right), shift, None);
    assert!(matches!(
        sent[1],
        PageMouse::Click { modifiers, .. } if modifiers == 2 | 1 << 6
    ));
    let position = Point { x: 0, y: 0 };
    assert_eq!(
        clicks.mouse_events(MouseEvent::CursorMoved { position }, shift, None),
        vec![PageMouse::Move {
            leave: false,
            modifiers: 2 | 1 << 6
        }]
    );
    assert_eq!(
        clicks.mouse_events(MouseEvent::ButtonReleased(Button::Right), shift, None),
        vec![PageMouse::Click {
            button: MouseButtonType::Right,
            up: true,
            count: 1,
            modifiers: 2 | 1 << 6
        }]
    );
    assert_eq!(clicks.pressed_buttons, 0);
    assert_eq!(
        clicks.mouse_events(MouseEvent::CursorLeft, Modifiers::empty(), None),
        vec![PageMouse::Move {
            leave: true,
            modifiers: 0
        }]
    );
    let delta = ScrollDelta::Pixels { x: 1, y: 2 };
    assert_eq!(
        clicks.mouse_events(MouseEvent::WheelScrolled { delta }, shift, None),
        vec![PageMouse::Wheel { delta }]
    );
    assert!(clicks
        .mouse_events(MouseEvent::CursorEntered, shift, None)
        .is_empty());
    assert_eq!(
        clicks.mouse_events(MouseEvent::ButtonPressed(Button::Back), shift, None),
        vec![PageMouse::SetFocus]
    );
    assert!(clicks
        .mouse_events(MouseEvent::ButtonReleased(Button::Back), shift, None)
        .is_empty());
}

#[test]
fn a_release_without_a_press_counts_one() {
    let mut clicks = ClickState::new();
    assert_eq!(
        clicks.mouse_events(
            MouseEvent::ButtonReleased(Button::Left),
            Modifiers::empty(),
            None
        ),
        vec![PageMouse::Click {
            button: MouseButtonType::Left,
            up: true,
            count: 1,
            modifiers: 0
        }]
    );
}

fn strings(texts: &[&str]) -> Vec<String> {
    texts.iter().map(|t| t.to_string()).collect()
}

#[test]
fn filters_come_from_lists() {
    let filters = dialog_filters(
        &strings(&[".png; .jpg ;;", " ; ", "pdf"]),
        &strings(&["Images", "Nothing"]),
    );
    assert_eq!(filters.len(), 2);
    assert_eq!(filters[0].description, "Images");
    assert_eq!(filters[0].extensions, strings(&[".png", ".jpg"]));
    assert_eq!(filters[1].description, "");
    assert_eq!(filters[1].extensions, strings(&["pdf"]));
}

#[test]
fn entries_that_cannot_be_read_are_left_out() {
    let entries = vec![
        Some("a".to_owned()),
        None,
        Some(String::new()),
        Some("b".to_owned()),
    ];
    assert_eq!(usable_entries(&entries), strings(&["a", "b"]));
}

#[test]
fn the_picker_is_asked_for_what_the_page_wants() {
    assert_eq!(
        zenity_arguments(FileDialogMode::Open, "", "", &Vec::new()),
        strings(&["--file-selection"])
    );
    let filters = vec![
        FileFilter {
            description: "Images".to_owned(),
            extensions: strings(&[".png", "jpg", "..x"]),
        },
        FileFilter {
            description: "None".to_owned(),
            extensions: Vec::new(),
        },
        FileFilter {
            description: String::new(),
            extensions: strings(&["pdf"]),
        },
    ];
    assert_eq!(
        zenity_arguments(FileDialogMode::Save, "Save it", "/home/x", &filters),
        strings(&[
            "--file-selection",
            "--save",
            "--confirm-overwrite",
            "--title=Save it",
            "--filename=/home/x",
            "--file-filter=Images | *.png *.jpg *..x",
            "--file-filter=Accepted | *.pdf",
            "--file-filter=All files | *",
        ])
    );
    assert_eq!(
        zenity_arguments(FileDialogMode::OpenFolder, "", "", &Vec::new()),
        strings(&["--file-selection", "--directory"])
    );
    assert_eq!(
        zenity_arguments(FileDialogMode::OpenMultiple, "", "", &Vec::new()),
        strings(&["--file-selection", "--multiple", "--separator=\n"])
    );
}

#[test]
fn the_picker_answers_with_paths() {
    assert_eq!(
        picked_paths(true, "/a b/c\n\n/d\n"),
        Some(strings(&["/a b/c", "/d"]))
    );
    assert_eq!(picked_paths(true, "\n"), None);
    assert_eq!(picked_paths(true, ""), None);
    assert_eq!(picked_paths(false, "/a\n"), None);
}

#[test]
fn error_pages_escape_what_they_quote() {
    assert_eq!(html_escape("<a & \"b\">"), "&lt;a &amp; \"b\"&gt;");
    let body = "<html><body style=\"font-family:sans-serif;padding:2rem\">\
                <h2>Failed to load</h2><p>http://x/?a&amp;b</p>\
                <p style=\"color:#666\">ERR &lt;1&gt;</p></body></html>";
    assert_eq!(
        load_error_address("http://x/?a&b", "ERR <1>"),
        format!("data:text/html;charset=utf-8,{}", urlencoding::encode(body))
    );
}

#[test]
fn processes_are_started_with_switches() {
    let names = |disable, browser| -> Vec<String> {
        command_line_switches(disable, browser)
            .iter()
            .map(|s| match s.value {
                Some(v) => format!("{}={}", s.name, v),
                None => s.name.to_owned(),
            })
            .collect()
    };
    assert_eq!(
        names(false, false),
        strings(&["ozone-platform-hint=x11", "password-store=basic"])
    );
    assert_eq!(
        names(true, true),
        strings(&[
            "ozone-platform=headless",
            "disable-gpu",
            "in-process-gpu",
            "password-store=basic",
            "disable-gpu-compositing",
            "disable-gpu-shader-disk-cache",
            "enable-accelerated-2d-canvas",
            "enable-features=CanvasOopRasterization,UserAgentClientHints,GreaseUACH",
        ])
    );
    assert!(names(true, true).starts_with(&names(true, false)));
    assert!(disables_gpu(Some(" 1\n")));
    assert!(disables_gpu(Some("true")) && disables_gpu(Some("yes")));
    assert!(!disables_gpu(Some("0")) && !disables_gpu(Some("")) && !disables_gpu(None));
    assert!(is_browser_process(None) && is_browser_process(Some("")));
    assert!(!is_browser_process(Some("renderer")));
}

#[test]
fn places_and_messages_of_the_engine() {
    assert_eq!(
        cache_dir(Some("/cache"), Some("/home/x")),
        "/cache/iced_webview_cef"
    );
    assert_eq!(
        cache_dir(None, Some("/home/x")),
        "/home/x/.cache/iced_webview_cef"
    );
    assert_eq!(cache_dir(None, None), "/tmp/.cache/iced_webview_cef");
    assert_eq!(
        SINGLETON_FILES,
        ["SingletonLock", "SingletonSocket", "SingletonCookie"]
    );
    assert_eq!(init_error_message(1, "/cef", "/cache"), None);
    assert_eq!(
        init_error_message(-2, "/cef", "/cache").as_deref(),
        Some("CEF initialize() returned -2 (expected 1). cef_dir=/cef, cache=/cache")
    );
}

#[test]
fn the_library_path_is_extended_once() {
    assert_eq!(cef_lib_path("/cef", "").as_deref(), Some("/cef"));
    let path = cef_lib_path("/cef", "/usr/lib").unwrap();
    assert_eq!(path, "/cef:/usr/lib");
    assert_eq!(cef_lib_path("/cef", &path), None);
    assert_eq!(cef_lib_path("/cef", "/usr/lib:/cef"), None);
    assert_eq!(
        cef_lib_path("/cef", "/cef-old:/opt/cef").as_deref(),
        Some("/cef:/cef-old:/opt/cef")
    );
}

#[test]
fn helpers_are_told_from_the_browser() {
    assert!(!is_subprocess(None) && !is_subprocess(Some(false)) && is_subprocess(Some(true)));
    assert!(is_finished_subprocess(Some(true), 0));
    assert!(!is_finished_subprocess(Some(true), -1));
    assert!(!is_finished_subprocess(Some(false), 0));
    assert!(!is_finished_subprocess(None, 0));
}

const SIZE: Size = Size {
    width: 2,
    height: 1,
};

fn shared(block: bool) -> SharedState {
    SharedState::new(SIZE, 0, block, None)
}

#[test]
fn navigation_is_left_alone_unless_it_is_blocked() {
    let target = || Some("http://x/".to_owned());
    assert!(!shared(false).on_before_browse(Some(true), target()));
    let mut blocked = shared(true);
    assert!(!blocked.on_before_browse(Some(false), target()));
    assert!(!blocked.on_before_browse(Some(true), None));
    for inside in ["", "data:text/html,x", ABOUT_BLANK] {
        assert!(!blocked.on_before_browse(Some(true), Some(inside.to_owned())));
    }
    assert!(blocked.on_before_browse(Some(true), target()));
    assert!(blocked.on_before_browse(None, target()));
    assert!(blocked.on_before_browse(Some(true), Some("about:config".to_owned())));
    assert!(blocked.on_before_browse(Some(true), Some("date:".to_owned())));
}

#[test]
fn popups_are_loaded_here_or_handed_over() {
    let target = || Some("http://x/".to_owned());
    assert!(matches!(
        shared(false).on_before_popup(None, true),
        PopupAnswer::Nothing
    ));
    assert!(matches!(
        shared(false).on_before_popup(target(), true),
        PopupAnswer::LoadHere(u) if u == "http://x/"
    ));
    assert!(matches!(
        shared(false).on_before_popup(target(), false),
        PopupAnswer::HandedToHost
    ));
    assert!(matches!(
        shared(true).on_before_popup(target(), true),
        PopupAnswer::HandedToHost
    ));
}

/// An engine that runs, with views of these ids.
fn running(ids: &[usize]) -> Cef<usize> {
    let mut cef = Cef::default();
    assert!(cef.needs_initialization());
    cef.initialization_done(true, None);
    assert!(!cef.needs_initialization());
    for id in ids {
        assert!(cef.open_view(*id, SIZE).is_some());
        cef.view_opened(Some(100 + *id));
    }
    cef
}

#[test]
fn an_engine_that_does_not_run_opens_nothing() {
    let mut cef: Cef<usize> = Cef::default();
    assert_eq!(cef.open_view(1, SIZE), None);
    assert!(!cef.has_view(1));
    cef.initialization_done(false, Some("broken".to_owned()));
    assert!(!cef.needs_initialization());
    assert!(!cef.is_initialized());
    assert_eq!(cef.initialization_error().map(|e| e.as_str()), Some("broken"));
}

#[test]
fn views_are_opened_and_closed() {
    let mut cef = running(&[1, 2]);
    assert_eq!(cef.view_ids(), vec![1, 2]);
    assert_eq!(cef.browser(1), Some(&101));
    assert_eq!(cef.browser(3), None);
    assert_eq!(cef.focus_target(), Some(&102));
    assert_eq!(cef.remove_view(2), Some(102));
    assert_eq!(cef.remove_view(2), None);
    assert!(!cef.has_view(2));
    assert_eq!(cef.focus_target(), Some(&101));
    let (id, settings) = cef.new_view(Size {
        width: 0,
        height: 0,
    });
    assert_eq!(
        settings,
        Some(BrowserSettings {
            size: Size {
                width: 1,
                height: 1
            },
            frame_rate: 60,
            background_color: None
        })
    );
    assert!(cef.has_view(id));
    cef.view_opened(None);
    assert_eq!(cef.view_ids(), vec![1]);
    assert_eq!(cef.close_all(), vec![Some(101)]);
    assert!(cef.view_ids().is_empty());
    assert_eq!(cef.focus_target(), None);
}

#[test]
fn new_views_take_over_the_settings() {
    let mut cef = running(&[]);
    cef.set_background_color(0xff00_0000);
    cef.set_user_agent(Some("agent".to_owned()));
    cef.set_block_navigation(true);
    assert!(cef.set_scale_factor(7, false));
    assert_eq!(cef.open_view(1, SIZE).unwrap().background_color, Some(0xff00_0000));
    let state = cef.shared_mut(1).unwrap();
    assert_eq!(state.user_agent().map(|t| t.as_str()), Some("agent"));
    assert_eq!(state.scale_factor(), 7);
    assert_eq!(state.size(), SIZE);
    assert!(state.on_before_browse(Some(true), Some("http://x/".to_owned())));
    assert_eq!(cef.take_popup_url(1).as_deref(), Some("http://x/"));
    assert_eq!(cef.take_popup_url(1), None);
}

#[test]
fn settings_reach_open_views() {
    let mut cef = running(&[1]);
    assert!(!cef.set_scale_factor(9, true));
    assert!(cef.set_scale_factor(8, false));
    assert_eq!(cef.scale_factor(), 8);
    cef.resize(Size {
        width: 0,
        height: 6,
    });
    cef.set_block_navigation(true);
    let state = cef.shared_mut(1).unwrap();
    assert_eq!(state.scale_factor(), 8);
    assert_eq!(
        state.size(),
        Size {
            width: 1,
            height: 6
        }
    );
    assert!(state.on_before_browse(Some(true), Some("http://x/".to_owned())));
    cef.set_block_navigation(false);
    let state = cef.shared_mut(1).unwrap();
    assert!(!state.on_before_browse(Some(true), Some("http://x/".to_owned())));
}

#[test]
fn a_tick_takes_what_was_reported() {
    let mut cef = running(&[1]);
    assert_eq!(cef.get_url(1), "about:blank");
    assert_eq!(cef.get_title(1), "");
    assert!(matches!(
        cef.get_view(1),
        Some(FrameImage::Blank {
            width: 2,
            height: 1
        })
    ));
    let state = cef.shared_mut(1).unwrap();
    state.on_address_change(Some("http://x/".to_owned()));
    state.on_address_change(None);
    state.on_title_change(Some("X".to_owned()));
    state.on_cursor_change(CursorType::Hand);
    state.on_paint(&[1, 2, 3, 4, 5, 6, 7, 8], None, 2, 1);
    let right = [Rect {
        x: 1,
        y: 0,
        width: 1,
        height: 1,
    }];
    state.on_paint(&[9; 8], Some(&right), 2, 1);
    assert_eq!(cef.get_url(1), "about:blank");
    cef.update();
    assert_eq!(cef.get_url(1), "http://x/");
    assert_eq!(cef.get_title(1), "X");
    assert_eq!(cef.get_cursor(1), Interaction::Pointer);
    assert!(matches!(
        cef.get_view(1),
        Some(FrameImage::Pixels { pixels, format: PixelFormat::Bgra, width: 2, height: 1 })
            if pixels[..] == [1, 2, 3, 4, 9, 9, 9, 9]
    ));
    assert_eq!(cef.get_url(2), "about:blank");
    assert_eq!(cef.get_title(2), "");
    assert_eq!(cef.get_cursor(2), Interaction::Idle);
    assert!(cef.get_view(2).is_none());
    assert!(cef.shared_mut(2).is_none());
}

#[test]
fn loading_and_console_are_reported_once() {
    let mut cef = running(&[1]);
    let state = cef.shared_mut(1).unwrap();
    state.on_loading_state_change(true);
    assert!(!cef.take_page_loaded(1));
    let state = cef.shared_mut(1).unwrap();
    state.on_loading_state_change(false);
    state.on_console_message(3, Some("hi".to_owned()), None, 12);
    assert!(cef.take_page_loaded(1));
    assert!(!cef.take_page_loaded(1));
    let messages = cef.take_console_messages(1);
    assert_eq!(messages.len(), 1);
    assert_eq!(messages[0].level, 3);
    assert_eq!(messages[0].message, "hi");
    assert_eq!(messages[0].source, "");
    assert_eq!(messages[0].line, 12);
    assert!(cef.take_console_messages(1).is_empty());
    assert!(cef.take_console_messages(2).is_empty());
    assert!(!cef.take_page_loaded(2));
    assert_eq!(cef.take_popup_url(2), None);
}

#[test]
fn a_view_is_sent_to_a_page() {
    let mut cef = running(&[1]);
    let page = || PageType::Url("http://x/".to_owned());
    assert_eq!(cef.goto(1, page(), false), None);
    assert_eq!(cef.get_url(1), "about:blank");
    assert_eq!(cef.goto(1, page(), true).as_deref(), Some("http://x/"));
    assert_eq!(cef.get_url(1), "http://x/");
    assert_eq!(
        cef.goto(1, PageType::Html("<p>".to_owned()), true)
            .as_deref(),
        Some("data:text/html;charset=utf-8,%3Cp%3E")
    );
    assert_eq!(cef.get_url(1), "http://x/");
    assert_eq!(cef.goto(2, page(), true), None);
}

#[test]
fn a_parked_view_keeps_its_frame() {
    let mut cef = running(&[1, 2]);
    cef.shared_mut(1)
        .unwrap()
        .on_paint(&[5; 8], None, 2, 1);
    cef.update();
    assert_eq!(cef.suspend_view(1), Some(101));
    assert_eq!(cef.suspend_view(1), None);
    assert!(cef.has_view(1));
    assert_eq!(cef.view_ids(), vec![2]);
    let shows_frame = |cef: &Cef<usize>| {
        matches!(
            cef.get_view(1),
            Some(FrameImage::Pixels { pixels, .. }) if pixels[..] == [5; 8]
        )
    };
    assert!(shows_frame(&cef));
    assert!(cef.resume_view(1, SIZE).is_some());
    cef.view_opened(Some(201));
    assert_eq!(cef.browser(1), Some(&201));
    assert!(shows_frame(&cef));
    assert_eq!(cef.view_ids(), vec![2, 1]);
    assert!(cef.resume_view(3, SIZE).is_some());
    cef.view_opened(None);
    assert!(!cef.has_view(3));
}

#[test]
fn input_goes_to_the_view_it_is_for() {
    let mut cef = running(&[1, 2]);
    let key = pressed(character("a"), Code::KeyA, None);
    assert_eq!(cef.handle_keyboard_event(1, &key).len(), 2);
    assert!(cef.handle_keyboard_event(3, &key).is_empty());
    let soon = Some(SinceClick {
        millis: 0,
        near: true,
    });
    let mut click = |id: usize, since| {
        let event = MouseEvent::ButtonPressed(Button::Left);
        match cef.handle_mouse_event(id, event, Modifiers::empty(), since)[..] {
            [_, PageMouse::Click { count, .. }] => Some(count),
            _ => None,
        }
    };
    assert_eq!(click(1, None), Some(1));
    assert_eq!(click(1, soon), Some(2));
    assert_eq!(click(2, None), Some(1));
    assert_eq!(click(1, soon), Some(3));
    assert_eq!(click(3, None), None);
    let right = MouseEvent::ButtonPressed(Button::Right);
    let sent = cef.handle_mouse_event(1, right, Modifiers::empty(), soon);
    assert!(matches!(sent[1], PageMouse::Click { count: 1, .. }));
}

#[test]
fn no_punctuation_has_the_code_of_a_key() {
    let keys = [
        Named::Enter,
        Named::Tab,
        Named::Space,
        Named::Backspace,
        Named::Delete,
        Named::Escape,
        Named::Insert,
        Named::Home,
        Named::End,
        Named::PageUp,
        Named::PageDown,
        Named::ArrowUp,
        Named::ArrowDown,
        Named::ArrowLeft,
        Named::ArrowRight,
        Named::F1,
        Named::F12,
        Named::Shift,
        Named::Control,
        Named::Alt,
        Named::Super,
        Named::CapsLock,
    ];
    for c in '!'..='~' {
        let code = iced_key_to_cef(&character(&c.to_string())).unwrap();
        assert_eq!(code.1, c as u16);
        for key in keys {
            let other = iced_key_to_cef(&Key::Named(key)).unwrap();
            assert_ne!(code.0, other.0, "{c} and {key:?}");
        }
    }
}
