//! Text, held against the standard library.

use iced_webview::text::{i32_text, is_whitespace, lines_of, split_text, str_eq, trim, u64_text};

#[test]
fn white_space_agrees_with_std() {
    for n in 0..=0x10_ffff_u32 {
        if let Some(c) = char::from_u32(n) {
            assert_eq!(is_whitespace(c), c.is_whitespace(), "{n:#x}");
        }
    }
}

#[test]
fn trimming_agrees_with_std() {
    for t in [
        "", " ", "a", " a", "a ", "  a b  ", "\t\n a\u{a0}", "\u{3000}x\u{2028}", "\u{200b}a",
    ] {
        assert_eq!(trim(t), t.trim(), "{t:?}");
    }
}

#[test]
fn splitting_agrees_with_std() {
    for t in ["", ";", "a", "a;b", ";a;", "a;;b", "ä;ö"] {
        let theirs: Vec<&str> = t.split(';').collect();
        assert_eq!(split_text(t, ';'), theirs, "{t:?}");
    }
}

#[test]
fn numbers_agree_with_std() {
    for n in [0, 1, 9, 10, 99, 100, 12345, u64::MAX] {
        assert_eq!(u64_text(n), n.to_string());
    }
    for n in [0, -1, 1, 42, -100, i32::MAX, i32::MIN] {
        assert_eq!(i32_text(n), n.to_string());
    }
}

#[test]
fn nonempty_lines_agree_with_std() {
    for t in [
        "",
        "\n",
        "a",
        "a\n",
        "a\nb",
        "a\r\nb\r\n",
        "\r\n",
        "a\r",
        "\r",
        "a\r\r\n",
        "\n\na\n\n",
        "/home/a b/c\n/tmp/x\n",
    ] {
        let theirs: Vec<&str> = t.lines().filter(|l| !l.is_empty()).collect();
        assert_eq!(lines_of(t), theirs, "{t:?}");
    }
}

#[test]
fn texts_are_compared_by_content() {
    assert!(str_eq("abc", "abc"));
    assert!(!str_eq("abc", "abd"));
    assert!(!str_eq("abc", "ab"));
}
