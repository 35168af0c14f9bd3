//! Escaping, and the addresses of pages and resources.

use iced_webview::data_url::html_data_url;
use iced_webview::util::{
    failed_fetch_page, html_escape, is_same_page, parse_url, pick_resolution, resolve_url,
};

#[test]
fn escaping_replaces_what_html_gives_a_meaning() {
    assert_eq!(
        html_escape("<a href=\"x\">&amp;</a>"),
        "&lt;a href=&quot;x&quot;&gt;&amp;amp;&lt;/a&gt;"
    );
    for t in ["", "plain", "a & b", "\"<>&\"", "ä€"] {
        let in_turn = t
            .replace('&', "&amp;")
            .replace('<', "&lt;")
            .replace('>', "&gt;")
            .replace('"', "&quot;");
        assert_eq!(html_escape(t), in_turn);
    }
}

#[test]
fn escaped_text_cannot_open_a_tag() {
    let escaped = html_escape("<script>\"x\"</script>");
    assert!(!escaped.contains('<') && !escaped.contains('>') && !escaped.contains('"'));
}

#[test]
fn a_failed_fetch_has_a_page() {
    assert_eq!(
        failed_fetch_page("http://x/?a&b", "no <route>"),
        "<html><body><h1>Failed to load</h1><p>http://x/?a&amp;b</p>\
         <p>no &lt;route&gt;</p></body></html>"
    );
}

#[test]
fn an_absolute_source_is_what_it_says() {
    let url = resolve_url("https://a.org/x.png", "http://base/", "http://page/").unwrap();
    assert_eq!(url.text, "https://a.org/x.png");
    assert_eq!(url.scheme, "https");
}

#[test]
fn a_relative_source_prefers_the_base() {
    let url = resolve_url("x.png", "http://base/css/a.css", "http://page/p.html").unwrap();
    assert_eq!(url.text, "http://base/css/x.png");
}

#[test]
fn a_relative_source_falls_back_to_the_page() {
    let url = resolve_url("x.png", "", "http://page/dir/p.html").unwrap();
    assert_eq!(url.text, "http://page/dir/x.png");
    let url = resolve_url("x.png", "not a url", "http://page/dir/p.html").unwrap();
    assert_eq!(url.text, "http://page/dir/x.png");
}

#[test]
fn a_source_without_any_base_is_an_error() {
    assert!(resolve_url("x.png", "", "about:blank").is_err());
    assert_eq!(
        resolve_url("x.png", "", "").unwrap_err(),
        url::ParseError::RelativeUrlWithoutBase
    );
}

#[test]
fn the_first_resolution_that_succeeds_is_picked() {
    let ok = |t: &str| parse_url(t);
    let err = || parse_url("x");
    let text = |r: Result<iced_webview::util::PageUrl, url::ParseError>| r.map(|u| u.text);
    assert_eq!(
        text(pick_resolution(ok("http://a/"), Some(ok("http://b/")), ok("http://c/"))),
        Ok("http://a/".to_owned())
    );
    assert_eq!(
        text(pick_resolution(err(), Some(ok("http://b/")), ok("http://c/"))),
        Ok("http://b/".to_owned())
    );
    assert_eq!(
        text(pick_resolution(err(), Some(err()), ok("http://c/"))),
        Ok("http://c/".to_owned())
    );
    assert_eq!(
        text(pick_resolution(err(), None, err())),
        Err(url::ParseError::RelativeUrlWithoutBase)
    );
}

#[test]
fn an_address_is_taken_apart() {
    let url = parse_url("HTTP://User@Example.org:8080/a/../b?q=1#frag").unwrap();
    assert_eq!(url.text, "http://User@example.org:8080/b?q=1#frag");
    assert_eq!(url.scheme, "http");
    assert_eq!(url.host.as_deref(), Some("example.org"));
    assert_eq!(url.port, Some(8080));
    assert_eq!(url.path, "/b");
    assert_eq!(url.query.as_deref(), Some("q=1"));
    assert_eq!(url.fragment.as_deref(), Some("frag"));
}

#[test]
fn only_the_fragment_may_differ_within_a_page() {
    let page = parse_url("http://x.org/a?b#c").unwrap();
    for (other, same) in [
        ("http://x.org/a?b#c", true),
        ("http://x.org/a?b#d", true),
        ("http://x.org/a?b", true),
        ("http://x.org:80/a?b", true),
        ("https://x.org/a?b", false),
        ("http://y.org/a?b", false),
        ("http://x.org:81/a?b", false),
        ("http://x.org/b?b", false),
        ("http://x.org/a?c", false),
        ("http://x.org/a", false),
    ] {
        let other = parse_url(other).unwrap();
        assert_eq!(is_same_page(&page, &other), same, "{other:?}");
        assert_eq!(is_same_page(&other, &page), same, "{other:?}");
    }
}

#[test]
fn a_page_given_as_html_has_an_address() {
    assert_eq!(
        html_data_url("<p class=a>ä-_.~ 1</p>"),
        "data:text/html;charset=utf-8,%3Cp%20class%3Da%3E%C3%A4-_.~%201%3C%2Fp%3E"
    );
    assert_eq!(html_data_url(""), "data:text/html;charset=utf-8,");
}

#[test]
fn addresses_of_different_pages_differ() {
    let pages = ["", "a", "%61", "A", "<p>", "%3Cp%3E", "ä", "Ã¤"];
    for a in pages {
        for b in pages {
            assert_eq!(html_data_url(a) == html_data_url(b), a == b);
        }
    }
}
