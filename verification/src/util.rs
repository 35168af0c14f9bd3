//! Escaping, and the addresses of pages and resources.

use vstd::prelude::*;
use vstd::string::*;

verus! {

/// What stands for a character in the text of an HTML page.
pub open spec fn escaped_char(c: char) -> Seq<char> {
    if c == '&' {
        "&amp;"@
    } else if c == '<' {
        "&lt;"@
    } else if c == '>' {
        "&gt;"@
    } else if c == '"' {
        "&quot;"@
    } else {
        seq![c]
    }
}

/// A text with the characters replaced that HTML gives a meaning.
pub open spec fn html_escaped(text: Seq<char>) -> Seq<char>
    decreases text.len(),
{
    if text.len() == 0 {
        Seq::empty()
    } else {
        html_escaped(text.drop_last()) + escaped_char(text.last())
    }
}

/// Minimal HTML escaping for error pages.
pub fn html_escape(s: &str) -> (escaped: String)
    ensures
        escaped@ == html_escaped(s@),
{
    let mut escaped: String = String::new();
    proof {
        assert(s@.take(0) =~= Seq::empty());
    }
    for c in iter: s.chars()
        invariant
            iter.seq() == s@,
            escaped@ == html_escaped(s@.take(iter.index())),
    {
        proof {
            let k = iter.index();
            assert(s@.take(k + 1).drop_last() =~= s@.take(k));
            assert(s@.take(k + 1).last() == c);
            assert(escaped@.push(c) =~= escaped@ + seq![c]);
        }
        if c == '&' {
            escaped.append("&amp;");
        } else if c == '<' {
            escaped.append("&lt;");
        } else if c == '>' {
            escaped.append("&gt;");
        } else if c == '"' {
            escaped.append("&quot;");
        } else {
            escaped.push(c);
        }
    }
    assert(s@.take(s@.len() as int) =~= s@);
    escaped
}

/// Every occurrence of `c` in a text replaced by `by`.
pub open spec fn replaced(text: Seq<char>, c: char, by: Seq<char>) -> Seq<char>
    decreases text.len(),
{
    if text.len() == 0 {
        Seq::empty()
    } else {
        replaced(text.drop_last(), c, by) + (if text.last() == c {
            by
        } else {
            seq![text.last()]
        })
    }
}

proof fn lemma_replaced_concat(a: Seq<char>, b: Seq<char>, c: char, by: Seq<char>)
    ensures
        replaced(a + b, c, by) == replaced(a, c, by) + replaced(b, c, by),
    decreases b.len(),
{
    if b.len() == 0 {
        assert(a + b =~= a);
        assert(replaced(a, c, by) + replaced(b, c, by) =~= replaced(a, c, by));
    } else {
        lemma_replaced_concat(a, b.drop_last(), c, by);
        assert((a + b).drop_last() =~= a + b.drop_last());
        assert((a + b).last() == b.last());
        assert(replaced(a + b, c, by) =~= replaced(a, c, by) + replaced(b, c, by));
    }
}

proof fn lemma_replaced_absent(text: Seq<char>, c: char, by: Seq<char>)
    requires
        !text.contains(c),
    ensures
        replaced(text, c, by) == text,
    decreases text.len(),
{
    if text.len() > 0 {
        let start = text.drop_last();
        assert forall|k: int| 0 <= k < start.len() implies start[k] != c by {
            assert(text[k] == start[k]);
        }
        assert(text[text.len() - 1] == text.last());
        lemma_replaced_absent(start, c, by);
        assert(start + seq![text.last()] =~= text);
    }
}

proof fn lemma_replaced_single(d: char, c: char, by: Seq<char>)
    ensures
        replaced(seq![d], c, by) == if d == c {
            by
        } else {
            seq![d]
        },
{
    assert(seq![d].drop_last() =~= Seq::empty());
    assert(seq![d].last() == d);
    assert(replaced(Seq::<char>::empty(), c, by) == Seq::<char>::empty());
    assert(Seq::<char>::empty() + by =~= by);
    assert(Seq::<char>::empty() + seq![d] =~= seq![d]);
}

/// The four replacements one after the other.
pub open spec fn replaced_in_turn(text: Seq<char>) -> Seq<char> {
    replaced(
        replaced(
            replaced(replaced(text, '&', "&amp;"@), '<', "&lt;"@),
            '>',
            "&gt;"@,
        ),
        '"',
        "&quot;"@,
    )
}

proof fn lemma_entities_plain()
    ensures
        !"&amp;"@.contains('<') && !"&amp;"@.contains('>') && !"&amp;"@.contains('"'),
        !"&lt;"@.contains('<') && !"&lt;"@.contains('>') && !"&lt;"@.contains('"'),
        !"&gt;"@.contains('<') && !"&gt;"@.contains('>') && !"&gt;"@.contains('"'),
        !"&quot;"@.contains('<') && !"&quot;"@.contains('>') && !"&quot;"@.contains('"'),
{
    reveal_strlit("&amp;");
    reveal_strlit("&lt;");
    reveal_strlit("&gt;");
    reveal_strlit("&quot;");
}

/// Escaping is replacing `&`, then `<`, then `>`, then `"`: no replacement
/// touches what an earlier one has put in.
pub proof fn law_escape_is_replacing_in_turn(text: Seq<char>)
    ensures
        html_escaped(text) == replaced_in_turn(text),
    decreases text.len(),
{
    lemma_entities_plain();
    let amp = "&amp;"@;
    let lt = "&lt;"@;
    let gt = "&gt;"@;
    let quot = "&quot;"@;
    if text.len() == 0 {
        assert(text =~= Seq::empty());
    } else {
        let start = text.drop_last();
        let last = text.last();
        law_escape_is_replacing_in_turn(start);
        assert(text =~= start + seq![last]);
        lemma_replaced_concat(start, seq![last], '&', amp);
        let a = replaced(start, '&', amp);
        let x = replaced(seq![last], '&', amp);
        lemma_replaced_concat(a, x, '<', lt);
        let b = replaced(a, '<', lt);
        let y = replaced(x, '<', lt);
        lemma_replaced_concat(b, y, '>', gt);
        let c = replaced(b, '>', gt);
        let z = replaced(y, '>', gt);
        lemma_replaced_concat(c, z, '"', quot);
        lemma_replaced_single(last, '&', amp);
        lemma_replaced_single(last, '<', lt);
        lemma_replaced_single(last, '>', gt);
        lemma_replaced_single(last, '"', quot);
        if last == '&' {
            lemma_replaced_absent(amp, '<', lt);
            lemma_replaced_absent(amp, '>', gt);
            lemma_replaced_absent(amp, '"', quot);
        } else if last == '<' {
            lemma_replaced_absent(lt, '>', gt);
            lemma_replaced_absent(lt, '"', quot);
        } else if last == '>' {
            lemma_replaced_absent(gt, '"', quot);
        }
    }
}

/// Escaped text holds no character that could open or close a tag or an
/// attribute value.
pub proof fn law_escaped_text_is_inert(text: Seq<char>)
    ensures
        !html_escaped(text).contains('<'),
        !html_escaped(text).contains('>'),
        !html_escaped(text).contains('"'),
    decreases text.len(),
{
    if text.len() > 0 {
        law_escaped_text_is_inert(text.drop_last());
        lemma_entities_plain();
        let before = html_escaped(text.drop_last());
        let last = escaped_char(text.last());
        let all = html_escaped(text);
        assert(all == before + last);
        assert forall|k: int| 0 <= k < all.len() implies all[k] != '<' && all[k] != '>' && all[k]
            != '"' by {
            if k < before.len() {
                assert(before.contains(before[k]));
            } else {
                assert(last[k - before.len()] == all[k]);
                assert(last.contains(last[k - before.len()]));
            }
        }
    }
}

/// The page shown in place of one that could not be fetched.
pub open spec fn fetch_error_page(url: Seq<char>, error: Seq<char>) -> Seq<char> {
    "<html><body><h1>Failed to load</h1><p>"@ + html_escaped(url) + "</p><p>"@ + html_escaped(error)
        + "</p></body></html>"@
}

/// The page shown in place of one that could not be fetched.
pub fn failed_fetch_page(url: &str, error: &str) -> (page: String)
    ensures
        page@ == fetch_error_page(url@, error@),
{
    let mut page: String = "<html><body><h1>Failed to load</h1><p>".to_owned();
    page.append(html_escape(url).as_str());
    page.append("</p><p>");
    page.append(html_escape(error).as_str());
    page.append("</p></body></html>");
    page
}

/// Why an address could not be parsed.
#[verifier::external_type_specification]
#[verifier::external_body]
pub struct ExParseError(url::ParseError);

/// The parts of an absolute address.
#[derive(Debug, PartialEq)]
pub struct PageUrl {
    /// The whole address, in its normal form.
    pub text: String,
    /// The scheme, in lower case.
    pub scheme: String,
    /// The host, where the address has one.
    pub host: Option<String>,
    /// The port, where it is not the default of the scheme.
    pub port: Option<u16>,
    pub path: String,
    /// What follows the `?`.
    pub query: Option<String>,
    /// What follows the `#`.
    pub fragment: Option<String>,
}

fn copy_text(text: &Option<String>) -> (copy: Option<String>)
    ensures
        copy == *text,
{
    match text {
        Some(t) => Some(t.clone()),
        None => None,
    }
}

impl Clone for PageUrl {
    fn clone(&self) -> (copy: PageUrl)
        ensures
            copy == *self,
    {
        PageUrl {
            text: self.text.clone(),
            scheme: self.scheme.clone(),
            host: copy_text(&self.host),
            port: self.port,
            path: self.path.clone(),
            query: copy_text(&self.query),
            fragment: copy_text(&self.fragment),
        }
    }
}

/// The parts of an absolute address, as texts.
pub struct UrlView {
    pub text: Seq<char>,
    pub scheme: Seq<char>,
    pub host: Option<Seq<char>>,
    pub port: Option<u16>,
    pub path: Seq<char>,
    pub query: Option<Seq<char>>,
    pub fragment: Option<Seq<char>>,
}

/// The characters of an optional string.
pub open spec fn opt_text(text: Option<String>) -> Option<Seq<char>> {
    match text {
        Some(t) => Some(t@),
        None => None,
    }
}

impl View for PageUrl {
    type V = UrlView;

    open spec fn view(&self) -> UrlView {
        UrlView {
            text: self.text@,
            scheme: self.scheme@,
            host: opt_text(self.host),
            port: self.port,
            path: self.path@,
            query: opt_text(self.query),
            fragment: opt_text(self.fragment),
        }
    }
}

/// The parts an address was found to have, or why it has none.
pub open spec fn url_result(result: Result<PageUrl, url::ParseError>) -> Result<
    UrlView,
    url::ParseError,
> {
    match result {
        Ok(url) => Ok(url@),
        Err(error) => Err(error),
    }
}

/// What `url::Url::parse` makes of a text.
pub uninterp spec fn url_parsed(text: Seq<char>) -> Result<UrlView, url::ParseError>;

/// What `url::Url::join` makes of a text, against a base given as a text.
pub uninterp spec fn url_joined(base: Seq<char>, text: Seq<char>) -> Result<UrlView, url::ParseError>;

/// Calls `url::Url::parse`, the parser of the URL Standard. Its result depends
/// on the text alone and has the name [`url_parsed`]; the parts are read off
/// the parsed address by its own accessors.
#[verifier::external_body]
fn parse_absolute(text: &str) -> (result: Result<PageUrl, url::ParseError>)
    ensures
        url_result(result) == url_parsed(text@),
{
    url::Url::parse(text).map(|u| PageUrl {
        text: u.as_str().to_owned(),
        scheme: u.scheme().to_owned(),
        host: u.host_str().map(|h| h.to_owned()),
        port: u.port(),
        path: u.path().to_owned(),
        query: u.query().map(|q| q.to_owned()),
        fragment: u.fragment().map(|f| f.to_owned()),
    })
}

/// Calls `url::Url::join` on the base that `url::Url::parse` gives. The result
/// depends on the two texts alone and has the name [`url_joined`]; a base that
/// does not parse yields the error of parsing it.
#[verifier::external_body]
fn join_relative(base: &str, text: &str) -> (result: Result<PageUrl, url::ParseError>)
    ensures
        url_result(result) == url_joined(base@, text@),
        url_parsed(base@) is Err ==> url_result(result) == url_parsed(base@),
{
    url::Url::parse(base).and_then(|b| b.join(text)).map(|u| PageUrl {
        text: u.as_str().to_owned(),
        scheme: u.scheme().to_owned(),
        host: u.host_str().map(|h| h.to_owned()),
        port: u.port(),
        path: u.path().to_owned(),
        query: u.query().map(|q| q.to_owned()),
        fragment: u.fragment().map(|f| f.to_owned()),
    })
}

/// An absolute address taken apart.
pub fn parse_url(text: &str) -> (result: Result<PageUrl, url::ParseError>)
    ensures
        url_result(result) == url_parsed(text@),
{
    parse_absolute(text)
}

/// The first of three attempts to resolve an address that succeeded, or the
/// failure of the last one.
pub open spec fn first_success(
    own: Result<UrlView, url::ParseError>,
    by_base: Option<Result<UrlView, url::ParseError>>,
    by_page: Result<UrlView, url::ParseError>,
) -> Result<UrlView, url::ParseError> {
    if own is Ok {
        own
    } else if by_base matches Some(Ok(_)) {
        by_base->0
    } else {
        by_page
    }
}

/// The parts the optional attempt was found to have.
pub open spec fn opt_url_result(result: Option<Result<PageUrl, url::ParseError>>) -> Option<
    Result<UrlView, url::ParseError>,
> {
    match result {
        Some(r) => Some(url_result(r)),
        None => None,
    }
}

/// Pick between an address read on its own, against the base of what names it
/// and against the page: the first that could be resolved.
pub fn pick_resolution(
    own: Result<PageUrl, url::ParseError>,
    by_base: Option<Result<PageUrl, url::ParseError>>,
    by_page: Result<PageUrl, url::ParseError>,
) -> (result: Result<PageUrl, url::ParseError>)
    ensures
        url_result(result) == first_success(
            url_result(own),
            opt_url_result(by_base),
            url_result(by_page),
        ),
{
    match own {
        Ok(url) => Ok(url),
        Err(_) => match by_base {
            Some(Ok(url)) => Ok(url),
            _ => by_page,
        },
    }
}

/// The address a resource has, given the text that names it, the address of
/// what names it (a style sheet, say) and the address of the page.
pub open spec fn resolved_url(src: Seq<char>, baseurl: Seq<char>, page_url: Seq<char>) -> Result<
    UrlView,
    url::ParseError,
> {
    first_success(
        url_parsed(src),
        if baseurl.len() > 0 {
            Some(url_joined(baseurl, src))
        } else {
            None
        },
        url_joined(page_url, src),
    )
}

/// Resolve a resource address (an image, a style sheet): on its own where it
/// is absolute, else against `baseurl`, else against `page_url`.
pub fn resolve_url(src: &str, baseurl: &str, page_url: &str) -> (result: Result<
    PageUrl,
    url::ParseError,
>)
    ensures
        url_result(result) == resolved_url(src@, baseurl@, page_url@),
{
    let by_base: Option<Result<PageUrl, url::ParseError>> = if baseurl.is_empty() {
        None
    } else {
        Some(join_relative(baseurl, src))
    };
    pick_resolution(parse_absolute(src), by_base, join_relative(page_url, src))
}

/// Whether two addresses are those of one page: all parts but the fragment
/// agree.
pub open spec fn same_page(a: UrlView, b: UrlView) -> bool {
    &&& a.scheme == b.scheme
    &&& a.host == b.host
    &&& a.port == b.port
    &&& a.path == b.path
    &&& a.query == b.query
}

/// Whether two optional strings are the same.
pub fn opt_text_eq(a: &Option<String>, b: &Option<String>) -> (same: bool)
    ensures
        same == (opt_text(*a) == opt_text(*b)),
{
    match (a, b) {
        (Some(x), Some(y)) => *x == *y,
        (None, None) => true,
        _ => false,
    }
}

/// Check if two addresses refer to the same page, ignoring the fragment.
pub fn is_same_page(a: &PageUrl, b: &PageUrl) -> (same: bool)
    ensures
        same == same_page(a@, b@),
{
    let same_port: bool = match (a.port, b.port) {
        (Some(x), Some(y)) => x == y,
        (None, None) => true,
        _ => false,
    };
    a.scheme == b.scheme && opt_text_eq(&a.host, &b.host) && same_port && a.path == b.path
        && opt_text_eq(&a.query, &b.query)
}

/// Being the same page is an equivalence, and a fragment never matters to it.
pub proof fn law_same_page_is_equivalence(a: UrlView, b: UrlView, c: UrlView)
    ensures
        same_page(a, a),
        same_page(a, b) ==> same_page(b, a),
        same_page(a, b) && same_page(b, c) ==> same_page(a, c),
        same_page(a, UrlView { fragment: b.fragment, text: b.text, ..a }),
{
}

/// An absolute source is what it says, whatever the page and its style sheets.
pub proof fn law_absolute_source_wins(
    src: Seq<char>,
    baseurl: Seq<char>,
    page_url: Seq<char>,
    other_base: Seq<char>,
    other_page: Seq<char>,
)
    requires
        url_parsed(src) is Ok,
    ensures
        resolved_url(src, baseurl, page_url) == url_parsed(src),
        resolved_url(src, baseurl, page_url) == resolved_url(src, other_base, other_page),
{
}

/// The four characters that matter to HTML are replaced by their names and all
/// others stay; texts are escaped character by character.
pub proof fn law_escaping_is_by_character(c: char, a: Seq<char>, b: Seq<char>)
    ensures
        html_escaped(seq!['&']) == "&amp;"@,
        html_escaped(seq!['<']) == "&lt;"@,
        html_escaped(seq!['>']) == "&gt;"@,
        html_escaped(seq!['"']) == "&quot;"@,
        c != '&' && c != '<' && c != '>' && c != '"' ==> html_escaped(seq![c]) == seq![c],
        html_escaped(a + b) == html_escaped(a) + html_escaped(b),
    decreases b.len(),
{
    lemma_escaped_one('&');
    lemma_escaped_one('<');
    lemma_escaped_one('>');
    lemma_escaped_one('"');
    lemma_escaped_one(c);
    if b.len() == 0 {
        assert(a + b =~= a);
        assert(html_escaped(a) + html_escaped(b) =~= html_escaped(a));
    } else {
        law_escaping_is_by_character(c, a, b.drop_last());
        assert((a + b).drop_last() =~= a + b.drop_last());
        assert((a + b).last() == b.last());
        assert(html_escaped(a + b) =~= html_escaped(a) + html_escaped(b));
    }
}

proof fn lemma_escaped_one(c: char)
    ensures
        html_escaped(seq![c]) == escaped_char(c),
{
    reveal_with_fuel(html_escaped, 2);
    assert(seq![c].drop_last() =~= Seq::empty());
    assert(html_escaped(seq![c]) =~= escaped_char(c));
}

/// The page for a failed fetch names the address and the error between tags of
/// its own, and nothing in them can end or open one.
pub proof fn law_error_page_names_both(url: Seq<char>, error: Seq<char>)
    ensures
        fetch_error_page(url, error) == "<html><body><h1>Failed to load</h1><p>"@ + html_escaped(
            url,
        ) + "</p><p>"@ + html_escaped(error) + "</p></body></html>"@,
        !html_escaped(url).contains('<') && !html_escaped(error).contains('<'),
{
    law_escaped_text_is_inert(url);
    law_escaped_text_is_inert(error);
}

/// Two addresses are those of one page exactly if their schemes, hosts, ports,
/// paths and queries all agree.
pub proof fn law_one_page_has_five_parts(a: UrlView, b: UrlView)
    ensures
        same_page(a, b) <==> a.scheme == b.scheme && a.host == b.host && a.port == b.port && a.path
            == b.path && a.query == b.query,
{
}

/// A source that is no address of its own is relative to the base where there
/// is one and that leads to an address, and to the page otherwise.
pub proof fn law_relative_source_has_base_then_page(
    src: Seq<char>,
    baseurl: Seq<char>,
    page_url: Seq<char>,
)
    requires
        url_parsed(src) is Err,
    ensures
        baseurl.len() > 0 && url_joined(baseurl, src) is Ok ==> resolved_url(src, baseurl, page_url)
            == url_joined(baseurl, src),
        baseurl.len() > 0 && url_joined(baseurl, src) is Err ==> resolved_url(
            src,
            baseurl,
            page_url,
        ) == url_joined(page_url, src),
        baseurl.len() == 0 ==> resolved_url(src, baseurl, page_url) == url_joined(page_url, src),
{
}

/// Of three attempts the first that succeeds counts; where none does, the last
/// one's failure.
pub proof fn law_first_success_counts(
    own: Result<UrlView, url::ParseError>,
    by_base: Result<UrlView, url::ParseError>,
    by_page: Result<UrlView, url::ParseError>,
)
    ensures
        own is Ok ==> first_success(own, Some(by_base), by_page) == own,
        own is Ok ==> first_success(own, None, by_page) == own,
        own is Err && by_base is Ok ==> first_success(own, Some(by_base), by_page) == by_base,
        own is Err && by_base is Err ==> first_success(own, Some(by_base), by_page) == by_page,
        own is Err ==> first_success(own, None, by_page) == by_page,
{
}

/// Addresses and optional texts are seen as the texts they hold.
pub proof fn law_texts_are_seen_as_they_are(
    text: String,
    url: PageUrl,
    error: url::ParseError,
    result: Result<PageUrl, url::ParseError>,
)
    ensures
        opt_text(Some(text)) == Some(text@),
        opt_text(None) is None,
        url@.text == url.text@ && url@.scheme == url.scheme@ && url@.host == opt_text(url.host)
            && url@.port == url.port && url@.path == url.path@ && url@.query == opt_text(url.query)
            && url@.fragment == opt_text(url.fragment),
        url_result(Ok(url)) == Ok::<UrlView, url::ParseError>(url@),
        url_result(Err(error)) == Err::<UrlView, url::ParseError>(error),
        opt_url_result(Some(result)) == Some(url_result(result)),
        opt_url_result(None) is None,
{
}

} // verus!
