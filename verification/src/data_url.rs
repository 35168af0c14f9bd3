//! Pages that are given as text, as addresses an engine can load.

use vstd::prelude::*;
use vstd::string::*;

verus! {

/// Whether a byte stands for itself in an address.
pub open spec fn is_unreserved(byte: u8) -> bool {
    ||| 48 <= byte <= 57
    ||| 65 <= byte <= 90
    ||| 97 <= byte <= 122
    ||| byte == 45
    ||| byte == 46
    ||| byte == 95
    ||| byte == 126
}

/// The upper-case hexadecimal digit for a value below sixteen.
pub open spec fn hex_digit(value: int) -> char {
    if value < 10 {
        (48 + value) as char
    } else {
        (55 + value) as char
    }
}

/// A byte in an address: itself, or `%` and two hexadecimal digits.
pub open spec fn encoded_byte(byte: u8) -> Seq<char> {
    if is_unreserved(byte) {
        seq![byte as char]
    } else {
        seq!['%', hex_digit(byte as int / 16), hex_digit(byte as int % 16)]
    }
}

/// Bytes with all but letters, digits and `-`, `_`, `.`, `~` percent-encoded.
pub open spec fn percent_encoded(bytes: Seq<u8>) -> Seq<char>
    decreases bytes.len(),
{
    if bytes.len() == 0 {
        Seq::empty()
    } else {
        percent_encoded(bytes.drop_last()) + encoded_byte(bytes.last())
    }
}

/// Calls `urlencoding::encode`, which percent-encodes every byte of the UTF-8
/// text except letters, digits and `-`, `_`, `.`, `~`, with upper-case digits.
#[verifier::external_body]
fn url_encode(text: &str) -> (encoded: String)
    ensures
        encoded@ == percent_encoded(vstd::utf8::encode_utf8(text@)),
{
    urlencoding::encode(text).into_owned()
}

/// The address of a page that is given as HTML.
pub open spec fn html_address(html: Seq<char>) -> Seq<char> {
    "data:text/html;charset=utf-8,"@ + percent_encoded(vstd::utf8::encode_utf8(html))
}

/// The `data:` address of a page that is given as HTML.
pub fn html_data_url(html: &str) -> (address: String)
    ensures
        address@ == html_address(html@),
{
    let mut address: String = "data:text/html;charset=utf-8,".to_owned();
    address.append(url_encode(html).as_str());
    address
}

/// The characters an encoded byte uses name that byte and no other.
proof fn lemma_encoded_byte_injective(a: u8, b: u8)
    requires
        encoded_byte(a) == encoded_byte(b),
    ensures
        a == b,
{
    if is_unreserved(a) {
        assert(encoded_byte(a).len() == 1);
        assert(is_unreserved(b));
        assert(encoded_byte(a)[0] == a as char);
        assert(encoded_byte(b)[0] == b as char);
        assert(a as char as u32 == a as u32);
        assert(b as char as u32 == b as u32);
    } else {
        assert(encoded_byte(a).len() == 3);
        assert(!is_unreserved(b));
        let (h, l) = (a as int / 16, a as int % 16);
        let (i, m) = (b as int / 16, b as int % 16);
        assert(encoded_byte(a)[1] == hex_digit(h));
        assert(encoded_byte(b)[1] == hex_digit(i));
        assert(encoded_byte(a)[2] == hex_digit(l));
        assert(encoded_byte(b)[2] == hex_digit(m));
        assert(hex_digit(h) as int == if h < 10 { 48 + h } else { 55 + h });
        assert(hex_digit(i) as int == if i < 10 { 48 + i } else { 55 + i });
        assert(hex_digit(l) as int == if l < 10 { 48 + l } else { 55 + l });
        assert(hex_digit(m) as int == if m < 10 { 48 + m } else { 55 + m });
    }
}

proof fn lemma_encoded_front(bytes: Seq<u8>)
    requires
        bytes.len() > 0,
    ensures
        percent_encoded(bytes) == encoded_byte(bytes[0]) + percent_encoded(bytes.drop_first()),
    decreases bytes.len(),
{
    let start = bytes.drop_last();
    if start.len() == 0 {
        assert(bytes.drop_first() =~= Seq::empty());
        assert(start =~= Seq::empty());
        assert(percent_encoded(start) + encoded_byte(bytes.last()) =~= encoded_byte(bytes[0])
            + percent_encoded(bytes.drop_first()));
    } else {
        lemma_encoded_front(start);
        assert(bytes.drop_first().drop_last() =~= start.drop_first());
        assert(percent_encoded(bytes) =~= encoded_byte(bytes[0]) + percent_encoded(
            bytes.drop_first(),
        ));
    }
}

proof fn lemma_encoding_injective(a: Seq<u8>, b: Seq<u8>)
    requires
        percent_encoded(a) == percent_encoded(b),
    ensures
        a == b,
    decreases a.len(),
{
    if a.len() > 0 {
        lemma_encoded_front(a);
        assert(encoded_byte(a[0]).len() >= 1);
        assert(percent_encoded(a).len() >= 1);
    }
    if b.len() > 0 {
        lemma_encoded_front(b);
        assert(encoded_byte(b[0]).len() >= 1);
        assert(percent_encoded(b).len() >= 1);
    }
    if a.len() == 0 || b.len() == 0 {
        assert(percent_encoded(a).len() == percent_encoded(b).len());
        assert(a =~= b);
    } else {
        let x = encoded_byte(a[0]);
        let y = encoded_byte(b[0]);
        let all = percent_encoded(a);
        assert(all[0] == x[0]);
        assert(all[0] == y[0]);
        assert(is_unreserved(a[0]) ==> a[0] as char as u32 == a[0] as u32);
        assert(is_unreserved(b[0]) ==> b[0] as char as u32 == b[0] as u32);
        assert('%' as u32 == 37);
        assert(is_unreserved(a[0]) == is_unreserved(b[0]));
        assert(x.len() == y.len());
        assert(x =~= all.take(x.len() as int));
        assert(y =~= all.take(x.len() as int));
        lemma_encoded_byte_injective(a[0], b[0]);
        assert(percent_encoded(a.drop_first()) =~= all.skip(x.len() as int));
        assert(percent_encoded(b.drop_first()) =~= all.skip(x.len() as int));
        lemma_encoding_injective(a.drop_first(), b.drop_first());
        assert(a =~= seq![a[0]] + a.drop_first());
        assert(b =~= seq![b[0]] + b.drop_first());
    }
}

/// Two pages with the same address are the same page: the address of a page
/// given as HTML carries all of it.
pub proof fn law_address_carries_page(a: Seq<char>, b: Seq<char>)
    requires
        html_address(a) == html_address(b),
    ensures
        a == b,
{
    let start = "data:text/html;charset=utf-8,"@;
    let x = vstd::utf8::encode_utf8(a);
    let y = vstd::utf8::encode_utf8(b);
    assert(percent_encoded(x) =~= html_address(a).skip(start.len() as int));
    assert(percent_encoded(y) =~= html_address(b).skip(start.len() as int));
    lemma_encoding_injective(x, y);
    vstd::utf8::encode_utf8_decode_utf8(a);
    vstd::utf8::encode_utf8_decode_utf8(b);
}

/// Letters, digits and the four marks `-`, `.`, `_` and `~` stand for
/// themselves in an address; every other byte is a percent sign and two
/// hexadecimal digits in upper case, the higher one first.
pub proof fn law_bytes_are_letters_or_percent(byte: u8, high: int, low: int)
    requires
        0 <= high < 16,
        0 <= low < 16,
        byte == 16 * high + low,
    ensures
        ({
            let digits = seq![
                '0',
                '1',
                '2',
                '3',
                '4',
                '5',
                '6',
                '7',
                '8',
                '9',
                'A',
                'B',
                'C',
                'D',
                'E',
                'F',
            ];
            let itself = ('a' as u8 <= byte <= 'z' as u8) || ('A' as u8 <= byte <= 'Z' as u8) || (
            '0' as u8 <= byte <= '9' as u8) || byte == '-' as u8 || byte == '.' as u8 || byte
                == '_' as u8 || byte == '~' as u8;
            &&& itself ==> encoded_byte(byte) == seq![byte as char]
            &&& !itself ==> encoded_byte(byte) == seq!['%', digits[high], digits[low]]
        }),
{
    assert(byte as int / 16 == high);
    assert(byte as int % 16 == low);
}

/// Bytes are encoded one by one, in order.
pub proof fn law_bytes_are_encoded_one_by_one(a: Seq<u8>, b: Seq<u8>, byte: u8)
    ensures
        percent_encoded(Seq::empty()).len() == 0,
        percent_encoded(seq![byte]) == encoded_byte(byte),
        percent_encoded(a + b) == percent_encoded(a) + percent_encoded(b),
    decreases b.len(),
{
    reveal_with_fuel(percent_encoded, 2);
    assert(seq![byte].drop_last() =~= Seq::empty());
    assert(percent_encoded(seq![byte]) =~= encoded_byte(byte));
    if b.len() == 0 {
        assert(a + b =~= a);
        assert(percent_encoded(a) + percent_encoded(b) =~= percent_encoded(a));
    } else {
        law_bytes_are_encoded_one_by_one(a, b.drop_last(), byte);
        assert((a + b).drop_last() =~= a + b.drop_last());
        assert(percent_encoded(a + b) =~= percent_encoded(a) + percent_encoded(b));
    }
}

/// The address of HTML says that it carries HTML in UTF-8, and then carries the
/// bytes of it.
pub proof fn law_address_says_what_it_carries(html: Seq<char>)
    ensures
        html_address(html) == "data:text/html;charset=utf-8,"@ + percent_encoded(
            vstd::utf8::encode_utf8(html),
        ),
{
}

} // verus!
