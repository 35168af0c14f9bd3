//! Character-level building blocks shared by the rest of the crate.

use vstd::prelude::*;
use vstd::string::*;

verus! {

/// `String::push`: the string grows by exactly the given character.
pub assume_specification[ String::push ](s: &mut String, c: char)
    ensures
        final(s)@ == old(s)@.push(c),
;

/// The pieces of `s` between the occurrences of `sep`, in order.
///
/// There is one piece more than there are separators, so the empty sequence
/// has a single empty piece.
pub open spec fn split_on<T>(s: Seq<T>, sep: T) -> Seq<Seq<T>>
    decreases s.len(),
{
    if s.len() == 0 {
        seq![Seq::empty()]
    } else {
        let before = split_on(s.drop_last(), sep);
        if s.last() == sep {
            before.push(Seq::empty())
        } else {
            before.update(before.len() - 1, before.last().push(s.last()))
        }
    }
}

/// Splitting never yields an empty list of pieces.
pub proof fn lemma_split_nonempty<T>(s: Seq<T>, sep: T)
    ensures
        split_on(s, sep).len() > 0,
    decreases s.len(),
{
    if s.len() > 0 {
        lemma_split_nonempty(s.drop_last(), sep);
    }
}

/// Without a separator there is one piece.
pub proof fn lemma_split_whole<T>(s: Seq<T>, sep: T)
    requires
        !s.contains(sep),
    ensures
        split_on(s, sep) == seq![s],
    decreases s.len(),
{
    if s.len() == 0 {
        assert(s =~= Seq::empty());
    } else {
        let start = s.drop_last();
        assert(s[s.len() - 1] != sep);
        assert forall|k: int| 0 <= k < start.len() implies start[k] != sep by {
            assert(s[k] == start[k]);
        }
        lemma_split_whole(start, sep);
        assert(start.push(s.last()) =~= s);
        assert(split_on(s, sep) =~= seq![s]);
    }
}

/// What comes before the first separator is the first piece.
pub proof fn lemma_split_first<T>(head: Seq<T>, tail: Seq<T>, sep: T)
    requires
        !head.contains(sep),
    ensures
        split_on(head.push(sep) + tail, sep).len() > 1,
        split_on(head.push(sep) + tail, sep)[0] == head,
    decreases tail.len(),
{
    let whole = head.push(sep) + tail;
    if tail.len() == 0 {
        assert(whole.drop_last() =~= head);
        lemma_split_whole(head, sep);
    } else {
        assert(whole.drop_last() =~= head.push(sep) + tail.drop_last());
        lemma_split_first(head, tail.drop_last(), sep);
    }
}

/// Whether two string slices hold the same characters.
pub fn str_eq(a: &str, b: &str) -> (same: bool)
    ensures
        same == (a@ == b@),
{
    a.to_owned() == b.to_owned()
}

/// Strings as the texts they hold.
pub open spec fn texts(strings: Seq<String>) -> Seq<Seq<char>> {
    strings.map_values(|s: String| s@)
}

/// Whether a character is white space, as Unicode has it.
pub open spec fn is_white(c: char) -> bool {
    ||| 9 <= c as u32 <= 13
    ||| c as u32 == 32
    ||| c as u32 == 0x85
    ||| c as u32 == 0xa0
    ||| c as u32 == 0x1680
    ||| 0x2000 <= c as u32 <= 0x200a
    ||| c as u32 == 0x2028
    ||| c as u32 == 0x2029
    ||| c as u32 == 0x202f
    ||| c as u32 == 0x205f
    ||| c as u32 == 0x3000
}

/// Whether a character is white space.
pub fn is_whitespace(c: char) -> (white: bool)
    ensures
        white == is_white(c),
{
    let n: u32 = c as u32;
    (9 <= n && n <= 13) || n == 32 || n == 0x85 || n == 0xa0 || n == 0x1680 || (0x2000 <= n && n
        <= 0x200a) || n == 0x2028 || n == 0x2029 || n == 0x202f || n == 0x205f || n == 0x3000
}

/// A text without the white space it starts with.
pub open spec fn trimmed_start(text: Seq<char>) -> Seq<char>
    decreases text.len(),
{
    if text.len() > 0 && is_white(text.first()) {
        trimmed_start(text.drop_first())
    } else {
        text
    }
}

/// A text without the white space it ends with.
pub open spec fn trimmed_end(text: Seq<char>) -> Seq<char>
    decreases text.len(),
{
    if text.len() > 0 && is_white(text.last()) {
        trimmed_end(text.drop_last())
    } else {
        text
    }
}

/// A text without the white space around it.
pub open spec fn trimmed(text: Seq<char>) -> Seq<char> {
    trimmed_end(trimmed_start(text))
}

/// A text without the white space around it.
pub fn trim(text: &str) -> (inner: &str)
    ensures
        inner@ == trimmed(text@),
{
    let n: usize = text.unicode_len();
    let mut from: usize = 0;
    assert(text@.skip(0) =~= text@);
    while from < n && is_whitespace(text.get_char(from))
        invariant
            from <= n,
            n == text@.len(),
            trimmed_start(text@.skip(from as int)) == trimmed_start(text@),
        decreases n - from,
    {
        assert(text@.skip(from as int).first() == text@[from as int]);
        assert(text@.skip(from as int).drop_first() =~= text@.skip(from as int + 1));
        from = from + 1;
    }
    let ghost start = text@.skip(from as int);
    assert(start.len() == 0 || start.first() == text@[from as int]);
    assert(trimmed_start(text@) == start);
    let mut to: usize = n;
    assert(text@.subrange(from as int, n as int) =~= start);
    while to > from && is_whitespace(text.get_char(to - 1))
        invariant
            from <= to <= n,
            n == text@.len(),
            trimmed_end(text@.subrange(from as int, to as int)) == trimmed_end(start),
        decreases to - from,
    {
        assert(text@.subrange(from as int, to as int).last() == text@[to - 1]);
        assert(text@.subrange(from as int, to as int).drop_last() =~= text@.subrange(
            from as int,
            to - 1,
        ));
        to = to - 1;
    }
    let ghost inner = text@.subrange(from as int, to as int);
    assert(inner.len() == 0 || inner.last() == text@[to - 1]);
    assert(trimmed_end(start) == inner);
    text.substring_char(from, to)
}

/// Trimmed text neither starts nor ends with white space, and text that does
/// not is left as it is.
pub proof fn law_trimmed_has_no_white_ends(text: Seq<char>)
    ensures
        trimmed(text).len() > 0 ==> !is_white(trimmed(text).first()) && !is_white(
            trimmed(text).last(),
        ),
        text.len() > 0 && !is_white(text.first()) && !is_white(text.last()) ==> trimmed(text)
            == text,
{
    lemma_trimmed_start(text);
    lemma_trimmed_end(trimmed_start(text));
}

proof fn lemma_trimmed_start(text: Seq<char>)
    ensures
        trimmed_start(text).len() > 0 ==> !is_white(trimmed_start(text).first()),
    decreases text.len(),
{
    if text.len() > 0 && is_white(text.first()) {
        lemma_trimmed_start(text.drop_first());
    }
}

proof fn lemma_trimmed_end(text: Seq<char>)
    ensures
        trimmed_end(text).len() > 0 ==> !is_white(trimmed_end(text).last()) && text.len() > 0
            && trimmed_end(text).first() == text.first(),
    decreases text.len(),
{
    if text.len() > 0 && is_white(text.last()) {
        lemma_trimmed_end(text.drop_last());
    }
}

/// The pieces of a text between the occurrences of a character.
pub fn split_text(text: &str, sep: char) -> (pieces: Vec<String>)
    ensures
        texts(pieces@) == split_on(text@, sep),
{
    let mut pieces: Vec<String> = Vec::new();
    let mut last: String = String::new();
    proof {
        assert(text@.take(0) =~= Seq::empty());
        assert(texts(pieces@).push(last@) =~= seq![Seq::<char>::empty()]);
    }
    for c in iter: text.chars()
        invariant
            iter.seq() == text@,
            texts(pieces@).push(last@) == split_on(text@.take(iter.index()), sep),
    {
        proof {
            let k = iter.index();
            assert(text@.take(k + 1).drop_last() =~= text@.take(k));
            assert(text@.take(k + 1).last() == c);
            let before = texts(pieces@).push(last@);
            assert(before.update(before.len() - 1, before.last().push(c)) =~= texts(pieces@).push(
                last@.push(c),
            ));
        }
        if c == sep {
            let ghost done = pieces@;
            let ghost piece = last;
            pieces.push(last);
            assert(texts(pieces@) =~= texts(done).push(piece@));
            last = String::new();
        } else {
            last.push(c);
        }
    }
    assert(text@.take(text@.len() as int) =~= text@);
    let ghost done = pieces@;
    let ghost piece = last;
    pieces.push(last);
    assert(texts(pieces@) =~= texts(done).push(piece@));
    pieces
}

/// The decimal digits of a number.
pub open spec fn decimal(n: nat) -> Seq<char>
    decreases n,
{
    if n < 10 {
        seq![(48 + n) as char]
    } else {
        decimal(n / 10).push((48 + n % 10) as char)
    }
}

/// A number as it is written.
pub open spec fn int_text(n: int) -> Seq<char> {
    if n < 0 {
        seq!['-'] + decimal((-n) as nat)
    } else {
        decimal(n as nat)
    }
}

fn digit_char(d: u64) -> (c: char)
    requires
        d < 10,
    ensures
        c == (48 + d) as char,
{
    if d == 0 {
        '0'
    } else if d == 1 {
        '1'
    } else if d == 2 {
        '2'
    } else if d == 3 {
        '3'
    } else if d == 4 {
        '4'
    } else if d == 5 {
        '5'
    } else if d == 6 {
        '6'
    } else if d == 7 {
        '7'
    } else if d == 8 {
        '8'
    } else {
        '9'
    }
}

/// The decimal digits of a number.
pub fn u64_text(n: u64) -> (text: String)
    ensures
        text@ == decimal(n as nat),
    decreases n,
{
    if n < 10 {
        let mut text: String = String::new();
        text.push(digit_char(n));
        assert(text@ =~= seq![(48 + n) as char]);
        text
    } else {
        let mut text: String = u64_text(n / 10);
        text.push(digit_char(n % 10));
        text
    }
}

/// A number as it is written.
pub fn i32_text(n: i32) -> (text: String)
    ensures
        text@ == int_text(n as int),
{
    if n < 0 {
        let mut text: String = String::new();
        text.push('-');
        let size: i64 = -(n as i64);
        text.append(u64_text(size as u64).as_str());
        assert(Seq::<char>::empty().push('-') =~= seq!['-']);
        text
    } else {
        u64_text(n as u64)
    }
}

/// A line without the carriage return that ends it.
pub open spec fn without_return(line: Seq<char>) -> Seq<char> {
    if line.len() > 0 && line.last() == '\r' {
        line.drop_last()
    } else {
        line
    }
}

/// Those of a list of lines that are not empty, a carriage return at the end of
/// each not counted in.
pub open spec fn kept_lines(lines: Seq<Seq<char>>) -> Seq<Seq<char>>
    decreases lines.len(),
{
    if lines.len() == 0 {
        Seq::empty()
    } else {
        let before = kept_lines(lines.drop_last());
        let line = without_return(lines.last());
        if line.len() == 0 {
            before
        } else {
            before.push(line)
        }
    }
}

/// The lines of a text that are not empty. A line ends with a line feed, or
/// with a carriage return and a line feed; what follows the last one is a line
/// too.
pub open spec fn nonempty_lines(text: Seq<char>) -> Seq<Seq<char>> {
    let lines = split_on(text, '\n');
    let ended = kept_lines(lines.drop_last());
    if lines.last().len() == 0 {
        ended
    } else {
        ended.push(lines.last())
    }
}

/// The lines of a text that are not empty.
pub fn lines_of(text: &str) -> (lines: Vec<String>)
    ensures
        texts(lines@) == nonempty_lines(text@),
{
    let pieces: Vec<String> = split_text(text, '\n');
    proof {
        lemma_split_nonempty(text@, '\n');
        assert(texts(pieces@).len() == pieces@.len());
    }
    let ghost all = split_on(text@, '\n');
    let n: usize = pieces.len() - 1;
    let mut lines: Vec<String> = Vec::new();
    let mut i: usize = 0;
    assert(all.take(0) =~= Seq::empty());
    assert(texts(lines@) =~= Seq::empty());
    while i < n
        invariant
            n == pieces@.len() - 1,
            i <= n,
            all == texts(pieces@),
            texts(lines@) == kept_lines(all.take(i as int)),
        decreases n - i,
    {
        let piece = pieces[i].as_str();
        assert(all.take(i as int + 1).drop_last() =~= all.take(i as int));
        assert(all.take(i as int + 1).last() == piece@);
        let len: usize = piece.unicode_len();
        let line: &str = if len > 0 && piece.get_char(len - 1) == '\r' {
            piece.substring_char(0, len - 1)
        } else {
            piece
        };
        assert(line@ =~= without_return(piece@));
        if !line.is_empty() {
            let ghost done = lines@;
            lines.push(line.to_owned());
            assert(texts(lines@) =~= texts(done).push(line@));
        }
        i = i + 1;
    }
    assert(all.take(n as int) =~= all.drop_last());
    let last = pieces[n].as_str();
    assert(last@ == all.last());
    if !last.is_empty() {
        let ghost done = lines@;
        lines.push(last.to_owned());
        assert(texts(lines@) =~= texts(done).push(last@));
    }
    lines
}

/// Pieces with a separator between each and the next.
pub open spec fn rejoined<T>(pieces: Seq<Seq<T>>, sep: T) -> Seq<T>
    decreases pieces.len(),
{
    if pieces.len() == 0 {
        Seq::empty()
    } else if pieces.len() == 1 {
        pieces[0]
    } else {
        rejoined(pieces.drop_last(), sep).push(sep) + pieces.last()
    }
}

/// The pieces of a text hold no separator, and with separators between them
/// they are the text again.
pub proof fn law_split_is_undone_by_joining<T>(s: Seq<T>, sep: T)
    ensures
        split_on(s, sep).len() > 0,
        rejoined(split_on(s, sep), sep) == s,
        forall|k: int|
            0 <= k < split_on(s, sep).len() ==> !(#[trigger] split_on(s, sep)[k]).contains(sep),
    decreases s.len(),
{
    let pieces = split_on(s, sep);
    if s.len() == 0 {
        assert(rejoined(pieces, sep) =~= s);
    } else {
        let start = s.drop_last();
        let before = split_on(start, sep);
        law_split_is_undone_by_joining(start, sep);
        if s.last() == sep {
            assert(pieces.drop_last() =~= before);
            assert(rejoined(pieces, sep) =~= s);
        } else {
            let last = before.last().push(s.last());
            assert(pieces.drop_last() =~= before.drop_last());
            assert(pieces.last() == last);
            assert(start.push(s.last()) =~= s);
            if before.len() == 1 {
                assert(rejoined(before, sep) == before.last());
                assert(rejoined(pieces, sep) == last);
            } else {
                let front = rejoined(before.drop_last(), sep).push(sep);
                assert(rejoined(before, sep) == front + before.last());
                assert(rejoined(pieces, sep) == front + last);
                assert(front + last =~= (front + before.last()).push(s.last()));
            }
            assert forall|k: int| 0 <= k < pieces.len() implies !(#[trigger] pieces[k]).contains(
                sep,
            ) by {
                if k < before.len() - 1 {
                    assert(pieces[k] == before[k]);
                } else {
                    let known = before[before.len() - 1];
                    assert(!known.contains(sep));
                    assert forall|j: int| 0 <= j < last.len() implies last[j] != sep by {
                        if j < known.len() {
                            assert(known[j] == last[j]);
                        }
                    }
                }
            }
        }
    }
}

/// A separator parts a text: the pieces are those before it and those after it.
pub proof fn law_separator_parts_text<T>(a: Seq<T>, b: Seq<T>, sep: T)
    ensures
        split_on(a.push(sep) + b, sep) == split_on(a, sep) + split_on(b, sep),
    decreases b.len(),
{
    let whole = a.push(sep) + b;
    lemma_split_nonempty(b, sep);
    if b.len() == 0 {
        assert(whole.drop_last() =~= a);
        assert(b =~= Seq::empty());
        assert(split_on(whole, sep) =~= split_on(a, sep) + split_on(b, sep));
    } else {
        let start = b.drop_last();
        law_separator_parts_text(a, start, sep);
        lemma_split_nonempty(start, sep);
        assert(whole.drop_last() =~= a.push(sep) + start);
        assert(whole.last() == b.last());
        assert(split_on(whole, sep) =~= split_on(a, sep) + split_on(b, sep));
    }
}

/// White space is what Unicode calls so: the tab and the line breaks, the
/// spaces of every width, and the separators of lines and paragraphs.
pub proof fn law_white_space_is_unicodes(c: char)
    ensures
        is_white(c) <==> (c == '\t' || c == '\n' || c == '\u{b}' || c == '\u{c}' || c == '\r' || c
            == ' ' || c == '\u{85}' || c == '\u{a0}' || c == '\u{1680}' || c == '\u{2000}' || c
            == '\u{2001}' || c == '\u{2002}' || c == '\u{2003}' || c == '\u{2004}' || c
            == '\u{2005}' || c == '\u{2006}' || c == '\u{2007}' || c == '\u{2008}' || c
            == '\u{2009}' || c == '\u{200a}' || c == '\u{2028}' || c == '\u{2029}' || c
            == '\u{202f}' || c == '\u{205f}' || c == '\u{3000}'),
{
}

proof fn lemma_trimmed_start_takes_white(text: Seq<char>)
    ensures
        trimmed_start(text).len() <= text.len(),
        trimmed_start(text) == text.skip(text.len() - trimmed_start(text).len()),
        forall|i: int|
            0 <= i < text.len() - trimmed_start(text).len() ==> is_white(#[trigger] text[i]),
    decreases text.len(),
{
    if text.len() > 0 && is_white(text.first()) {
        let rest = text.drop_first();
        lemma_trimmed_start_takes_white(rest);
        assert(trimmed_start(text) =~= text.skip(text.len() - trimmed_start(text).len()));
        assert forall|i: int| 0 <= i < text.len() - trimmed_start(text).len() implies is_white(
            #[trigger] text[i],
        ) by {
            if i > 0 {
                assert(rest[i - 1] == text[i]);
            }
        }
    } else {
        assert(text.skip(0) =~= text);
    }
}

proof fn lemma_trimmed_end_takes_white(text: Seq<char>)
    ensures
        trimmed_end(text).len() <= text.len(),
        trimmed_end(text) == text.take(trimmed_end(text).len() as int),
        forall|i: int| trimmed_end(text).len() <= i < text.len() ==> is_white(#[trigger] text[i]),
    decreases text.len(),
{
    if text.len() > 0 && is_white(text.last()) {
        let start = text.drop_last();
        lemma_trimmed_end_takes_white(start);
        assert(trimmed_end(text) =~= text.take(trimmed_end(text).len() as int));
        assert forall|i: int| trimmed_end(text).len() <= i < text.len() implies is_white(
            #[trigger] text[i],
        ) by {
            if i < start.len() {
                assert(start[i] == text[i]);
            }
        }
    } else {
        assert(text.take(text.len() as int) =~= text);
    }
}

/// Trimming takes white space away at both ends and nothing else.
pub proof fn law_trimming_takes_only_white(text: Seq<char>)
    ensures
        exists|from: int, to: int|
            {
                &&& 0 <= from <= to <= text.len()
                &&& trimmed(text) == #[trigger] text.subrange(from, to)
                &&& forall|i: int| 0 <= i < from ==> is_white(#[trigger] text[i])
                &&& forall|i: int| to <= i < text.len() ==> is_white(#[trigger] text[i])
            },
{
    lemma_trimmed_start_takes_white(text);
    let rest = trimmed_start(text);
    lemma_trimmed_end_takes_white(rest);
    let from = text.len() - rest.len();
    let to = from + trimmed(text).len();
    assert(trimmed(text) =~= text.subrange(from, to));
    assert forall|i: int| to <= i < text.len() implies is_white(#[trigger] text[i]) by {
        assert(rest[i - from] == text[i]);
    }
}

/// The number that decimal digits are for.
pub open spec fn number_of(digits: Seq<char>) -> int
    decreases digits.len(),
{
    if digits.len() == 0 {
        0
    } else {
        10 * number_of(digits.drop_last()) + (digits.last() as int - '0' as int)
    }
}

/// The digits of a number are digits, are for that number, and do not begin
/// with a nought unless the number is nought. A negative number has a sign
/// before the digits of its size.
pub proof fn law_digits_are_of_the_number(n: nat)
    ensures
        number_of(decimal(n)) == n,
        decimal(n).len() > 0,
        forall|k: int| 0 <= k < decimal(n).len() ==> '0' <= #[trigger] decimal(n)[k] <= '9',
        n > 0 ==> decimal(n)[0] != '0',
        int_text(n as int) == decimal(n),
        n > 0 ==> int_text(-n) == seq!['-'] + decimal(n),
    decreases n,
{
    reveal_with_fuel(number_of, 2);
    if n < 10 {
        assert(decimal(n).drop_last() =~= Seq::empty());
    } else {
        law_digits_are_of_the_number(n / 10);
        assert(decimal(n).drop_last() =~= decimal(n / 10));
        assert forall|k: int| 0 <= k < decimal(n).len() implies '0' <= #[trigger] decimal(n)[k]
            <= '9' by {
            if k < decimal(n / 10).len() {
                assert(decimal(n)[k] == decimal(n / 10)[k]);
            }
        }
        assert(decimal(n)[0] == decimal(n / 10)[0]);
    }
}

proof fn lemma_kept_lines_concat(a: Seq<Seq<char>>, b: Seq<Seq<char>>)
    ensures
        kept_lines(a + b) == kept_lines(a) + kept_lines(b),
    decreases b.len(),
{
    if b.len() == 0 {
        assert(a + b =~= a);
        assert(kept_lines(a) + kept_lines(b) =~= kept_lines(a));
    } else {
        lemma_kept_lines_concat(a, b.drop_last());
        assert((a + b).drop_last() =~= a + b.drop_last());
        assert(kept_lines(a + b) =~= kept_lines(a) + kept_lines(b));
    }
}

/// The lines of a text are what stands before the first line feed, without a
/// carriage return at its end, and then the lines of what follows; those that
/// are empty do not count. A text without a line feed is one line as it is.
pub proof fn law_lines_come_one_by_one(head: Seq<char>, tail: Seq<char>)
    requires
        !head.contains('\n'),
    ensures
        head.len() > 0 ==> nonempty_lines(head) == seq![head],
        head.len() == 0 ==> nonempty_lines(head).len() == 0,
        ({
            let line = if head.len() > 0 && head.last() == '\r' {
                head.drop_last()
            } else {
                head
            };
            nonempty_lines(head.push('\n') + tail) == if line.len() > 0 {
                seq![line] + nonempty_lines(tail)
            } else {
                nonempty_lines(tail)
            }
        }),
{
    lemma_split_whole(head, '\n');
    assert(split_on(head, '\n').drop_last() =~= Seq::empty());
    if head.len() > 0 {
        assert(nonempty_lines(head) =~= seq![head]);
    }
    law_separator_parts_text(head, tail, '\n');
    lemma_split_nonempty(tail, '\n');
    let pieces = split_on(tail, '\n');
    let all = split_on(head.push('\n') + tail, '\n');
    assert(all == seq![head] + pieces);
    assert(all.drop_last() =~= seq![head] + pieces.drop_last());
    assert(all.last() == pieces.last());
    lemma_kept_lines_concat(seq![head], pieces.drop_last());
    assert(seq![head].drop_last() =~= Seq::empty());
    reveal_with_fuel(kept_lines, 2);
    let line = without_return(head);
    if line.len() > 0 {
        assert(kept_lines(seq![head]) =~= seq![line]);
        assert(nonempty_lines(head.push('\n') + tail) =~= seq![line] + nonempty_lines(tail));
    } else {
        assert(kept_lines(seq![head]) =~= Seq::empty());
        assert(nonempty_lines(head.push('\n') + tail) =~= nonempty_lines(tail));
    }
}

/// Strings are seen as the texts they hold, in their order.
pub proof fn law_strings_are_their_texts(strings: Seq<String>, k: int)
    ensures
        texts(strings).len() == strings.len(),
        0 <= k < strings.len() ==> texts(strings)[k] == strings[k]@,
{
}

} // verus!
