//! Text as the terminal shows it: column widths, fitting and padding.

use vstd::prelude::*;

verus! {

/// The number of terminal columns that a character occupies, as
/// `unicode_width::UnicodeWidthChar::width` reports it; `None` for a control
/// character.
pub uninterp spec fn char_columns(c: char) -> Option<nat>;

/// The columns of a character, a control character counting as none.
pub open spec fn columns_or_zero(c: char) -> nat {
    match char_columns(c) {
        Some(n) => n,
        None => 0,
    }
}

/// The columns of a text: the sum over its characters.
pub open spec fn text_columns(s: Seq<char>) -> nat
    decreases s.len(),
{
    if s.len() == 0 {
        0
    } else {
        text_columns(s.drop_last()) + columns_or_zero(s.last())
    }
}

/// `n` blanks.
pub open spec fn blanks(n: nat) -> Seq<char> {
    Seq::new(n, |i: int| ' ')
}

/// The characters of `s` that fit into `limit` columns when taken greedily
/// from the left: a character is kept if, after those kept before it, it
/// still fits.
pub open spec fn fitted(s: Seq<char>, limit: nat) -> Seq<char>
    decreases s.len(),
{
    if s.len() == 0 {
        Seq::empty()
    } else {
        let head = fitted(s.drop_last(), limit);
        if text_columns(head) + columns_or_zero(s.last()) <= limit {
            head.push(s.last())
        } else {
            head
        }
    }
}

/// `s` cut and padded to exactly `limit` columns.
pub open spec fn trimmed(s: Seq<char>, limit: nat) -> Seq<char> {
    let kept = fitted(s, limit);
    kept + blanks((limit - text_columns(kept)) as nat)
}

/// Calls `unicode_width::UnicodeWidthChar::width`. The result is the named
/// width of the character; for printable ASCII the crate's source gives 1.
#[verifier::external_body]
pub(crate) fn char_width(c: char) -> (w: Option<usize>)
    ensures
        match w {
            Some(n) => char_columns(c) == Some(n as nat),
            None => char_columns(c) is None,
        },
        0x20 <= c as u32 && (c as u32) < 0x7f ==> w == Some(1usize),
{
    unicode_width::UnicodeWidthChar::width(c)
}

/// `String::push` appends the character.
pub assume_specification[ String::push ](s: &mut String, c: char)
    ensures
        final(s)@ == old(s)@.push(c),
;

/// `String::pop` takes the last character away and returns it; an empty
/// string stays empty and gives none.
pub assume_specification[ String::pop ](s: &mut String) -> (c: Option<char>)
    ensures
        old(s)@.len() == 0 ==> c is None && final(s)@ == old(s)@,
        old(s)@.len() > 0 ==> c == Some(old(s)@.last()) && final(s)@ == old(s)@.drop_last(),
;

/// A character added at the end adds its columns.
pub proof fn lemma_text_columns_push(s: Seq<char>, c: char)
    ensures
        text_columns(s.push(c)) == text_columns(s) + columns_or_zero(c),
{
    assert(s.push(c).drop_last() =~= s);
}

/// Cuts and pads a text to exactly `width_max_limit` columns.
pub fn trim_text(text: &String, width_max_limit: usize) -> (r: String)
    ensures
        r@ == trimmed(text@, width_max_limit as nat),
        text_columns(r@) == width_max_limit,
{
    let mut result = String::new();
    let mut cur: usize = 0;
    for c in it: text.as_str().chars()
        invariant
            it.seq() == text@,
            result@ == fitted(text@.take(it.index()), width_max_limit as nat),
            cur as nat == text_columns(result@),
            cur <= width_max_limit,
    {
        let size: usize = match char_width(c) {
            Some(n) => n,
            None => 0,
        };
        proof {
            let k = it.index();
            assert(text@.take(k + 1).drop_last() =~= text@.take(k));
            assert(text@.take(k + 1).last() == c);
            lemma_text_columns_push(result@, c);
        }
        if size <= width_max_limit - cur {
            result.push(c);
            cur = cur + size;
        }
    }
    assert(text@.take(text@.len() as int) =~= text@);
    let ghost kept = result@;
    let blank = char_width(' ');
    while cur < width_max_limit
        invariant
            cur <= width_max_limit,
            cur as nat == text_columns(result@),
            result@ == kept + blanks((cur - text_columns(kept)) as nat),
            text_columns(kept) <= cur,
            char_columns(' ') == Some(1nat),
        decreases width_max_limit - cur,
    {
        proof {
            lemma_text_columns_push(result@, ' ');
            assert(result@.push(' ') =~= kept + blanks((cur + 1 - text_columns(kept)) as nat));
        }
        result.push(' ');
        cur = cur + 1;
    }
    result
}


/// Calls `unicode_width::UnicodeWidthStr::width`, which adds up the widths of
/// the characters, a control character counting as none.
#[verifier::external_body]
pub(crate) fn text_width(s: &str) -> (w: usize)
    ensures
        w as nat == text_columns(s@),
{
    unicode_width::UnicodeWidthStr::width(s)
}

/// Appends `n` blanks.
pub fn push_blanks(s: &mut String, n: usize)
    ensures
        final(s)@ == old(s)@ + blanks(n as nat),
{
    let mut i: usize = 0;
    assert(s@ =~= old(s)@ + blanks(0));
    while i < n
        invariant
            i <= n,
            s@ == old(s)@ + blanks(i as nat),
        decreases n - i,
    {
        s.push(' ');
        i += 1;
        assert(s@ =~= old(s)@ + blanks(i as nat));
    }
}

/// The date and time of a Unix timestamp in UTC, written as
/// `YYYY-MM-DD hh:mm:ss`, as `chrono` formats it; `None` where `chrono`
/// cannot represent the timestamp.
pub uninterp spec fn utc_date_time(secs: i64) -> Option<Seq<char>>;

/// Calls `chrono::DateTime::from_timestamp` and formats what it gives with
/// `chrono::DateTime::format`. The result is the named text of the timestamp.
#[verifier::external_body]
pub(crate) fn format_utc(secs: i64) -> (r: Option<String>)
    ensures
        r.deep_view() == utc_date_time(secs),
{
    match chrono::DateTime::from_timestamp(secs, 0) {
        Some(t) => Some(t.format("%Y-%m-%d %H:%M:%S").to_string()),
        None => None,
    }
}

/// The decimal digit `d` as a character.
pub open spec fn digit(d: nat) -> char {
    if d == 0 {
        '0'
    } else if d == 1 {
        '1'
    } else if d == 2 {
        '2'
    } else if d == 3 {
        '3'
    } else if d == 4 {
        '4'
    } else if d == 5 {
        '5'
    } else if d == 6 {
        '6'
    } else if d == 7 {
        '7'
    } else if d == 8 {
        '8'
    } else {
        '9'
    }
}

/// A number in decimal, without leading zeros.
pub open spec fn decimal(n: nat) -> Seq<char>
    decreases n,
{
    if n < 10 {
        seq![digit(n)]
    } else {
        decimal(n / 10).push(digit(n % 10))
    }
}

/// A number in decimal, at least two digits wide.
pub open spec fn two_digits(n: nat) -> Seq<char> {
    if n < 10 {
        seq!['0', digit(n)]
    } else {
        decimal(n)
    }
}

/// A duration in milliseconds as minutes and seconds, `mm:ss`; the minutes
/// grow beyond two digits where the duration asks for it.
pub open spec fn clock(ms: nat) -> Seq<char> {
    two_digits(ms / 1000 / 60) + seq![':'] + two_digits(ms / 1000 % 60)
}

fn digit_char(d: u32) -> (c: char)
    requires
        d < 10,
    ensures
        c == digit(d as nat),
{
    if d == 0 {
        '0'
    } else if d == 1 {
        '1'
    } else if d == 2 {
        '2'
    } else if d == 3 {
        '3'
    } else if d == 4 {
        '4'
    } else if d == 5 {
        '5'
    } else if d == 6 {
        '6'
    } else if d == 7 {
        '7'
    } else if d == 8 {
        '8'
    } else {
        '9'
    }
}

/// Appends `n` in decimal.
pub fn push_decimal(s: &mut String, n: u32)
    ensures
        final(s)@ == old(s)@ + decimal(n as nat),
    decreases n,
{
    if n >= 10 {
        push_decimal(s, n / 10);
    }
    s.push(digit_char(n % 10));
}

/// Appends `n` in decimal, at least two digits wide.
pub fn push_two_digits(s: &mut String, n: u32)
    ensures
        final(s)@ == old(s)@ + two_digits(n as nat),
{
    if n < 10 {
        s.push('0');
    }
    push_decimal(s, n);
}

/// Appends a duration as `mm:ss`.
pub fn push_clock(s: &mut String, ms: u32)
    ensures
        final(s)@ == old(s)@ + clock(ms as nat),
{
    let total_sec: u32 = ms / 1000;
    push_two_digits(s, total_sec / 60);
    s.push(':');
    push_two_digits(s, total_sec % 60);
}

/// `n` in decimal.
pub fn decimal_text(n: u32) -> (r: String)
    ensures
        r@ == decimal(n as nat),
{
    let mut r = String::new();
    push_decimal(&mut r, n);
    r
}

/// The parts one after another, with `sep` between neighbours.
pub open spec fn joined(parts: Seq<Seq<char>>, sep: Seq<char>) -> Seq<char>
    decreases parts.len(),
{
    if parts.len() == 0 {
        Seq::empty()
    } else if parts.len() == 1 {
        parts[0]
    } else {
        joined(parts.drop_last(), sep) + sep + parts.last()
    }
}

/// Calls `itertools::Itertools::join` on the strings of `parts`: each is
/// written as it stands, and `sep` between neighbours.
#[verifier::external_body]
pub(crate) fn join_texts(parts: &Vec<String>, sep: &str) -> (r: String)
    ensures
        r@ == joined(parts.deep_view(), sep@),
{
    itertools::Itertools::join(&mut parts.iter(), sep)
}

/// An ASCII capital as its small letter, any other character as it is.
pub open spec fn lower_char(c: char) -> char {
    if 'A' <= c && c <= 'Z' {
        ((c as u32) + 32) as char
    } else {
        c
    }
}

/// A text with its ASCII capitals made small.
pub open spec fn ascii_lowercase(s: Seq<char>) -> Seq<char> {
    Seq::new(s.len(), |i: int| lower_char(s[i]))
}

/// `str::to_ascii_lowercase` maps the ASCII letters `A` to `Z` to `a` to `z`
/// and leaves every other character as it is.
pub assume_specification[ str::to_ascii_lowercase ](s: &str) -> (r: String)
    ensures
        r@ == ascii_lowercase(s@),
;

/// Whether `needle` occurs in `hay` as a run of neighbouring characters.
pub open spec fn occurs_in(needle: Seq<char>, hay: Seq<char>) -> bool {
    exists|i: int|
        0 <= i && i + needle.len() <= hay.len() && #[trigger] hay.subrange(
            i,
            i + needle.len(),
        ) == needle
}

/// Calls `str::contains` with a string as the pattern: whether the pattern
/// matches a sub-slice of the text.
#[verifier::external_body]
pub(crate) fn contains_text(hay: &str, needle: &str) -> (r: bool)
    ensures
        r == occurs_in(needle@, hay@),
{
    hay.contains(needle)
}

/// Whether `a` comes before `b` in the lexicographic order of their
/// characters' code points.
pub open spec fn text_before(a: Seq<char>, b: Seq<char>) -> bool
    decreases a.len(),
{
    if b.len() == 0 {
        false
    } else if a.len() == 0 {
        true
    } else if a[0] != b[0] {
        (a[0] as int) < (b[0] as int)
    } else {
        text_before(a.drop_first(), b.drop_first())
    }
}

/// Compares two strings with `<`, std's order of strings: lexicographic by
/// bytes, which for UTF-8 is the order of the code points.
#[verifier::external_body]
pub(crate) fn is_text_before(a: &str, b: &str) -> (r: bool)
    ensures
        r == text_before(a@, b@),
{
    a < b
}

/// No text comes before itself, and of two texts at most one comes before
/// the other.
pub proof fn lemma_text_before_asymmetric(a: Seq<char>, b: Seq<char>)
    ensures
        !(text_before(a, b) && text_before(b, a)),
    decreases a.len(),
{
    if a.len() > 0 && b.len() > 0 && a[0] == b[0] {
        lemma_text_before_asymmetric(a.drop_first(), b.drop_first());
    }
}

/// Of two different texts one comes before the other.
pub proof fn lemma_text_before_total(a: Seq<char>, b: Seq<char>)
    requires
        a != b,
    ensures
        text_before(a, b) || text_before(b, a),
    decreases a.len(),
{
    if a.len() > 0 && b.len() > 0 {
        if a[0] == b[0] {
            if a.drop_first() == b.drop_first() {
                assert(a =~= seq![a[0]] + a.drop_first());
                assert(b =~= seq![b[0]] + b.drop_first());
                assert(false);
            }
            lemma_text_before_total(a.drop_first(), b.drop_first());
        } else {
            assert(a[0] as int != b[0] as int);
        }
    } else if a.len() == 0 && b.len() == 0 {
        assert(a =~= b);
    }
}

/// What comes before a text comes before all that the text comes before.
pub proof fn lemma_text_before_transitive(a: Seq<char>, b: Seq<char>, c: Seq<char>)
    requires
        text_before(a, b),
        text_before(b, c),
    ensures
        text_before(a, c),
    decreases a.len(),
{
    if a.len() > 0 {
        assert(b.len() > 0 && c.len() > 0);
        if a[0] == b[0] && b[0] == c[0] {
            lemma_text_before_transitive(a.drop_first(), b.drop_first(), c.drop_first());
        }
    }
}

} // verus!
