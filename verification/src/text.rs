//! Text operations on characters, with their meaning stated on `Seq<char>`.
use vstd::prelude::*;
use vstd::string::*;

verus! {

/// Whether `needle` stands in `s` at position `i`.
pub open spec fn occurs_at(s: Seq<char>, needle: Seq<char>, i: int) -> bool {
    &&& 0 <= i
    &&& i + needle.len() <= s.len()
    &&& s.subrange(i, i + needle.len()) == needle
}

/// The first position at or after `from` where `needle` stands in `s`.
pub open spec fn position_from(s: Seq<char>, needle: Seq<char>, from: int) -> Option<int>
    decreases s.len() + 1 - from,
{
    if from + needle.len() > s.len() {
        None
    } else if occurs_at(s, needle, from) {
        Some(from)
    } else {
        position_from(s, needle, from + 1)
    }
}

/// Whether `needle` stands anywhere in `s`.
pub open spec fn contains_text(s: Seq<char>, needle: Seq<char>) -> bool {
    exists|i: int| occurs_at(s, needle, i)
}

/// Whether `s` begins with `prefix`.
pub open spec fn begins_with(s: Seq<char>, prefix: Seq<char>) -> bool {
    occurs_at(s, prefix, 0)
}

/// Whether `s` ends with `suffix`.
pub open spec fn finishes_with(s: Seq<char>, suffix: Seq<char>) -> bool {
    occurs_at(s, suffix, s.len() - suffix.len())
}

/// `n` spaces.
pub open spec fn spaces(n: nat) -> Seq<char> {
    Seq::new(n, |i: int| ' ')
}

/// `s`, filled up on the right with spaces to at least `width` characters.
pub open spec fn padded(s: Seq<char>, width: nat) -> Seq<char> {
    if s.len() < width {
        s + spaces((width - s.len()) as nat)
    } else {
        s
    }
}

/// The decimal digit of `d`.
pub open spec fn digit(d: nat) -> Seq<char> {
    if d == 0 {
        "0"@
    } else if d == 1 {
        "1"@
    } else if d == 2 {
        "2"@
    } else if d == 3 {
        "3"@
    } else if d == 4 {
        "4"@
    } else if d == 5 {
        "5"@
    } else if d == 6 {
        "6"@
    } else if d == 7 {
        "7"@
    } else if d == 8 {
        "8"@
    } else {
        "9"@
    }
}

/// `n` written in decimal, without leading zeros.
pub open spec fn decimal(n: nat) -> Seq<char>
    decreases n,
{
    if n < 10 {
        digit(n)
    } else {
        decimal(n / 10) + digit(n % 10)
    }
}

/// The characters with the Unicode property `White_Space`.
pub open spec fn is_white_space(c: char) -> bool {
    ||| '\u{9}' <= c <= '\u{d}'
    ||| c == ' '
    ||| c == '\u{85}'
    ||| c == '\u{a0}'
    ||| c == '\u{1680}'
    ||| '\u{2000}' <= c <= '\u{200a}'
    ||| c == '\u{2028}'
    ||| c == '\u{2029}'
    ||| c == '\u{202f}'
    ||| c == '\u{205f}'
    ||| c == '\u{3000}'
}

/// `s` without white space at its start.
pub open spec fn trimmed_start(s: Seq<char>) -> Seq<char>
    decreases s.len(),
{
    if s.len() > 0 && is_white_space(s[0]) {
        trimmed_start(s.subrange(1, s.len() as int))
    } else {
        s
    }
}

/// `s` without white space at its end.
pub open spec fn trimmed_end(s: Seq<char>) -> Seq<char>
    decreases s.len(),
{
    if s.len() > 0 && is_white_space(s.last()) {
        trimmed_end(s.subrange(0, s.len() - 1))
    } else {
        s
    }
}

/// The texts of `parts`, one after the other, with `separator` between them.
pub open spec fn joined(parts: Seq<Seq<char>>, separator: Seq<char>) -> Seq<char>
    decreases parts.len(),
{
    if parts.len() == 0 {
        Seq::empty()
    } else if parts.len() == 1 {
        parts[0]
    } else {
        joined(parts.drop_last(), separator) + separator + parts.last()
    }
}

/// Whether `a` stands before `b` when texts are ordered by their characters.
pub open spec fn text_less(a: Seq<char>, b: Seq<char>) -> bool
    decreases a.len(),
{
    if b.len() == 0 {
        false
    } else if a.len() == 0 {
        true
    } else if a[0] == b[0] {
        text_less(a.drop_first(), b.drop_first())
    } else {
        a[0] < b[0]
    }
}

/// The texts that a vector of strings holds.
pub open spec fn texts(v: Seq<String>) -> Seq<Seq<char>> {
    Seq::new(v.len(), |i: int| v[i]@)
}

/// The text of an optional string.
pub open spec fn opt_text(s: Option<String>) -> Option<Seq<char>> {
    match s {
        Some(t) => Some(t@),
        None => None,
    }
}

/// Whether the two texts are equal.
pub fn same_text(a: &str, b: &str) -> (r: bool)
    ensures
        r == (a@ == b@),
{
    a.to_owned() == b.to_owned()
}

/// `a` followed by `b`.
pub fn concat2(a: &str, b: &str) -> (r: String)
    ensures
        r@ == a@ + b@,
{
    let mut r = a.to_owned();
    r.append(b);
    r
}

/// `a`, `b` and `c`, one after the other.
pub fn concat3(a: &str, b: &str, c: &str) -> (r: String)
    ensures
        r@ == a@ + b@ + c@,
{
    let mut r = a.to_owned();
    r.append(b);
    r.append(c);
    r
}

/// Whether `needle` stands in `s` at position `i`.
fn stands_at(s: &str, needle: &str, i: usize) -> (r: bool)
    requires
        i + needle@.len() <= s@.len(),
    ensures
        r == occurs_at(s@, needle@, i as int),
{
    let len: usize = s.unicode_len();
    let n: usize = needle.unicode_len();
    assert(i + n <= len);
    same_text(s.substring_char(i, i + n), needle)
}

/// The first position at or after `from` where `needle` stands in `s`, in characters.
pub fn find_from(s: &str, needle: &str, from: usize) -> (r: Option<usize>)
    requires
        from <= s@.len(),
    ensures
        r matches Some(i) ==> position_from(s@, needle@, from as int) == Some(i as int),
        r is None ==> position_from(s@, needle@, from as int) is None,
        r matches Some(i) ==> occurs_at(s@, needle@, i as int) && from <= i,
        s@.len() <= usize::MAX,
{
    let len: usize = s.unicode_len();
    let n: usize = needle.unicode_len();
    let mut i: usize = from;
    while n <= len - i
        invariant
            from <= i <= len,
            len == s@.len(),
            n == needle@.len(),
            position_from(s@, needle@, from as int) == position_from(s@, needle@, i as int),
        decreases len + 1 - i,
    {
        if stands_at(s, needle, i) {
            return Some(i);
        }
        proof {
            if i == len {
                assert(s@.subrange(i as int, i as int) == needle@);
            }
        }
        i = i + 1;
    }
    None
}

proof fn lemma_position_complete(s: Seq<char>, needle: Seq<char>, from: int, i: int)
    requires
        0 <= from <= i,
        occurs_at(s, needle, i),
    ensures
        position_from(s, needle, from) is Some,
    decreases i - from,
{
    if !occurs_at(s, needle, from) {
        lemma_position_complete(s, needle, from + 1, i);
    }
}

/// Whether `needle` stands anywhere in `s`.
pub fn contains(s: &str, needle: &str) -> (r: bool)
    ensures
        r == contains_text(s@, needle@),
{
    let found = find_from(s, needle, 0);
    proof {
        if contains_text(s@, needle@) {
            let i = choose|i: int| occurs_at(s@, needle@, i);
            lemma_position_complete(s@, needle@, 0, i);
        }
    }
    found.is_some()
}

/// Whether `s` begins with `prefix`.
pub fn starts_with(s: &str, prefix: &str) -> (r: bool)
    ensures
        r == begins_with(s@, prefix@),
{
    prefix.unicode_len() <= s.unicode_len() && stands_at(s, prefix, 0)
}

/// Whether `s` ends with `suffix`.
pub fn ends_with(s: &str, suffix: &str) -> (r: bool)
    ensures
        r == finishes_with(s@, suffix@),
{
    let len: usize = s.unicode_len();
    let n: usize = suffix.unicode_len();
    n <= len && stands_at(s, suffix, len - n)
}

/// Whether `a` stands before `b` when texts are ordered by their characters.
pub fn is_less(a: &str, b: &str) -> (r: bool)
    ensures
        r == text_less(a@, b@),
{
    let n: usize = a.unicode_len();
    let m: usize = b.unicode_len();
    let mut i: usize = 0;
    proof {
        assert(a@.skip(0) == a@);
        assert(b@.skip(0) == b@);
    }
    while i < n && i < m
        invariant
            i <= n == a@.len(),
            i <= m == b@.len(),
            text_less(a@, b@) == text_less(a@.skip(i as int), b@.skip(i as int)),
        decreases n - i,
    {
        let c = a.get_char(i);
        let d = b.get_char(i);
        proof {
            assert(a@.skip(i as int)[0] == c);
            assert(b@.skip(i as int)[0] == d);
            assert(a@.skip(i as int).drop_first() == a@.skip(i + 1));
            assert(b@.skip(i as int).drop_first() == b@.skip(i + 1));
        }
        if c != d {
            return c < d;
        }
        i = i + 1;
    }
    i < m
}

/// `n` spaces.
pub fn blank(n: usize) -> (r: String)
    ensures
        r@ == spaces(n as nat),
{
    let mut r = String::new();
    let mut i: usize = 0;
    proof {
        reveal_strlit(" ");
    }
    while i < n
        invariant
            i <= n,
            r@ == spaces(i as nat),
            " "@ == seq![' '],
        decreases n - i,
    {
        r.append(" ");
        i = i + 1;
    }
    r
}

/// `s`, filled up on the right with spaces to at least `width` characters.
pub fn pad_right(s: &str, width: usize) -> (r: String)
    ensures
        r@ == padded(s@, width as nat),
{
    let len: usize = s.unicode_len();
    let mut r = s.to_owned();
    if len < width {
        let fill = blank(width - len);
        r.append(fill.as_str());
    }
    r
}

fn digit_text(d: usize) -> (r: &'static str)
    requires
        d < 10,
    ensures
        r@ == digit(d as nat),
{
    match d {
        0 => "0",
        1 => "1",
        2 => "2",
        3 => "3",
        4 => "4",
        5 => "5",
        6 => "6",
        7 => "7",
        8 => "8",
        _ => "9",
    }
}

/// `n` written in decimal.
pub fn decimal_text(n: usize) -> (r: String)
    ensures
        r@ == decimal(n as nat),
    decreases n,
{
    if n < 10 {
        digit_text(n).to_owned()
    } else {
        let mut r = decimal_text(n / 10);
        r.append(digit_text(n % 10));
        r
    }
}

fn white_space(c: char) -> (r: bool)
    ensures
        r == is_white_space(c),
{
    ('\u{9}' <= c && c <= '\u{d}') || c == ' ' || c == '\u{85}' || c == '\u{a0}' || c == '\u{1680}'
        || ('\u{2000}' <= c && c <= '\u{200a}') || c == '\u{2028}' || c == '\u{2029}' || c
        == '\u{202f}' || c == '\u{205f}' || c == '\u{3000}'
}

/// `s` without white space at its two ends.
pub fn trim(s: &str) -> (r: String)
    ensures
        r@ == trimmed_end(trimmed_start(s@)),
{
    let len: usize = s.unicode_len();
    let mut from: usize = 0;
    proof {
        assert(s@.subrange(0, len as int) == s@);
    }
    while from < len && white_space(s.get_char(from))
        invariant
            from <= len == s@.len(),
            trimmed_start(s@) == trimmed_start(s@.subrange(from as int, len as int)),
        decreases len - from,
    {
        proof {
            let rest = s@.subrange(from as int, len as int);
            assert(rest[0] == s@[from as int]);
            assert(rest.subrange(1, rest.len() as int) == s@.subrange(from + 1, len as int));
        }
        from = from + 1;
    }
    let ghost kept = s@.subrange(from as int, len as int);
    proof {
        if from < len {
            assert(kept[0] == s@[from as int]);
        }
        assert(trimmed_start(s@) == kept);
    }
    let mut to: usize = len;
    while from < to && white_space(s.get_char(to - 1))
        invariant
            from <= to <= len == s@.len(),
            trimmed_end(kept) == trimmed_end(s@.subrange(from as int, to as int)),
        decreases to,
    {
        proof {
            let rest = s@.subrange(from as int, to as int);
            assert(rest.last() == s@[to - 1]);
            assert(rest.subrange(0, rest.len() - 1) == s@.subrange(from as int, to - 1));
        }
        to = to - 1;
    }
    proof {
        let rest = s@.subrange(from as int, to as int);
        if from < to {
            assert(rest.last() == s@[to - 1]);
        }
    }
    s.substring_char(from, to).to_owned()
}

/// The texts of `parts`, one after the other, with `separator` between them.
pub fn join(parts: &Vec<String>, separator: &str) -> (r: String)
    ensures
        r@ == joined(texts(parts@), separator@),
{
    let mut r = String::new();
    let mut i: usize = 0;
    let ghost all = texts(parts@);
    while i < parts.len()
        invariant
            i <= parts.len(),
            all == texts(parts@),
            r@ == joined(all.take(i as int), separator@),
        decreases parts.len() - i,
    {
        if i > 0 {
            r.append(separator);
        }
        r.append(parts[i].as_str());
        proof {
            assert(all.take(i + 1).drop_last() == all.take(i as int));
            if i == 0 {
                assert(r@ == all.take(1)[0]);
            }
        }
        i = i + 1;
    }
    proof {
        assert(all.take(parts.len() as int) == all);
    }
    r
}

/// Adds lines at the end of others.
pub fn add_lines(lines: &mut Vec<String>, more: Vec<String>)
    ensures
        texts(final(lines)@) == texts(old(lines)@) + texts(more@),
{
    let ghost before = lines@;
    let mut more = more;
    let ghost added = more@;
    lines.append(&mut more);
    proof {
        assert(texts(lines@) =~= texts(before) + texts(added));
    }
}

/// Adds one line at the end of others.
pub fn add_line(lines: &mut Vec<String>, line: String)
    ensures
        texts(final(lines)@) == texts(old(lines)@) + seq![line@],
{
    let ghost before = lines@;
    lines.push(line);
    proof {
        assert(texts(lines@) =~= texts(before) + seq![line@]);
    }
}

/// What the standard library's `Debug` writes for a text: the text between double quotes,
/// with the characters that are not printable escaped.
pub uninterp spec fn quoted(text: Seq<char>) -> Seq<char>;

/// `format!` with the `Debug` of `str`.
///
/// The result depends on the text alone; which characters are escaped, and how, is left to
/// the standard library.
#[verifier::external_body]
pub(crate) fn quote(text: &str) -> (r: String)
    ensures
        r@ == quoted(text@),
{
    format!("{:?}", text)
}

} // verus!
