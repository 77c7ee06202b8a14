//! What the operations on texts mean.
use crate::analyzer::bare_name;
use crate::text::{
    begins_with, contains_text, decimal, digit, finishes_with, is_white_space, joined, occurs_at,
    padded, position_from, text_less, trimmed_end, trimmed_start,
};
use vstd::prelude::*;

verus! {

/// A text begins with another one exactly if something can be put behind that one to give it.
pub proof fn law_begins_with(s: Seq<char>, prefix: Seq<char>)
    ensures
        begins_with(s, prefix) <==> exists|rest: Seq<char>| s == #[trigger] (prefix + rest),
{
    if begins_with(s, prefix) {
        let n = prefix.len() as int;
        assert(s =~= s.subrange(0, n) + s.subrange(n, s.len() as int));
        assert(s == prefix + s.subrange(n, s.len() as int));
    }
    if exists|rest: Seq<char>| s == #[trigger] (prefix + rest) {
        assert(s.subrange(0, prefix.len() as int) =~= prefix);
    }
}

/// A text ends with another one exactly if something can be put before that one to give it.
pub proof fn law_finishes_with(s: Seq<char>, suffix: Seq<char>)
    ensures
        finishes_with(s, suffix) <==> exists|front: Seq<char>| s == #[trigger] (front + suffix),
{
    if finishes_with(s, suffix) {
        let n = s.len() - suffix.len();
        assert(s =~= s.subrange(0, n) + s.subrange(n, s.len() as int));
        assert(s == s.subrange(0, n) + suffix);
    }
    if exists|front: Seq<char>| s == #[trigger] (front + suffix) {
        let front = choose|front: Seq<char>| s == #[trigger] (front + suffix);
        assert(s.len() - suffix.len() == front.len());
        assert(s.subrange(front.len() as int, s.len() as int) =~= suffix);
    }
}

/// A text contains another one exactly if something can be put before and behind that one to
/// give it.
pub proof fn law_contains_text(s: Seq<char>, needle: Seq<char>)
    ensures
        contains_text(s, needle) <==> exists|front: Seq<char>, rest: Seq<char>|
            s == #[trigger] (front + needle + rest),
{
    if contains_text(s, needle) {
        let i = choose|i: int| occurs_at(s, needle, i);
        let front = s.subrange(0, i);
        let rest = s.subrange(i + needle.len(), s.len() as int);
        assert(s =~= front + s.subrange(i, i + needle.len()) + rest);
        assert(s == front + needle + rest);
    }
    if exists|front: Seq<char>, rest: Seq<char>| s == #[trigger] (front + needle + rest) {
        let (front, rest) = choose|front: Seq<char>, rest: Seq<char>|
            s == #[trigger] (front + needle + rest);
        let i = front.len() as int;
        assert(s.subrange(i, i + needle.len()) =~= needle);
        assert(occurs_at(s, needle, i));
    }
}

/// Whether `needle` stands in `s` behind the first `i` characters.
pub open spec fn stands_at(s: Seq<char>, needle: Seq<char>, i: int) -> bool {
    &&& 0 <= i
    &&& i + needle.len() <= s.len()
    &&& forall|k: int| 0 <= k < needle.len() ==> s[i + k] == #[trigger] needle[k]
}

/// The position of a text in another one is the first place, at or behind a given one, where it
/// stands; there is none exactly if it stands nowhere there.
pub proof fn law_position(s: Seq<char>, needle: Seq<char>, from: int)
    requires
        0 <= from,
    ensures
        position_from(s, needle, from) matches Some(i) ==> {
            &&& from <= i
            &&& stands_at(s, needle, i)
            &&& forall|j: int| from <= j < i ==> !#[trigger] stands_at(s, needle, j)
        },
        position_from(s, needle, from) is None ==> forall|j: int|
            from <= j ==> !#[trigger] stands_at(s, needle, j),
    decreases s.len() + 1 - from,
{
    if from + needle.len() <= s.len() {
        lemma_stands(s, needle, from);
        if !occurs_at(s, needle, from) {
            law_position(s, needle, from + 1);
        }
    }
}

proof fn lemma_stands(s: Seq<char>, needle: Seq<char>, i: int)
    ensures
        occurs_at(s, needle, i) <==> stands_at(s, needle, i),
{
    if occurs_at(s, needle, i) {
        assert forall|k: int| 0 <= k < needle.len() implies s[i + k] == #[trigger] needle[k] by {
            assert(s.subrange(i, i + needle.len())[k] == needle[k]);
        }
    }
    if stands_at(s, needle, i) {
        assert(s.subrange(i, i + needle.len()) =~= needle);
    }
}

/// Whether a text holds no quotation mark.
pub open spec fn is_unquoted(s: Seq<char>) -> bool {
    forall|k: int| 0 <= k < s.len() ==> #[trigger] s[k] != '"'
}

/// The bare name in a representation is the text between the quotation marks that follow the
/// first `name: `. A representation without such marks is taken whole.
pub proof fn law_bare_name(debug: Seq<char>, front: Seq<char>, name: Seq<char>, rest: Seq<char>)
    ensures
        debug == front + "name: \""@ + name + "\""@ + rest && is_unquoted(name) && (forall|j: int|
            0 <= j < front.len() ==> !#[trigger] stands_at(debug, "name: \""@, j)) ==> bare_name(
            debug,
        ) == name,
        (forall|j: int| !#[trigger] stands_at(debug, "name: \""@, j)) ==> bare_name(debug) == debug,
        debug == front + "name: \""@ + rest && is_unquoted(rest) && (forall|j: int|
            0 <= j < front.len() ==> !#[trigger] stands_at(debug, "name: \""@, j)) ==> bare_name(
            debug,
        ) == debug,
{
    let mark = "name: \""@;
    let end = "\""@;
    reveal_strlit("name: \"");
    reveal_strlit("\"");
    assert(mark.len() == 7);
    assert(end.len() == 1 && end[0] == '"');
    law_position(debug, mark, 0);
    let n = front.len() as int;
    if debug == front + mark + name + end + rest && is_unquoted(name) && (forall|j: int|
        0 <= j < front.len() ==> !#[trigger] stands_at(debug, mark, j)) {
        assert forall|k: int| 0 <= k < 7 implies debug[n + k] == #[trigger] mark[k] by {}
        assert(stands_at(debug, mark, n));
        let i = position_from(debug, mark, 0)->0;
        assert(i == n);
        law_position(debug, end, n + 7);
        assert(debug[n + 7 + name.len()] == '"');
        assert(stands_at(debug, end, n + 7 + name.len()));
        let j = position_from(debug, end, n + 7)->0;
        if j < n + 7 + name.len() {
            assert(debug[j + 0] == end[0]);
            assert(name[j - n - 7] == '"');
        }
        assert(debug.subrange(n + 7, n + 7 + name.len()) =~= name);
    }
    if debug == front + mark + rest && is_unquoted(rest) && (forall|j: int|
        0 <= j < front.len() ==> !#[trigger] stands_at(debug, mark, j)) {
        assert forall|k: int| 0 <= k < 7 implies debug[n + k] == #[trigger] mark[k] by {}
        assert(stands_at(debug, mark, n));
        assert(position_from(debug, mark, 0)->0 == n);
        law_position(debug, end, n + 7);
        if let Some(j) = position_from(debug, end, n + 7) {
            assert(debug[j + 0] == end[0]);
            assert(rest[j - n - 7] == '"');
        }
    }
}

/// A padded text is the text with spaces behind it, exactly as many as it takes to reach the
/// width.
pub proof fn law_padded(s: Seq<char>, width: nat)
    ensures
        s.len() >= width ==> padded(s, width) == s,
        s.len() < width ==> padded(s, width).len() == width,
        forall|i: int| 0 <= i < s.len() ==> #[trigger] padded(s, width)[i] == s[i],
        forall|i: int|
            s.len() <= i < padded(s, width).len() ==> #[trigger] padded(s, width)[i] == ' ',
{
}

/// The number that a row of decimal digits stands for.
pub open spec fn number_of(s: Seq<char>) -> int
    decreases s.len(),
{
    if s.len() == 0 {
        0
    } else {
        10 * number_of(s.drop_last()) + (s.last() as int - '0' as int)
    }
}

/// A number is written with the digits from 0 to 9 that stand for it, without leading zeros.
pub proof fn law_decimal(n: nat)
    ensures
        decimal(n).len() > 0,
        forall|i: int| 0 <= i < decimal(n).len() ==> '0' <= #[trigger] decimal(n)[i] <= '9',
        number_of(decimal(n)) == n,
        decimal(n).len() > 1 ==> decimal(n)[0] != '0',
        n > 0 ==> decimal(n)[0] != '0',
    decreases n,
{
    let d = digit(n % 10);
    lemma_digit(n % 10);
    if n < 10 {
        assert(n % 10 == n);
        assert(d.drop_last() =~= Seq::empty());
        reveal_with_fuel(number_of, 2);
    } else {
        law_decimal(n / 10);
        let whole = decimal(n);
        assert(whole.drop_last() =~= decimal(n / 10));
        assert(whole.last() == d[0]);
        assert(whole[0] == decimal(n / 10)[0]);
        assert forall|i: int| 0 <= i < whole.len() implies '0' <= #[trigger] whole[i] <= '9' by {
            if i < whole.len() - 1 {
                assert(whole[i] == decimal(n / 10)[i]);
            }
        }
    }
}

proof fn lemma_digit(d: nat)
    requires
        d < 10,
    ensures
        digit(d).len() == 1,
        digit(d)[0] as int == '0' as int + d,
{
    reveal_strlit("0");
    reveal_strlit("1");
    reveal_strlit("2");
    reveal_strlit("3");
    reveal_strlit("4");
    reveal_strlit("5");
    reveal_strlit("6");
    reveal_strlit("7");
    reveal_strlit("8");
    reveal_strlit("9");
}

/// The white space: the characters from tab to carriage return, the space, the next line, and
/// the spaces and separators of the other scripts.
pub proof fn law_white_space(c: char)
    ensures
        ({
            let n = c as u32;
            is_white_space(c) <==> 0x9 <= n <= 0xd || n == 0x20 || n == 0x85 || n == 0xa0 || n
                == 0x1680 || 0x2000 <= n <= 0x200a || n == 0x2028 || n == 0x2029 || n == 0x202f
                || n == 0x205f || n == 0x3000
        }),
{
}

/// Whether a text is nothing but white space.
pub open spec fn is_blank(s: Seq<char>) -> bool {
    forall|i: int| 0 <= i < s.len() ==> is_white_space(#[trigger] s[i])
}

/// Trimming takes the white space at an end off a text, all of it and nothing else.
pub proof fn law_trimmed(s: Seq<char>)
    ensures
        exists|front: Seq<char>| is_blank(front) && s == #[trigger] (front + trimmed_start(s)),
        trimmed_start(s).len() > 0 ==> !is_white_space(trimmed_start(s)[0]),
        exists|back: Seq<char>| is_blank(back) && s == #[trigger] (trimmed_end(s) + back),
        trimmed_end(s).len() > 0 ==> !is_white_space(trimmed_end(s).last()),
    decreases s.len(),
{
    let none = Seq::<char>::empty();
    if s.len() > 0 && is_white_space(s[0]) {
        let rest = s.subrange(1, s.len() as int);
        law_trimmed(rest);
        let front = choose|front: Seq<char>|
            is_blank(front) && rest == #[trigger] (front + trimmed_start(rest));
        let longer = seq![s[0]] + front;
        assert(is_blank(longer)) by {
            assert forall|i: int| 0 <= i < longer.len() implies is_white_space(
                #[trigger] longer[i],
            ) by {
                if i > 0 {
                    assert(longer[i] == front[i - 1]);
                }
            }
        }
        assert(s =~= seq![s[0]] + rest);
        assert(s =~= longer + trimmed_start(s));
    } else {
        assert(is_blank(none));
        assert(s =~= none + trimmed_start(s));
    }
    if s.len() > 0 && is_white_space(s.last()) {
        let rest = s.subrange(0, s.len() - 1);
        law_trimmed(rest);
        let back = choose|back: Seq<char>|
            is_blank(back) && rest == #[trigger] (trimmed_end(rest) + back);
        let longer = back.push(s.last());
        assert(is_blank(longer)) by {
            assert forall|i: int| 0 <= i < longer.len() implies is_white_space(
                #[trigger] longer[i],
            ) by {
                if i < back.len() {
                    assert(longer[i] == back[i]);
                }
            }
        }
        assert(s =~= rest.push(s.last()));
        assert(s =~= trimmed_end(s) + longer);
    } else {
        assert(is_blank(none));
        assert(s =~= trimmed_end(s) + none);
    }
}

/// Texts are joined in order, with the separator between any two of them and nowhere else.
pub proof fn law_joined(parts: Seq<Seq<char>>, more: Seq<Seq<char>>, one: Seq<char>, separator: Seq<char>)
    ensures
        joined(Seq::empty(), separator) == Seq::<char>::empty(),
        joined(seq![one], separator) == one,
        parts.len() > 0 && more.len() > 0 ==> joined(parts + more, separator) == joined(
            parts,
            separator,
        ) + separator + joined(more, separator),
    decreases more.len(),
{
    if parts.len() > 0 && more.len() > 0 {
        let all = parts + more;
        assert(all.drop_last() =~= parts + more.drop_last());
        assert(all.last() == more.last());
        if more.len() == 1 {
            assert(parts + more.drop_last() =~= parts);
        } else {
            law_joined(parts, more.drop_last(), one, separator);
            assert(joined(all, separator) =~= joined(parts, separator) + separator + joined(
                more,
                separator,
            ));
        }
    }
}

/// Whether two texts are equal in front of place `k` and `a` goes on with the smaller character
/// there, or ends there while `b` goes on.
pub open spec fn is_smaller_at(a: Seq<char>, b: Seq<char>, k: int) -> bool {
    &&& 0 <= k <= a.len()
    &&& k < b.len()
    &&& forall|i: int| 0 <= i < k ==> #[trigger] a[i] == b[i]
    &&& k == a.len() || a[k] < b[k]
}

/// Texts are ordered by the first character in which they differ, and a text stands behind the
/// texts that it begins with.
pub proof fn law_text_order(a: Seq<char>, b: Seq<char>)
    ensures
        text_less(a, b) <==> exists|k: int| is_smaller_at(a, b, k),
    decreases a.len(),
{
    if a.len() == 0 || b.len() == 0 {
        if b.len() > 0 {
            assert(is_smaller_at(a, b, 0));
        }
    } else if a[0] != b[0] {
        if a[0] < b[0] {
            assert(is_smaller_at(a, b, 0));
        } else if exists|k: int| is_smaller_at(a, b, k) {
            let k = choose|k: int| is_smaller_at(a, b, k);
            if k > 0 {
                assert(a[0] == b[0]);
            }
        }
    } else {
        let x = a.drop_first();
        let y = b.drop_first();
        law_text_order(x, y);
        if text_less(x, y) {
            let k = choose|k: int| is_smaller_at(x, y, k);
            assert forall|i: int| 0 <= i < k + 1 implies #[trigger] a[i] == b[i] by {
                if i > 0 {
                    assert(x[i - 1] == y[i - 1]);
                }
            }
            assert(is_smaller_at(a, b, k + 1));
        }
        if exists|k: int| is_smaller_at(a, b, k) {
            let k = choose|k: int| is_smaller_at(a, b, k);
            assert(k > 0);
            assert forall|i: int| 0 <= i < k - 1 implies #[trigger] x[i] == y[i] by {
                assert(a[i + 1] == b[i + 1]);
            }
            assert(is_smaller_at(x, y, k - 1));
        }
    }
}

} // verus!
