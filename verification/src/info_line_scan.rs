//! Scanning search-info lines: finding a phrase, reading the word after
//! it, and reading a signed decimal number.

use vstd::prelude::*;
use crate::text::is_white_space;

verus! {

/// `p` occurs in `s` at index `i`.
pub open spec fn occurs_at(s: Seq<char>, p: Seq<char>, i: int) -> bool {
    0 <= i && i + p.len() <= s.len() && s.subrange(i, i + p.len()) == p
}

/// The first index at or after `i` where `p` occurs in `s`.
pub open spec fn find_from(s: Seq<char>, p: Seq<char>, i: int) -> Option<int>
    decreases s.len() + 1 - i,
{
    if i < 0 || i + p.len() > s.len() {
        None
    } else if occurs_at(s, p, i) {
        Some(i)
    } else {
        find_from(s, p, i + 1)
    }
}

/// A found index is an occurrence at or after the start.
pub proof fn lemma_find_from_occurs(s: Seq<char>, p: Seq<char>, i: int)
    ensures
        find_from(s, p, i) matches Some(k) ==> i <= k && occurs_at(s, p, k),
    decreases s.len() + 1 - i,
{
    if !(i < 0 || i + p.len() > s.len()) && !occurs_at(s, p, i) {
        lemma_find_from_occurs(s, p, i + 1);
    }
}

/// The first index after whitespace starting at `i`.
pub open spec fn skip_white_space(s: Seq<char>, i: int) -> int
    decreases s.len() - i,
{
    if 0 <= i < s.len() && is_white_space(s[i]) {
        skip_white_space(s, i + 1)
    } else {
        i
    }
}

/// The end of the word starting at `i`: the first whitespace at or after
/// it, or the end of `s`.
pub open spec fn word_end(s: Seq<char>, i: int) -> int
    decreases s.len() - i,
{
    if 0 <= i < s.len() && !is_white_space(s[i]) {
        word_end(s, i + 1)
    } else {
        i
    }
}

/// The first whitespace-separated word of `s` at or after index `i`.
pub open spec fn first_word_after(s: Seq<char>, i: int) -> Option<Seq<char>> {
    let j = skip_white_space(s, i);
    if j < s.len() {
        Some(s.subrange(j, word_end(s, j)))
    } else {
        None
    }
}

/// A decimal digit character.
pub open spec fn is_digit_char(c: char) -> bool {
    '0' <= c <= '9'
}

/// The number written by decimal digit characters.
pub open spec fn digit_chars_value(t: Seq<char>) -> nat
    decreases t.len(),
{
    if t.len() == 0 {
        0
    } else {
        digit_chars_value(t.drop_last()) * 10 + (t.last() as nat - 48) as nat
    }
}

/// Every character is a decimal digit.
pub open spec fn all_digit_chars(t: Seq<char>) -> bool {
    forall|i: int| 0 <= i < t.len() ==> is_digit_char(#[trigger] t[i])
}

/// The `i32` written by `t`: an optional sign, then one or more digits,
/// when in range (what `str::parse::<i32>` accepts).
pub open spec fn i32_text(t: Seq<char>) -> Option<i32> {
    let signed = t.len() > 0 && (t[0] == '+' || t[0] == '-');
    let d = if signed { t.drop_first() } else { t };
    let v: int = if t.len() > 0 && t[0] == '-' { -digit_chars_value(d) } else { digit_chars_value(d) as int };
    if d.len() > 0 && all_digit_chars(d) && i32::MIN <= v <= i32::MAX {
        Some(v as i32)
    } else {
        None
    }
}

/// The characters of a string.
pub fn chars_of(s: &str) -> (r: Vec<char>)
    ensures
        r@ == s@,
{
    let n = s.unicode_len();
    let mut out: Vec<char> = Vec::with_capacity(n);
    let mut i: usize = 0;
    while i < n
        invariant
            n == s@.len(),
            i <= n,
            out@ == s@.take(i as int),
        decreases n - i,
    {
        out.push(s.get_char(i));
        i = i + 1;
        assert(out@ =~= s@.take(i as int));
    }
    assert(s@.take(n as int) =~= s@);
    out
}

/// Whether `c` is whitespace (the Unicode `White_Space` characters).
pub fn is_white_space_char(c: char) -> (r: bool)
    ensures
        r == is_white_space(c),
{
    c == '\t' || c == '\n' || c == '\u{0B}' || c == '\u{0C}' || c == '\r' || c == ' ' || c == '\u{85}'
        || c == '\u{A0}' || c == '\u{1680}' || ('\u{2000}' <= c && c <= '\u{200A}') || c == '\u{2028}'
        || c == '\u{2029}' || c == '\u{202F}' || c == '\u{205F}' || c == '\u{3000}'
}

/// The first index at or after `from` where `p` occurs in `s`.
pub fn find_phrase(s: &Vec<char>, p: &Vec<char>, from: usize) -> (r: Option<usize>)
    requires
        from <= s@.len(),
    ensures
        r matches Some(i) ==> find_from(s@, p@, from as int) == Some(i as int),
        r is None ==> find_from(s@, p@, from as int) is None,
{
    let mut i: usize = from;
    while i <= s.len() && p.len() <= s.len() - i
        invariant
            from <= i,
            i <= s@.len() + 1,
            find_from(s@, p@, from as int) == find_from(s@, p@, i as int),
        decreases s@.len() + 1 - i,
    {
        let mut k: usize = 0;
        let mut same = true;
        while k < p.len()
            invariant
                k <= p@.len(),
                i + p@.len() <= s@.len(),
                same == (forall|q: int| 0 <= q < k ==> s@[i + q] == p@[q]),
            s@.len() <= usize::MAX,
        decreases p@.len() - k,
        {
            assert(i + k < s@.len());
            if s[i + k] != p[k] {
                same = false;
            }
            k = k + 1;
        }
        if same {
            assert(s@.subrange(i as int, i + p@.len()) =~= p@);
            return Some(i);
        }
        assert(!occurs_at(s@, p@, i as int)) by {
            if occurs_at(s@, p@, i as int) {
                assert forall|q: int| 0 <= q < p@.len() implies s@[i + q] == p@[q] by {
                    assert(s@.subrange(i as int, i + p@.len())[q] == s@[i + q]);
                }
            }
        }
        i = i + 1;
    }
    None
}

/// The first word of `s` at or after index `from`, with its bounds.
pub fn word_after(s: &Vec<char>, from: usize) -> (r: Option<(usize, usize)>)
    requires
        from <= s@.len(),
    ensures
        r is None ==> first_word_after(s@, from as int) is None,
        r matches Some((j, e)) ==> j <= e <= s@.len() && first_word_after(s@, from as int) == Some(s@.subrange(j as int, e as int)),
{
    let mut j: usize = from;
    while j < s.len() && is_white_space_char(s[j])
        invariant
            from <= j <= s@.len(),
            skip_white_space(s@, from as int) == skip_white_space(s@, j as int),
        decreases s@.len() - j,
    {
        j = j + 1;
    }
    if j >= s.len() {
        return None;
    }
    let mut e: usize = j;
    while e < s.len() && !is_white_space_char(s[e])
        invariant
            j <= e <= s@.len(),
            word_end(s@, j as int) == word_end(s@, e as int),
        decreases s@.len() - e,
    {
        e = e + 1;
    }
    Some((j, e))
}

/// Digits of a longer prefix never write a smaller number.
proof fn lemma_digit_chars_grow(d: Seq<char>, i: int, k: int)
    requires
        0 <= i <= k <= d.len(),
    ensures
        digit_chars_value(d.take(i)) <= digit_chars_value(d.take(k)),
    decreases k - i,
{
    if k > i {
        lemma_digit_chars_grow(d, i, k - 1);
        assert(d.take(k).drop_last() =~= d.take(k - 1));
    }
}

/// `str::parse::<i32>` on the characters `t[from..to]`.
pub fn parse_i32_chars(t: &Vec<char>, from: usize, to: usize) -> (r: Option<i32>)
    requires
        from <= to <= t@.len(),
    ensures
        r == i32_text(t@.subrange(from as int, to as int)),
{
    let ghost w = t@.subrange(from as int, to as int);
    if from == to {
        return None;
    }
    let first = t[from];
    let negative = first == '-';
    let start: usize = if first == '+' || first == '-' { from + 1 } else { from };
    let ghost d = if w.len() > 0 && (w[0] == '+' || w[0] == '-') { w.drop_first() } else { w };
    assert(d =~= t@.subrange(start as int, to as int));
    if start == to {
        return None;
    }
    let limit: u64 = if negative { 2147483648 } else { 2147483647 };
    let mut acc: u64 = 0;
    let mut i: usize = start;
    assert(d.take(0) =~= Seq::<char>::empty());
    while i < to
        invariant
            start <= i <= to,
            to <= t@.len(),
            d == t@.subrange(start as int, to as int),
            d.len() > 0,
            w == t@.subrange(from as int, to as int),
            d == (if w.len() > 0 && (w[0] == '+' || w[0] == '-') { w.drop_first() } else { w }),
            negative == (w.len() > 0 && w[0] == '-'),
            limit == (if negative { 2147483648u64 } else { 2147483647u64 }),
            forall|j: int| 0 <= j < i - start ==> is_digit_char(#[trigger] d[j]),
            acc == digit_chars_value(d.take(i - start)),
            acc <= limit,
        decreases to - i,
    {
        let c = t[i];
        assert(d[i - start] == c);
        if !('0' <= c && c <= '9') {
            assert(!all_digit_chars(d));
            return None;
        }
        assert(d.take(i - start + 1).drop_last() =~= d.take(i - start));
        assert(d.take(i - start + 1).last() == c);
        let digit: u64 = (c as u32 - 48) as u64;
        let next: u64 = acc * 10 + digit;
        if next > limit {
            proof {
                lemma_digit_chars_grow(d, i - start + 1, d.len() as int);
                assert(d.take(d.len() as int) =~= d);
            }
            return None;
        }
        acc = next;
        i = i + 1;
    }
    assert(d.take(d.len() as int) =~= d);
    if negative {
        Some((0i64 - acc as i64) as i32)
    } else {
        Some(acc as i32)
    }
}

} // verus!
