//! Reading engine option names and values: ASCII case-insensitive names,
//! yes/no words, and unsigned decimal numbers.

use vstd::prelude::*;
use crate::text::{trim_str, trimmed_bytes};

verus! {

/// ASCII lower case of a byte (other bytes unchanged).
pub open spec fn ascii_lower(b: u8) -> u8 {
    if 65 <= b <= 90 {
        (b + 32) as u8
    } else {
        b
    }
}

/// Equal up to ASCII case.
pub open spec fn same_ignoring_case(a: Seq<u8>, b: Seq<u8>) -> bool {
    a.len() == b.len() && forall|i: int| 0 <= i < a.len() ==> ascii_lower(#[trigger] a[i]) == ascii_lower(b[i])
}

/// The option name `name` is `lit` up to ASCII case.
pub open spec fn named(name: &str, lit: &str) -> bool {
    same_ignoring_case(vstd::utf8::encode_utf8(name@), vstd::utf8::encode_utf8(lit@))
}

/// The trimmed value is `lit` up to ASCII case.
pub open spec fn value_is(value: &str, lit: &str) -> bool {
    same_ignoring_case(trimmed_bytes(value), vstd::utf8::encode_utf8(lit@))
}

/// A value meaning yes: `true`, `1`, `yes` or `on`, in any case, with
/// surrounding whitespace ignored.
pub open spec fn truthy(value: &str) -> bool {
    value_is(value, "true") || value_is(value, "1") || value_is(value, "yes") || value_is(value, "on")
}

/// An ASCII digit.
pub open spec fn is_digit(b: u8) -> bool {
    48 <= b <= 57
}

/// The number written by a sequence of digits.
pub open spec fn digits_value(s: Seq<u8>) -> nat
    decreases s.len(),
{
    if s.len() == 0 {
        0
    } else {
        digits_value(s.drop_last()) * 10 + (s.last() - 48) as nat
    }
}

/// Every byte is an ASCII digit.
pub open spec fn all_digits(d: Seq<u8>) -> bool {
    forall|i: int| 0 <= i < d.len() ==> is_digit(#[trigger] d[i])
}

/// The unsigned number written by `s` (an optional `+`, then one or more
/// digits), when it fits in a `usize`.
pub open spec fn usize_text(s: Seq<u8>) -> Option<usize> {
    let d = if s.len() > 0 && s[0] == 43 { s.drop_first() } else { s };
    if d.len() > 0 && all_digits(d) && digits_value(d) <= usize::MAX {
        Some(digits_value(d) as usize)
    } else {
        None
    }
}

/// The message for a value an option does not accept.
pub open spec fn invalid_value_text(option: Seq<char>, value: Seq<char>) -> Seq<char> {
    "invalid "@ + option + " value '"@ + value + "'"@
}

/// `str::eq_ignore_ascii_case`: equal up to ASCII case.
pub fn eq_ignore_ascii_case(a: &str, b: &str) -> (r: bool)
    ensures
        r == same_ignoring_case(vstd::utf8::encode_utf8(a@), vstd::utf8::encode_utf8(b@)),
{
    let x = a.as_bytes();
    let y = b.as_bytes();
    if x.len() != y.len() {
        return false;
    }
    let mut i: usize = 0;
    while i < x.len()
        invariant
            i <= x.len(),
            x.len() == y.len(),
            x@ == vstd::utf8::encode_utf8(a@),
            y@ == vstd::utf8::encode_utf8(b@),
            forall|j: int| 0 <= j < i ==> ascii_lower(#[trigger] x@[j]) == ascii_lower(y@[j]),
        decreases x.len() - i,
    {
        let p = x[i];
        let q = y[i];
        let lp: u8 = if 65 <= p && p <= 90 { p + 32 } else { p };
        let lq: u8 = if 65 <= q && q <= 90 { q + 32 } else { q };
        if lp != lq {
            assert(ascii_lower(x@[i as int]) != ascii_lower(y@[i as int]));
            return false;
        }
        i = i + 1;
    }
    true
}

/// The trimmed value equals `lit` up to ASCII case.
pub fn trimmed_value_is(value: &str, lit: &str) -> (r: bool)
    ensures
        r == value_is(value, lit),
{
    eq_ignore_ascii_case(trim_str(value), lit)
}

/// Whether a value means yes.
pub fn is_truthy(value: &str) -> (r: bool)
    ensures
        r == truthy(value),
{
    trimmed_value_is(value, "true") || trimmed_value_is(value, "1") || trimmed_value_is(value, "yes")
        || trimmed_value_is(value, "on")
}

/// Digits of a longer prefix never write a smaller number.
proof fn lemma_digits_grow(d: Seq<u8>, i: int, k: int)
    requires
        0 <= i <= k <= d.len(),
    ensures
        digits_value(d.take(i)) <= digits_value(d.take(k)),
    decreases k - i,
{
    if k > i {
        lemma_digits_grow(d, i, k - 1);
        assert(d.take(k).drop_last() =~= d.take(k - 1));
    }
}

/// `str::parse::<usize>` on the trimmed value.
pub fn parse_usize_value(value: &str) -> (r: Option<usize>)
    ensures
        r == usize_text(trimmed_bytes(value)),
{
    let t = trim_str(value);
    let s = t.as_bytes();
    let ghost sb = s@;
    let start: usize = if s.len() > 0 && s[0] == 43 { 1 } else { 0 };
    let ghost d = if sb.len() > 0 && sb[0] == 43 { sb.drop_first() } else { sb };
    assert(d =~= sb.subrange(start as int, sb.len() as int));
    if s.len() == start {
        return None;
    }
    let mut acc: usize = 0;
    let mut i: usize = start;
    assert(d.take(0) =~= Seq::<u8>::empty());
    while i < s.len()
        invariant
            start <= i <= s.len(),
            s@ == sb,
            sb == trimmed_bytes(value),
            d == (if sb.len() > 0 && sb[0] == 43 { sb.drop_first() } else { sb }),
            d.len() > 0,
            d == sb.subrange(start as int, sb.len() as int),
            forall|j: int| 0 <= j < i - start ==> is_digit(#[trigger] d[j]),
            acc == digits_value(d.take(i - start)),
        decreases s.len() - i,
    {
        let b = s[i];
        assert(d[i - start] == b);
        if b < 48 || b > 57 {
            assert(!is_digit(d[i - start]));
            assert(!all_digits(d));
            return None;
        }
        assert(d.take(i - start + 1).drop_last() =~= d.take(i - start));
        assert(d.take(i - start + 1).last() == b);
        let next = match acc.checked_mul(10) {
            Some(m) => m.checked_add((b - 48) as usize),
            None => None,
        };
        match next {
            Some(n) => {
                acc = n;
            },
            None => {
                proof {
                    lemma_digits_grow(d, i - start + 1, d.len() as int);
                    assert(d.take(d.len() as int) =~= d);
                }
                return None;
            },
        }
        i = i + 1;
    }
    assert(d.take(d.len() as int) =~= d);
    Some(acc)
}

/// The message for a value an option does not accept.
pub fn invalid_value(option: &str, value: &str) -> (r: String)
    ensures
        r@ == invalid_value_text(option@, value@),
{
    let mut s = String::from_str("invalid ");
    s.append(option);
    s.append(" value '");
    s.append(value);
    s.append("'");
    s
}

} // verus!
