//! Text helpers shared by the notation and FEN code: Unicode whitespace,
//! trimming, ASCII digits, and single-character string pieces.

use vstd::prelude::*;

verus! {

/// The characters with the Unicode `White_Space` property (what
/// `char::is_whitespace` tests).
pub open spec fn is_white_space(c: char) -> bool {
    ||| c == '\t'
    ||| c == '\n'
    ||| c == '\u{0B}'
    ||| c == '\u{0C}'
    ||| c == '\r'
    ||| c == ' '
    ||| c == '\u{85}'
    ||| c == '\u{A0}'
    ||| c == '\u{1680}'
    ||| ('\u{2000}' <= c && c <= '\u{200A}')
    ||| c == '\u{2028}'
    ||| c == '\u{2029}'
    ||| c == '\u{202F}'
    ||| c == '\u{205F}'
    ||| c == '\u{3000}'
}

/// `s` without its leading whitespace.
pub open spec fn trim_start_chars(s: Seq<char>) -> Seq<char>
    decreases s.len(),
{
    if s.len() > 0 && is_white_space(s[0]) {
        trim_start_chars(s.drop_first())
    } else {
        s
    }
}

/// `s` without its trailing whitespace.
pub open spec fn trim_end_chars(s: Seq<char>) -> Seq<char>
    decreases s.len(),
{
    if s.len() > 0 && is_white_space(s.last()) {
        trim_end_chars(s.drop_last())
    } else {
        s
    }
}

/// `s` without leading and trailing whitespace.
pub open spec fn trim_chars(s: Seq<char>) -> Seq<char> {
    trim_end_chars(trim_start_chars(s))
}

/// The UTF-8 bytes of `s` after trimming.
pub open spec fn trimmed_bytes(s: &str) -> Seq<u8> {
    vstd::utf8::encode_utf8(trim_chars(s@))
}

/// `str::trim`: the string slice with leading and trailing whitespace
/// (Unicode `White_Space`) removed.
#[verifier::external_body]
pub(crate) fn trim_str<'a>(s: &'a str) -> (r: &'a str)
    ensures
        r@ == trim_chars(s@),
{
    s.trim()
}

/// A string without surrounding whitespace is its own trim.
pub proof fn lemma_trim_no_space(s: Seq<char>)
    requires
        s.len() > 0 ==> !is_white_space(s[0]) && !is_white_space(s.last()),
    ensures
        trim_chars(s) == s,
{
}

/// The one-character string for a file letter `a`..`h`.
pub fn file_letter(f: u8) -> (r: &'static str)
    requires
        f < 8,
    ensures
        r@ == seq![(f + 97) as char],
{
    proof {
        reveal_strlit("a");
        reveal_strlit("b");
        reveal_strlit("c");
        reveal_strlit("d");
        reveal_strlit("e");
        reveal_strlit("f");
        reveal_strlit("g");
        reveal_strlit("h");
    }
    if f == 0 {
        "a"
    } else if f == 1 {
        "b"
    } else if f == 2 {
        "c"
    } else if f == 3 {
        "d"
    } else if f == 4 {
        "e"
    } else if f == 5 {
        "f"
    } else if f == 6 {
        "g"
    } else {
        "h"
    }
}

/// The one-character string for a decimal digit.
pub fn digit_str(d: u8) -> (r: &'static str)
    requires
        d < 10,
    ensures
        r@ == seq![(d + 48) as char],
{
    proof {
        reveal_strlit("0");
        reveal_strlit("1");
        reveal_strlit("2");
        reveal_strlit("3");
        reveal_strlit("4");
        reveal_strlit("5");
        reveal_strlit("6");
        reveal_strlit("7");
        reveal_strlit("8");
        reveal_strlit("9");
    }
    if d == 0 {
        "0"
    } else if d == 1 {
        "1"
    } else if d == 2 {
        "2"
    } else if d == 3 {
        "3"
    } else if d == 4 {
        "4"
    } else if d == 5 {
        "5"
    } else if d == 6 {
        "6"
    } else if d == 7 {
        "7"
    } else if d == 8 {
        "8"
    } else {
        "9"
    }
}

/// Decimal digits of a natural number, most significant first, no leading
/// zeros (zero is "0").
pub open spec fn decimal_chars(n: nat) -> Seq<char>
    decreases n,
{
    if n < 10 {
        seq![(n + 48) as char]
    } else {
        decimal_chars(n / 10).push(((n % 10) + 48) as char)
    }
}

/// Append the decimal form of `n` to `s`.
pub fn append_decimal(s: &mut String, n: u64)
    ensures
        final(s)@ == old(s)@ + decimal_chars(n as nat),
    decreases n,
{
    if n < 10 {
        s.append(digit_str(n as u8));
    } else {
        append_decimal(s, n / 10);
        s.append(digit_str((n % 10) as u8));
    }
}

} // verus!
