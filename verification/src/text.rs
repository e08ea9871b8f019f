//! What the library assumes of the standard library's string functions that
//! the verifier's own library does not specify.

use vstd::prelude::*;
use vstd::utf8::{encode_utf8, valid_utf8};

verus! {

/// `core::str::from_utf8`: succeeds exactly on well-formed UTF-8, and the
/// string it returns is made of the very bytes it was given.
pub assume_specification[ core::str::from_utf8 ](v: &[u8]) -> (r: Result<
    &str,
    core::str::Utf8Error,
>)
    ensures
        r is Ok <==> valid_utf8(v@),
        r matches Ok(s) ==> encode_utf8(s@) == v@,
;

/// Whether `a` comes before `b` where strings are ordered by their code
/// points, the first that differs deciding, and a string coming after its
/// proper prefixes.
pub open spec fn string_lt(a: Seq<char>, b: Seq<char>) -> bool
    decreases a.len(),
{
    if b.len() == 0 {
        false
    } else if a.len() == 0 {
        true
    } else if a[0] != b[0] {
        (a[0] as u32) < (b[0] as u32)
    } else {
        string_lt(a.drop_first(), b.drop_first())
    }
}

/// `<` on `str`: the standard library orders strings lexicographically by
/// their bytes, which orders them by their code points.
#[verifier::external_body]
pub(crate) fn str_lt(a: &str, b: &str) -> (before: bool)
    ensures
        before == string_lt(a@, b@),
{
    a < b
}

/// No string comes before itself.
pub proof fn lemma_string_lt_irreflexive(a: Seq<char>)
    ensures
        !string_lt(a, a),
    decreases a.len(),
{
    if a.len() > 0 {
        lemma_string_lt_irreflexive(a.drop_first());
    }
}

/// What comes before a string comes before all that the string comes before.
pub proof fn lemma_string_lt_transitive(a: Seq<char>, b: Seq<char>, c: Seq<char>)
    requires
        string_lt(a, b),
        string_lt(b, c),
    ensures
        string_lt(a, c),
    decreases a.len(),
{
    if a.len() > 0 && b.len() > 0 && c.len() > 0 {
        if a[0] == b[0] && b[0] == c[0] {
            lemma_string_lt_transitive(a.drop_first(), b.drop_first(), c.drop_first());
        }
    }
}

/// Of two different strings one comes before the other.
pub proof fn lemma_string_lt_connected(a: Seq<char>, b: Seq<char>)
    requires
        a != b,
    ensures
        string_lt(a, b) || string_lt(b, a),
    decreases a.len(),
{
    if a.len() > 0 && b.len() > 0 {
        if a[0] == b[0] {
            if a.drop_first() == b.drop_first() {
                assert(a =~= seq![a[0]] + a.drop_first());
                assert(b =~= seq![b[0]] + b.drop_first());
            }
            lemma_string_lt_connected(a.drop_first(), b.drop_first());
        } else {
            assert(a[0] as u32 != b[0] as u32) by {
                vstd::utf8::char_u32_cast(a[0], a[0] as u32);
                vstd::utf8::char_u32_cast(b[0], b[0] as u32);
            }
        }
    } else if a.len() == 0 && b.len() == 0 {
        assert(a =~= b);
    }
}

/// Whether a character is one of the ten ASCII digits.
pub open spec fn is_digit(c: char) -> bool {
    '0' <= c <= '9'
}

/// The number that a digit stands for.
pub open spec fn digit_value(c: char) -> nat {
    (c as u32 - '0' as u32) as nat
}

/// The digit that stands for a number below ten.
pub open spec fn digit_of(n: nat) -> char {
    ((n % 10) as u32 + '0' as u32) as char
}

/// The number that a sequence of digits stands for in base ten.
pub open spec fn decimal_value(digits: Seq<char>) -> nat
    decreases digits.len(),
{
    if digits.len() == 0 {
        0
    } else {
        decimal_value(digits.drop_last()) * 10 + digit_value(digits.last())
    }
}

/// The digits of a number in base ten, without leading zeros.
pub open spec fn decimal(n: nat) -> Seq<char>
    decreases n,
{
    if n < 10 {
        seq![digit_of(n)]
    } else {
        decimal(n / 10).push(digit_of(n))
    }
}

/// The number that a string stands for, where it is made of ASCII digits
/// behind at most one plus sign and the number is at most `max`.
pub open spec fn parse_unsigned(s: Seq<char>, max: nat) -> Option<nat> {
    let digits = if s.len() > 0 && s[0] == '+' {
        s.skip(1)
    } else {
        s
    };
    if digits.len() > 0 && (forall|i: int| 0 <= i < digits.len() ==> is_digit(#[trigger] digits[i]))
        && decimal_value(digits) <= max {
        Some(decimal_value(digits))
    } else {
        None
    }
}

/// `str::parse::<u8>`: the standard library reads a number in base ten,
/// made of ASCII digits behind at most one plus sign, and fails where there
/// is no digit, another character, or a number that does not fit.
#[verifier::external_body]
pub(crate) fn parse_u8(s: &str) -> (parsed: Option<u8>)
    ensures
        match parse_unsigned(s@, u8::MAX as nat) {
            Some(n) => parsed == Some(n as u8),
            None => parsed is None,
        },
{
    s.parse::<u8>().ok()
}

/// `str::parse::<u32>`: as for `u8`.
#[verifier::external_body]
pub(crate) fn parse_u32(s: &str) -> (parsed: Option<u32>)
    ensures
        match parse_unsigned(s@, u32::MAX as nat) {
            Some(n) => parsed == Some(n as u32),
            None => parsed is None,
        },
{
    s.parse::<u32>().ok()
}

/// `str::parse::<usize>`: as for `u8`.
#[verifier::external_body]
pub(crate) fn parse_usize(s: &str) -> (parsed: Option<usize>)
    ensures
        match parse_unsigned(s@, usize::MAX as nat) {
            Some(n) => parsed == Some(n as usize),
            None => parsed is None,
        },
{
    s.parse::<usize>().ok()
}

/// The number that a string stands for, where it is made of ASCII digits
/// behind at most one sign and the number lies between `min` and `max`.
pub open spec fn parse_signed(s: Seq<char>, min: int, max: int) -> Option<int> {
    let signed = s.len() > 0 && (s[0] == '+' || s[0] == '-');
    let digits = if signed {
        s.skip(1)
    } else {
        s
    };
    let value = if s.len() > 0 && s[0] == '-' {
        -(decimal_value(digits) as int)
    } else {
        decimal_value(digits) as int
    };
    if digits.len() > 0 && (forall|i: int| 0 <= i < digits.len() ==> is_digit(#[trigger] digits[i]))
        && min <= value <= max {
        Some(value)
    } else {
        None
    }
}

/// `str::parse::<i8>`: the standard library reads a number in base ten,
/// made of ASCII digits behind at most one sign, and fails where there is no
/// digit, another character, or a number that does not fit.
#[verifier::external_body]
pub(crate) fn parse_i8(s: &str) -> (parsed: Option<i8>)
    ensures
        match parse_signed(s@, i8::MIN as int, i8::MAX as int) {
            Some(n) => parsed == Some(n as i8),
            None => parsed is None,
        },
{
    s.parse::<i8>().ok()
}

/// `u32::to_string`: the digits of the number in base ten, without leading
/// zeros.
#[verifier::external_body]
pub(crate) fn u32_to_string(n: u32) -> (digits: String)
    ensures
        digits@ == decimal(n as nat),
{
    n.to_string()
}

} // verus!
