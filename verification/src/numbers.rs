//! Decimal integer fields of the game's tables: what a numeric field means,
//! and trusted readers for the two integer widths the tables use.

use vstd::prelude::*;

verus! {

/// An ASCII decimal digit.
pub open spec fn is_digit(c: char) -> bool {
    48 <= c as int <= 57
}

/// The value of one digit.
pub open spec fn digit_value(c: char) -> int {
    c as int - 48
}

/// Every character is a digit (of a non-empty run).
pub open spec fn all_digits(s: Seq<char>) -> bool {
    forall|i: int| 0 <= i < s.len() ==> is_digit(#[trigger] s[i])
}

/// The value of a run of decimal digits, most significant first.
pub open spec fn digits_value(s: Seq<char>) -> int
    decreases s.len(),
{
    if s.len() == 0 {
        0
    } else {
        digits_value(s.drop_last()) * 10 + digit_value(s.last())
    }
}

/// The digit run of an integer literal: what follows an optional sign.
pub open spec fn literal_digits(s: Seq<char>) -> Seq<char> {
    if s.len() > 0 && (s[0] == '-' || s[0] == '+') {
        s.drop_first()
    } else {
        s
    }
}

/// An optional `+` or `-` sign followed by one or more decimal digits.
pub open spec fn is_int_literal(s: Seq<char>) -> bool {
    literal_digits(s).len() >= 1 && all_digits(literal_digits(s))
}

/// The signed value an integer literal denotes.
pub open spec fn int_literal_value(s: Seq<char>) -> int {
    if s.len() > 0 && s[0] == '-' {
        -digits_value(literal_digits(s))
    } else {
        digits_value(literal_digits(s))
    }
}

/// An integer literal that a 32-bit signed read accepts.
pub open spec fn is_i32_literal(s: Seq<char>) -> bool {
    is_int_literal(s) && i32::MIN <= int_literal_value(s) <= i32::MAX
}

/// An integer literal that a 32-bit unsigned read accepts: no minus sign,
/// value in range.
pub open spec fn is_u32_literal(s: Seq<char>) -> bool {
    is_int_literal(s) && (s.len() > 0 ==> s[0] != '-') && int_literal_value(s) <= u32::MAX
}

/// Relies on `str::parse::<i32>`: it accepts exactly an optional `+` or `-`
/// sign followed by one or more decimal digits whose signed value fits in
/// an `i32`, and returns that value; anything else is an error.
#[verifier::external_body]
pub(crate) fn parse_i32(s: &str) -> (r: Option<i32>)
    ensures
        r is Some <==> is_i32_literal(s@),
        r matches Some(v) ==> v as int == int_literal_value(s@),
{
    s.parse::<i32>().ok()
}

/// Relies on `str::parse::<u32>`: it accepts exactly an optional `+` sign
/// followed by one or more decimal digits whose value fits in a `u32`, and
/// returns that value; anything else, a minus sign included, is an error.
#[verifier::external_body]
pub(crate) fn parse_u32(s: &str) -> (r: Option<u32>)
    ensures
        r is Some <==> is_u32_literal(s@),
        r matches Some(v) ==> v as int == int_literal_value(s@),
{
    s.parse::<u32>().ok()
}

} // verus!
