//! Character classes and the reading of decimal numerals, as the scanner sees them.
use vstd::prelude::*;

verus! {

/// Whether a character has the Unicode `Alphabetic` property, as `char::is_alphabetic` decides.
pub uninterp spec fn alphabetic(c: char) -> bool;

/// Whether a character is Unicode numeric, as `char::is_numeric` decides.
pub uninterp spec fn numeric(c: char) -> bool;

/// Whitespace between tokens: space, tab, carriage return and newline.
pub open spec fn is_space(c: char) -> bool {
    c == ' ' || c == '\t' || c == '\r' || c == '\n'
}

/// A character that may follow the first one of an identifier.
pub open spec fn continues_identifier(c: char) -> bool {
    alphabetic(c) || numeric(c) || c == '_'
}

/// An ASCII decimal digit.
pub open spec fn is_digit(c: char) -> bool {
    '0' <= c && c <= '9'
}

/// A non-empty sequence of ASCII decimal digits.
pub open spec fn all_digits(s: Seq<char>) -> bool {
    s.len() > 0 && forall|i: int| 0 <= i < s.len() ==> is_digit(#[trigger] s[i])
}

/// The value of a sequence of ASCII decimal digits, most significant first.
pub open spec fn decimal_value(s: Seq<char>) -> int
    decreases s.len(),
{
    if s.len() == 0 {
        0
    } else {
        decimal_value(s.drop_last()) * 10 + (s.last() as int - '0' as int)
    }
}

/// The integer that a decimal numeral denotes: an optional `+` or `-` followed by
/// at least one ASCII digit. `None` for any other text.
pub open spec fn numeral_value(s: Seq<char>) -> Option<int> {
    if all_digits(s) {
        Some(decimal_value(s))
    } else if s.len() > 0 && s[0] == '+' && all_digits(s.drop_first()) {
        Some(decimal_value(s.drop_first()))
    } else if s.len() > 0 && s[0] == '-' && all_digits(s.drop_first()) {
        Some(-decimal_value(s.drop_first()))
    } else {
        None
    }
}

/// The `i32` that a text denotes as a decimal numeral, or `None` where it is no numeral
/// or its value lies outside the range of `i32`.
pub open spec fn parsed_i32(s: Seq<char>) -> Option<i32> {
    match numeral_value(s) {
        Some(v) => if i32::MIN <= v <= i32::MAX {
            Some(v as i32)
        } else {
            None
        },
        None => None,
    }
}

/// Relies on `char::is_alphabetic`, to tell the first character of an identifier.
#[verifier::external_body]
pub(crate) fn is_alphabetic(c: char) -> (r: bool)
    ensures
        r == alphabetic(c),
{
    c.is_alphabetic()
}

/// Relies on `char::is_numeric`, to tell the characters of a number.
#[verifier::external_body]
pub(crate) fn is_numeric(c: char) -> (r: bool)
    ensures
        r == numeric(c),
{
    c.is_numeric()
}

/// Relies on `char::is_alphanumeric`, to tell the further characters of an identifier; std
/// documents it as `is_alphabetic() || is_numeric()`.
#[verifier::external_body]
pub(crate) fn is_alphanumeric(c: char) -> (r: bool)
    ensures
        r == (alphabetic(c) || numeric(c)),
{
    c.is_alphanumeric()
}

/// Whitespace between tokens.
pub(crate) fn is_whitespace(c: char) -> (r: bool)
    ensures
        r == is_space(c),
{
    c == ' ' || c == '\t' || c == '\r' || c == '\n'
}

/// Relies on `String::push`: the character is appended at the end.
#[verifier::external_body]
pub(crate) fn push_char(s: &mut String, c: char)
    ensures
        final(s)@ == old(s)@.push(c),
{
    s.push(c);
}

/// Relies on `str::parse::<i32>` (`i32::from_str`): an optional `+` or `-` sign followed by
/// ASCII digits is read in base ten, and any other text, or a value out of range, is an error.
#[verifier::external_body]
pub(crate) fn parse_i32(s: &str) -> (r: Option<i32>)
    ensures
        r == parsed_i32(s@),
{
    s.parse::<i32>().ok()
}

} // verus!
