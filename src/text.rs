//! Decimal integers and display names read from text fields.
use vstd::prelude::*;

verus! {

pub open spec fn is_decimal_digit(c: char) -> bool {
    '0' <= c && c <= '9'
}

/// A non-empty run of ASCII decimal digits.
pub open spec fn all_digits(s: Seq<char>) -> bool {
    s.len() > 0 && forall|i: int| 0 <= i < s.len() ==> is_decimal_digit(#[trigger] s[i])
}

/// The value of a run of decimal digits, most significant first.
pub open spec fn digits_value(s: Seq<char>) -> int
    decreases s.len(),
{
    if s.len() == 0 {
        0
    } else {
        digits_value(s.drop_last()) * 10 + (s.last() as int - '0' as int)
    }
}

/// The integer written in `s`: an optional `+` or `-` sign followed by one or
/// more decimal digits, nothing else (no whitespace).
pub open spec fn decimal_value(s: Seq<char>) -> Option<int> {
    if s.len() > 0 && s[0] == '-' && all_digits(s.drop_first()) {
        Some(-digits_value(s.drop_first()))
    } else if s.len() > 0 && s[0] == '+' && all_digits(s.drop_first()) {
        Some(digits_value(s.drop_first()))
    } else if all_digits(s) {
        Some(digits_value(s))
    } else {
        None
    }
}

/// The `i32` written in `s`, if it is well formed and in range.
pub open spec fn parsed_i32(s: Seq<char>) -> Option<i32> {
    match decimal_value(s) {
        Some(v) => if i32::MIN <= v && v <= i32::MAX {
            Some(v as i32)
        } else {
            None
        },
        None => None,
    }
}

/// The name shown for a region: its key with every underscore turned into a
/// space.
pub open spec fn display_name(key: Seq<char>) -> Seq<char> {
    key.map_values(|c: char| if c == '_' { ' ' } else { c })
}

/// Relies on `str::parse::<i32>`: it accepts exactly an optional sign followed
/// by decimal digits whose value fits in `i32`.
#[verifier::external_body]
pub(crate) fn parse_i32(s: &str) -> (r: Option<i32>)
    ensures
        r == parsed_i32(s@),
{
    s.parse::<i32>().ok()
}

/// Relies on `str::replace`: every `_` is replaced by a space, all other
/// characters are kept in place.
#[verifier::external_body]
pub(crate) fn underscores_to_spaces(s: &str) -> (r: String)
    ensures
        r@ == display_name(s@),
{
    s.replace('_', " ")
}

} // verus!
