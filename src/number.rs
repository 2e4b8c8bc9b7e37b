use vstd::prelude::*;

verus! {

pub open spec fn is_digit(c: char) -> bool {
    '0' <= c && c <= '9'
}

/// True when `s` is one or more ASCII decimal digits.
pub open spec fn all_digits(s: Seq<char>) -> bool {
    s.len() > 0 && forall|i: int| 0 <= i < s.len() ==> is_digit(#[trigger] s[i])
}

/// The value of a string of decimal digits, most significant first.
pub open spec fn digits_value(s: Seq<char>) -> nat
    decreases s.len(),
{
    if s.len() == 0 {
        0
    } else {
        digits_value(s.drop_last()) * 10 + (s.last() as nat - '0' as nat) as nat
    }
}

/// The value written by `s` as an unsigned decimal literal: digits with an
/// optional leading `+`.
pub open spec fn unsigned_literal(s: Seq<char>) -> Option<nat> {
    if s.len() > 0 && s[0] == '+' {
        if all_digits(s.drop_first()) {
            Some(digits_value(s.drop_first()))
        } else {
            None
        }
    } else if all_digits(s) {
        Some(digits_value(s))
    } else {
        None
    }
}

/// The value written by `s` as a signed decimal literal: digits with an
/// optional leading `+` or `-`.
pub open spec fn signed_literal(s: Seq<char>) -> Option<int> {
    if s.len() > 0 && s[0] == '-' {
        if all_digits(s.drop_first()) {
            Some(-digits_value(s.drop_first()))
        } else {
            None
        }
    } else {
        match unsigned_literal(s) {
            Some(v) => Some(v as int),
            None => None,
        }
    }
}

/// Relies on `u16::from_str`: an optional `+` followed by digits whose value
/// fits in 16 bits is accepted, anything else is refused.
#[verifier::external_body]
pub(crate) fn parse_u16(s: &str) -> (r: Option<u16>)
    ensures
        r is Some <==> (unsigned_literal(s@) is Some && unsigned_literal(s@)->0 <= u16::MAX),
        r is Some ==> r->0 == unsigned_literal(s@)->0,
{
    s.parse::<u16>().ok()
}

/// Relies on `u64::from_str`: an optional `+` followed by digits whose value
/// fits in 64 bits is accepted, anything else is refused.
#[verifier::external_body]
pub(crate) fn parse_u64(s: &str) -> (r: Option<u64>)
    ensures
        r is Some <==> (unsigned_literal(s@) is Some && unsigned_literal(s@)->0 <= u64::MAX),
        r is Some ==> r->0 == unsigned_literal(s@)->0,
{
    s.parse::<u64>().ok()
}

/// Relies on `i64::from_str`: an optional sign followed by digits whose value
/// fits in a signed 64-bit integer is accepted, anything else is refused.
#[verifier::external_body]
pub(crate) fn parse_i64(s: &str) -> (r: Option<i64>)
    ensures
        r is Some <==> (signed_literal(s@) is Some && i64::MIN <= signed_literal(s@)->0
            <= i64::MAX),
        r is Some ==> r->0 == signed_literal(s@)->0,
{
    s.parse::<i64>().ok()
}

/// Relies on `i32::from_str`: an optional sign followed by digits whose value
/// fits in a signed 32-bit integer is accepted, anything else is refused.
#[verifier::external_body]
pub(crate) fn parse_i32(s: &str) -> (r: Option<i32>)
    ensures
        r is Some <==> (signed_literal(s@) is Some && i32::MIN <= signed_literal(s@)->0
            <= i32::MAX),
        r is Some ==> r->0 == signed_literal(s@)->0,
{
    s.parse::<i32>().ok()
}

/// Relies on `u32::from_str`: an optional `+` followed by digits whose value
/// fits in 32 bits is accepted, anything else is refused.
#[verifier::external_body]
pub(crate) fn parse_u32(s: &str) -> (r: Option<u32>)
    ensures
        r is Some <==> (unsigned_literal(s@) is Some && unsigned_literal(s@)->0 <= u32::MAX),
        r is Some ==> r->0 == unsigned_literal(s@)->0,
{
    s.parse::<u32>().ok()
}

/// An optional command-line value that is not a number.
#[derive(Clone, Copy, Debug, PartialEq, Eq)]
pub struct ParseError;

/// Parses an optional signed integer argument; an absent argument stays absent.
pub fn i64_opt(value: Option<&str>) -> (r: Result<Option<i64>, ParseError>)
    ensures
        value is None ==> r == Ok::<Option<i64>, ParseError>(None),
        value is Some ==> match signed_literal(value->0@) {
            Some(v) if i64::MIN <= v <= i64::MAX => r == Ok::<Option<i64>, ParseError>(
                Some(v as i64),
            ),
            _ => r is Err,
        },
{
    match value {
        Some(v) => match parse_i64(v) {
            Some(n) => Ok(Some(n)),
            None => Err(ParseError),
        },
        None => Ok(None),
    }
}

/// Parses an optional unsigned integer argument; an absent argument stays
/// absent.
pub fn u64_opt(value: Option<&str>) -> (r: Result<Option<u64>, ParseError>)
    ensures
        value is None ==> r == Ok::<Option<u64>, ParseError>(None),
        value is Some ==> match unsigned_literal(value->0@) {
            Some(v) if v <= u64::MAX => r == Ok::<Option<u64>, ParseError>(Some(v as u64)),
            _ => r is Err,
        },
{
    match value {
        Some(v) => match parse_u64(v) {
            Some(n) => Ok(Some(n)),
            None => Err(ParseError),
        },
        None => Ok(None),
    }
}

/// Copies an optional string argument.
pub fn string_opt(value: Option<&str>) -> (r: Option<String>)
    ensures
        value is None ==> r is None,
        value is Some ==> r is Some && r->0@ == value->0@,
{
    match value {
        Some(v) => Some(v.to_owned()),
        None => None,
    }
}

} // verus!
