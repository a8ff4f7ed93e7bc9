//! Reading numbers and truth values from text.

use vstd::prelude::*;

verus! {

pub open spec fn is_digit(c: char) -> bool {
    '0' <= c <= '9'
}

/// The number that a sequence of decimal digits writes.
pub open spec fn digits_value(s: Seq<char>) -> nat
    decreases s.len(),
{
    if s.len() == 0 {
        0
    } else {
        (digits_value(s.drop_last()) * 10 + (s.last() as int - '0' as int)) as nat
    }
}

/// Whether every character of `d` is a decimal digit.
pub open spec fn all_digits(d: Seq<char>) -> bool {
    forall|i: int| 0 <= i < d.len() ==> is_digit(#[trigger] d[i])
}

/// The number that `s` writes in base ten: an optional `+`, then one or more
/// ASCII digits and nothing else.
pub open spec fn decimal_value(s: Seq<char>) -> Option<nat> {
    let digits = if s.len() > 0 && s[0] == '+' {
        s.drop_first()
    } else {
        s
    };
    if digits.len() > 0 && all_digits(digits) {
        Some(digits_value(digits))
    } else {
        None
    }
}

/// The number that `s` writes, if it writes one that is at most `max`.
pub open spec fn decimal_up_to(s: Seq<char>, max: nat) -> Option<nat> {
    match decimal_value(s) {
        Some(v) if v <= max => Some(v),
        _ => None,
    }
}

/// The truth value that `s` writes: exactly `true` or `false`.
pub open spec fn truth_value(s: Seq<char>) -> Option<bool> {
    if s == "true"@ {
        Some(true)
    } else if s == "false"@ {
        Some(false)
    } else {
        None
    }
}

/// Calls `str::parse::<usize>`. The contract claims what the standard
/// library documents of it: the text is accepted exactly if it is an optional
/// `+` followed by one or more decimal digits whose value fits in a `usize`,
/// and the result is then that value.
#[verifier::external_body]
pub(crate) fn parse_usize(s: &str) -> (r: Result<usize, std::num::ParseIntError>)
    ensures
        match decimal_up_to(s@, usize::MAX as nat) {
            Some(v) => r matches Ok(n) && n == v,
            None => r is Err,
        },
{
    s.parse::<usize>()
}

/// Calls `str::parse::<u32>`. The contract claims what the standard library
/// documents of it: the text is accepted exactly if it is an optional `+`
/// followed by one or more decimal digits whose value fits in a `u32`, and
/// the result is then that value.
#[verifier::external_body]
pub(crate) fn parse_u32(s: &str) -> (r: Result<u32, std::num::ParseIntError>)
    ensures
        match decimal_up_to(s@, u32::MAX as nat) {
            Some(v) => r matches Ok(n) && n == v,
            None => r is Err,
        },
{
    s.parse::<u32>()
}

/// Calls `str::parse::<bool>`. The contract claims what the standard library
/// documents of it: only the texts `true` and `false` are accepted.
#[verifier::external_body]
pub(crate) fn parse_bool(s: &str) -> (r: Result<bool, std::str::ParseBoolError>)
    ensures
        match truth_value(s@) {
            Some(v) => r matches Ok(b) && b == v,
            None => r is Err,
        },
{
    s.parse::<bool>()
}

} // verus!
