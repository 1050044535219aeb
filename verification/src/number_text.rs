//! The text conversions of `usize` that std provides.

use vstd::prelude::*;
use crate::decimal::{decimal, parse_usize};

verus! {

#[verifier::external_type_specification]
#[verifier::external_body]
pub struct ExParseIntError(std::num::ParseIntError);

/// Calls `str::parse::<usize>`; its documentation (`from_str_radix` in base
/// ten) accepts an optional `+` followed by digits whose value fits in the
/// type, and returns an error otherwise.
#[verifier::external_body]
pub(crate) fn parse_usize_text(s: &str) -> (res: Result<usize, std::num::ParseIntError>)
    ensures
        res is Ok <==> parse_usize(s@) is Some,
        res matches Ok(v) ==> parse_usize(s@) == Some(v),
{
    s.parse::<usize>()
}

/// Calls `usize::to_string`, which writes the shortest decimal
/// representation of the number.
#[verifier::external_body]
pub(crate) fn usize_text(n: usize) -> (text: String)
    ensures
        text@ == decimal(n as nat),
{
    n.to_string()
}

} // verus!
