//! Textual contact identifiers.
//!
//! The wire protocol carries contact identifiers as UUID strings; the rest
//! of the library works with their 128-bit values. Parsing and formatting
//! are delegated to the `uuid` crate; both are pure functions of their
//! argument, named here so that contracts can speak of them exactly.

use vstd::prelude::*;

verus! {

/// The 128-bit value a string of hexadecimal digits with optional hyphens
/// denotes as a UUID, if it denotes one.
pub uninterp spec fn uuid_value_of(s: Seq<char>) -> Option<u128>;

/// The canonical hyphenated text of a 128-bit UUID value.
pub uninterp spec fn uuid_text_of(u: u128) -> Seq<char>;

/// Relies on uuid's `Uuid::parse_str` and `Uuid::as_u128`: whether a string
/// parses as a UUID, and as which value, depends on the string alone.
#[verifier::external_body]
pub(crate) fn parse_uuid(s: &str) -> (r: Option<u128>)
    ensures
        r == uuid_value_of(s@),
{
    uuid::Uuid::parse_str(s).ok().map(|u| u.as_u128())
}

/// Relies on uuid's `Display` (hyphenated lowercase form) and on
/// `Uuid::parse_str` accepting every format the crate itself generates, so
/// the printed text parses back to the same value.
#[verifier::external_body]
pub(crate) fn uuid_to_string(u: u128) -> (r: String)
    ensures
        r@ == uuid_text_of(u),
        uuid_value_of(r@) == Some(u),
{
    uuid::Uuid::from_u128(u).to_string()
}

} // verus!
