//! 128-bit identifiers: reading them from text and drawing fresh ones.
use vstd::prelude::*;

verus! {

/// What `uuid::Uuid::parse_str` yields for a text, as a 128-bit value.
pub uninterp spec fn parsed_uuid(s: Seq<char>) -> Option<u128>;

/// Calls `uuid::Uuid::parse_str`; the result is named by `parsed_uuid`.
#[verifier::external_body]
pub(crate) fn parse_uuid(s: &str) -> (r: Option<u128>)
    ensures
        r == parsed_uuid(s@),
{
    uuid::Uuid::parse_str(s).ok().map(|u| u.as_u128())
}

/// Calls `uuid::Uuid::new_v4`: a random identifier, of which nothing is
/// promised here.
#[verifier::external_body]
pub(crate) fn random_id() -> (r: u128) {
    uuid::Uuid::new_v4().as_u128()
}

} // verus!
