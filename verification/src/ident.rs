//! Account identifiers: 128-bit numbers, written and read as UUID text.

use vstd::prelude::*;

verus! {

/// The identifier that `uuid::Uuid::parse_str` reads from a text, if it
/// reads one.
pub uninterp spec fn parsed_uuid(text: Seq<char>) -> Option<u128>;

/// The hyphenated lower-case text that the `uuid` crate prints for an
/// identifier.
pub uninterp spec fn uuid_text(id: u128) -> Seq<char>;

/// Calls `uuid::Uuid::parse_str` and hands the identifier out as a number.
/// Trusted: the result is a function of the text alone, named `parsed_uuid`.
#[verifier::external_body]
pub(crate) fn parse_uuid(text: &str) -> (r: Option<u128>)
    ensures
        r == parsed_uuid(text@),
{
    match uuid::Uuid::parse_str(text) {
        Ok(id) => Some(id.as_u128()),
        Err(_) => None,
    }
}

/// Prints an identifier through `uuid::Uuid`'s `Display`. Trusted: the
/// text is a function of the number alone, named `uuid_text`.
#[verifier::external_body]
pub(crate) fn format_uuid(id: u128) -> (r: String)
    ensures
        r@ == uuid_text(id),
{
    uuid::Uuid::from_u128(id).to_string()
}

/// Draws a random identifier with `uuid::Uuid::new_v4`. Nothing is
/// promised of the number that comes back.
#[verifier::external_body]
pub(crate) fn random_uuid() -> u128 {
    uuid::Uuid::new_v4().as_u128()
}

} // verus!
