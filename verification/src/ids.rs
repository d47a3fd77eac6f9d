//! Identifiers of principals, workspaces and rows.
//!
//! An identifier is a UUID, held as the 128-bit integer that its sixteen
//! bytes spell in big-endian order.

use vstd::prelude::*;

verus! {

/// The identifier that a text spells in one of the notations that
/// `uuid::Uuid::parse_str` reads, or `None` where it spells none.
pub uninterp spec fn parsed_id(text: Seq<char>) -> Option<u128>;

/// The bits that tell a UUID's version and variant.
pub const VERSION_AND_VARIANT_MASK: u128 = 0x0000_0000_0000_f000_c000_0000_0000_0000;

/// Version 4 and the RFC 4122 variant in place.
pub const RANDOM_VERSION_AND_VARIANT: u128 = 0x0000_0000_0000_4000_8000_0000_0000_0000;

/// Reads an identifier with `uuid::Uuid::parse_str`. The result is a
/// function of the text alone and is named by `parsed_id`; a text that the
/// parser refuses gives `None`.
#[verifier::external_body]
pub(crate) fn parse_id(text: &str) -> (id: Option<u128>)
    ensures
        id == parsed_id(text@),
{
    match uuid::Uuid::parse_str(text) {
        Ok(parsed) => Some(parsed.as_u128()),
        Err(_) => None,
    }
}

/// Draws a random identifier with `uuid::Uuid::new_v4`. Nothing is known of
/// the value but the version and variant bits that the crate sets on every
/// identifier it draws.
#[verifier::external_body]
pub(crate) fn fresh_id() -> (id: u128)
    ensures
        id & VERSION_AND_VARIANT_MASK == RANDOM_VERSION_AND_VARIANT,
{
    uuid::Uuid::new_v4().as_u128()
}

/// The text that `uuid::Uuid` displays for an identifier: its thirty-two
/// hexadecimal digits in lower case, in hyphenated groups.
pub uninterp spec fn hyphenated(id: u128) -> Seq<char>;

/// Writes an identifier as `uuid::Uuid` displays it. The result is a function
/// of the identifier alone and is named by `hyphenated`.
#[verifier::external_body]
pub(crate) fn id_text(id: u128) -> (text: String)
    ensures
        text@ == hyphenated(id),
{
    uuid::Uuid::from_u128(id).to_string()
}

} // verus!
