//! Session and message identifiers.
//!
//! Identifiers are UUIDs on the wire; inside the library they are carried as
//! their 128-bit values, so that the verified logic works on plain integers.
//! The uuid crate is consulted only to generate a fresh identifier, to render
//! one as text, and to read one back from text.

use vstd::prelude::*;
use crate::msg::ClientId;

verus! {

/// The text that the uuid crate renders for an identifier: 36 lowercase
/// hexadecimal characters in the hyphenated layout. The rendering is a
/// function of the identifier alone.
pub uninterp spec fn uuid_text(id: u128) -> Seq<char>;

/// What `uuid::Uuid::parse_str` accepts: the result is a function of the
/// input text alone (hyphenated, braced, urn or plain hexadecimal layouts
/// succeed; everything else fails).
pub uninterp spec fn uuid_of_text(s: Seq<char>) -> Option<u128>;

/// Relies on `uuid::Uuid::new_v4`: a randomly generated identifier, about
/// which nothing can be promised.
#[verifier::external_body]
pub fn fresh_uuid() -> ClientId {
    uuid::Uuid::new_v4().as_u128()
}

/// Relies on `uuid::Uuid`'s `Display` impl: the hyphenated lowercase
/// rendering, 36 characters long, determined by the identifier alone.
#[verifier::external_body]
pub fn uuid_string(id: u128) -> (r: String)
    ensures
        r@ == uuid_text(id),
        r@.len() == 36,
{
    uuid::Uuid::from_u128(id).to_string()
}

/// Relies on `uuid::Uuid::parse_str`: a deterministic parser of UUID text.
#[verifier::external_body]
pub fn parse_uuid(s: &str) -> (r: Option<u128>)
    ensures
        r == uuid_of_text(s@),
{
    match uuid::Uuid::parse_str(s) {
        Ok(u) => Some(u.as_u128()),
        Err(_) => None,
    }
}

} // verus!
