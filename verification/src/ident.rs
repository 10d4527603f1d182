//! UUID identities: fresh random values, and their hyphenated text.
use vstd::prelude::*;

verus! {

/// The value a UUID text parses to, in any form `uuid::Uuid::parse_str`
/// accepts; `None` where it does not parse.
pub uninterp spec fn uuid_text_value(text: Seq<char>) -> Option<u128>;

/// The hyphenated lower-case text of a UUID.
pub uninterp spec fn uuid_text(value: u128) -> Seq<char>;

/// `uuid::Uuid::parse_str`, keeping the parsed value. Claimed: the result is
/// `uuid_text_value` of the text.
#[verifier::external_body]
pub(crate) fn parse_uuid(text: &str) -> (r: Option<u128>)
    ensures
        r == uuid_text_value(text@),
{
    uuid::Uuid::parse_str(text).ok().map(|u| u.as_u128())
}

/// `Display` of `uuid::Uuid::from_u128(value)`: its hyphenated form. Claimed:
/// the text is `uuid_text` of the value, and `parse_str` reads it back as
/// the same value.
#[verifier::external_body]
pub(crate) fn format_uuid(value: u128) -> (r: String)
    ensures
        r@ == uuid_text(value),
        uuid_text_value(r@) == Some(value),
{
    uuid::Uuid::from_u128(value).to_string()
}

/// Whether a UUID value is a random (version 4) UUID of the RFC 4122
/// variant: its version nibble (bits 76 to 79) is 4 and its variant bits
/// (62 and 63) are `10`.
pub open spec fn is_v4_uuid(v: u128) -> bool {
    v & 0xF000C000000000000000u128 == 0x40008000000000000000u128
}

/// `uuid::Uuid::new_v4`: a fresh random UUID, as its 128-bit value. Claimed,
/// from its source (random bits masked with
/// `0xFFFFFFFFFFFF4FFFBFFFFFFFFFFFFFFF` and or-ed with
/// `0x40008000000000000000`): it is a version-4 UUID of the RFC 4122
/// variant. Its other bits are random and nothing is claimed of them.
#[verifier::external_body]
pub(crate) fn random_uuid() -> (r: u128)
    ensures
        is_v4_uuid(r),
{
    uuid::Uuid::new_v4().as_u128()
}

} // verus!
