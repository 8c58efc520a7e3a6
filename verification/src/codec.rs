//! The calls into the `uuid` crate and into `std` that the verifier takes on
//! trust. Each contract below restates what the called code does; none of it
//! is proved here.

use crate::text::{canonical_text, chars_of, denotes, is_uuid_text, nibble};
use vstd::prelude::*;

verus! {

/// The error that `uuid::Uuid::parse_str` reports. Its contents are private
/// to the `uuid` crate.
#[verifier::external_type_specification]
#[verifier::external_body]
pub struct ExUuidError(uuid::Error);

/// Calls `uuid::Uuid::parse_str` and reads the parsed value with
/// `Uuid::as_u128`.
///
/// Trusted: the parser accepts exactly the simple, hyphenated, braced and
/// URN forms, with hex digits of either case, and the value it returns has
/// the digits of the text, most significant first. The parser works on
/// bytes; every text it accepts is ASCII, so the forms can be stated on
/// characters.
#[verifier::external_body]
pub(crate) fn parse_value(s: &str) -> (r: Result<u128, uuid::Error>)
    ensures
        r is Ok <==> is_uuid_text(s@),
        r is Ok ==> denotes(s@, r->Ok_0),
{
    match uuid::Uuid::parse_str(s) {
        Ok(u) => Ok(u.as_u128()),
        Err(e) => Err(e),
    }
}

/// Builds the value with `uuid::Uuid::from_u128` and formats it through
/// `Uuid::as_hyphenated`, whose `Display` writes the lowercase hyphenated
/// form.
///
/// Trusted: the output is the 36-byte canonical text of `v`.
#[verifier::external_body]
pub(crate) fn render_hyphenated(v: u128) -> (r: Vec<u8>)
    ensures
        r@ == canonical_text(v),
{
    uuid::Uuid::from_u128(v).as_hyphenated().to_string().into_bytes()
}

/// Calls `uuid::Uuid::new_v4` and reads the value with `Uuid::as_u128`.
///
/// Trusted: whatever the random source gave, hex digit 12 is the version, 4,
/// and the two top bits of hex digit 16 are the variant, `10`. Nothing else
/// is known of the value. Where the system can give no random bytes the
/// `uuid` crate panics, and so does this call.
#[verifier::external_body]
pub(crate) fn random_v4_value() -> (r: u128)
    ensures
        nibble(r, 12) == 4,
        8 <= nibble(r, 16) <= 11,
{
    uuid::Uuid::new_v4().as_u128()
}

/// The message that the `Display` impl of `uuid::Error` writes. Nothing is
/// claimed of its wording.
#[verifier::external_body]
pub(crate) fn describe(e: &uuid::Error) -> String {
    e.to_string()
}

/// Calls `std::str::from_utf8` on ASCII bytes.
///
/// Trusted: ASCII is valid UTF-8, so the call succeeds, and each byte is one
/// character of the result.
#[verifier::external_body]
pub(crate) fn ascii_str(bytes: &[u8]) -> (r: &str)
    requires
        forall|i: int| 0 <= i < bytes@.len() ==> bytes@[i] < 128,
    ensures
        r@ == chars_of(bytes@),
{
    std::str::from_utf8(bytes).unwrap()
}

} // verus!
