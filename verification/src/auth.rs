//! Authentication of a delivery: the `sha256=<hex>` header against the
//! HMAC-SHA256 of the raw body.

use hmac::{Hmac, Mac};
use sha2::Sha256;
use vstd::prelude::*;

use crate::text::{after_prefix, lower, strip_prefix, to_lower, view_of};

verus! {

/// Length in bytes of an HMAC-SHA256 tag.
pub const TAG_LEN: usize = 32;

/// The value of a hexadecimal digit, of either case.
pub open spec fn hex_value(c: char) -> Option<u8> {
    if '0' <= c <= '9' {
        Some((c as u8 - 48) as u8)
    } else if 'a' <= c <= 'f' {
        Some((c as u8 - 87) as u8)
    } else if 'A' <= c <= 'F' {
        Some((c as u8 - 55) as u8)
    } else {
        None
    }
}

/// The bytes that a hexadecimal text spells, two digits to a byte: `None` for
/// an odd number of digits and for anything that is not a digit.
pub open spec fn unhex(s: Seq<char>) -> Option<Seq<u8>> {
    if s.len() % 2 == 0 && (forall|i: int|
        0 <= i < s.len() ==> (#[trigger] hex_value(s[i])) is Some) {
        Some(
            Seq::new(
                s.len() / 2,
                |i: int| (16 * hex_value(s[2 * i])->0 + hex_value(s[2 * i + 1])->0) as u8,
            ),
        )
    } else {
        None
    }
}

/// Why `hex` refused a text.
#[verifier::external_type_specification]
#[verifier::external_body]
pub struct ExFromHexError(hex::FromHexError);

/// `hex::decode`: accepts an even number of hexadecimal digits of either case,
/// and yields the bytes that they spell.
#[verifier::external_body]
pub(crate) fn decode_hex(s: &str) -> (r: Result<Vec<u8>, hex::FromHexError>)
    ensures
        match r {
            Ok(bytes) => unhex(s@) == Some(bytes@),
            Err(_) => unhex(s@) is None,
        },
{
    hex::decode(s)
}

/// The HMAC-SHA256 of `message` under `key`.
pub uninterp spec fn hmac_sha256(key: Seq<u8>, message: Seq<u8>) -> Seq<u8>;

/// `Hmac::<Sha256>::new_from_slice`, which takes a key of any length, then
/// `update` and `verify_slice`: whether `tag` is the HMAC-SHA256 of `message`
/// under `key`, all 32 bytes of it.
#[verifier::external_body]
pub(crate) fn hmac_matches(key: &[u8], message: &[u8], tag: &[u8]) -> (r: bool)
    ensures
        r == (tag@ == hmac_sha256(key@, message@)),
        r ==> tag@.len() == TAG_LEN,
{
    let mut mac = Hmac::<Sha256>::new_from_slice(key).expect("HMAC accepts any key length");
    mac.update(message);
    mac.verify_slice(tag).is_ok()
}

/// What a well-formed signature header carries.
pub struct Signature {
    /// The tag.
    pub tag: Vec<u8>,
    /// The digits of the tag, in lower case.
    pub digits: String,
}

/// The tag and the lower-case digits of a header `sha256=<64 hex digits>`.
pub open spec fn signature_of(header: Option<Seq<char>>) -> Option<(Seq<u8>, Seq<char>)> {
    match header {
        None => None,
        Some(value) => match after_prefix(value, "sha256="@) {
            None => None,
            Some(digits) => match unhex(digits) {
                Some(tag) if tag.len() == TAG_LEN => Some((tag, lower(digits))),
                _ => None,
            },
        },
    }
}

/// Reads a signature header. The case of its digits is normalised, so that
/// what is stored does not depend on the case that was sent.
pub fn read_signature(header: &Option<String>) -> (r: Option<Signature>)
    ensures
        match r {
            Some(s) => signature_of(view_of(*header)) == Some((s.tag@, s.digits@)),
            None => signature_of(view_of(*header)) is None,
        },
{
    let value = match header {
        Some(value) => value,
        None => return None,
    };
    let digits = match strip_prefix(value.as_str(), "sha256=") {
        Some(digits) => digits,
        None => return None,
    };
    match decode_hex(digits.as_str()) {
        Ok(tag) => {
            if tag.len() == TAG_LEN {
                Some(Signature { tag, digits: to_lower(digits.as_str()) })
            } else {
                None
            }
        },
        Err(_) => None,
    }
}

} // verus!
