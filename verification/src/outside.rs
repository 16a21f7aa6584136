//! Calls into other crates. What each contract here claims of the call is
//! believed, not proved.

use vstd::prelude::*;

use crate::text::hex_digits;
use crate::text::hex_text;

verus! {

/// The BLAKE3 digest of bytes.
pub uninterp spec fn blake3_digest(data: Seq<u8>) -> Seq<u8>;

/// Calls `blake3::hash`. Its result is the digest of the input, 32 bytes that
/// depend on the input alone.
#[verifier::external_body]
pub(crate) fn blake3_hash(data: &[u8]) -> (r: [u8; 32])
    ensures
        r@ == blake3_digest(data@),
{
    *blake3::hash(data).as_bytes()
}

/// Calls `hex::encode`, which writes each byte as two lower-case hexadecimal
/// digits, the higher one first.
#[verifier::external_body]
pub(crate) fn hex_encode(data: &[u8]) -> (r: String)
    ensures
        r@ == hex_text(data@),
{
    hex::encode(data)
}

/// The bits that mark a random UUID: version 4 and the variant of the standard.
pub open spec fn is_random_uuid(id: u128) -> bool {
    &&& (id >> 76) & 0xf == 4
    &&& (id >> 62) & 0x3 == 2
}

/// Calls `uuid::Uuid::new_v4` and takes the UUID as a number. All bits but those
/// of version and variant are random.
#[verifier::external_body]
pub(crate) fn new_uuid() -> (r: u128)
    ensures
        is_random_uuid(r),
{
    uuid::Uuid::new_v4().as_u128()
}

/// The text of a UUID: 32 hexadecimal digits, in groups of 8, 4, 4, 4 and 12
/// with hyphens between them.
pub open spec fn uuid_text(id: u128) -> Seq<char> {
    let d = hex_digits(id as nat, 32);
    d.subrange(0, 8) + seq!['-'] + d.subrange(8, 12) + seq!['-'] + d.subrange(12, 16) + seq!['-']
        + d.subrange(16, 20) + seq!['-'] + d.subrange(20, 32)
}

/// Calls `to_string` on a `uuid::Uuid`, which writes the UUID in lower-case
/// hexadecimal digits with hyphens.
#[verifier::external_body]
pub(crate) fn uuid_to_string(id: u128) -> (r: String)
    ensures
        r@ == uuid_text(id),
{
    uuid::Uuid::from_u128(id).to_string()
}

/// The number of elements of a JSON array, or nothing where the text is not a
/// JSON array.
pub uninterp spec fn json_array_len(text: Seq<char>) -> Option<usize>;

/// Calls `serde_json::from_str` for a vector of values. The number of elements
/// that it reads, and whether it fails, depend on the text alone.
#[verifier::external_body]
pub(crate) fn parse_json_array_len(text: &str) -> (r: Option<usize>)
    ensures
        r == json_array_len(text@),
{
    match serde_json::from_str::<Vec<serde_json::Value>>(text) {
        Ok(values) => Some(values.len()),
        Err(_) => None,
    }
}

} // verus!
