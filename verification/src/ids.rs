//! Random identifiers in the text form of version-4 UUIDs.
use vstd::prelude::*;

verus! {

/// A lower-case hexadecimal digit.
pub open spec fn is_lower_hex(c: char) -> bool {
    ('0' <= c && c <= '9') || ('a' <= c && c <= 'f')
}

/// The hyphenated lower-case text of a random (version 4, RFC 4122 variant)
/// UUID: 36 characters, `-` at positions 8, 13, 18 and 23, hexadecimal
/// digits elsewhere, the version digit `4` at position 14 and one of
/// `8`, `9`, `a`, `b` at position 19.
pub open spec fn is_v4_uuid_text(s: Seq<char>) -> bool {
    &&& s.len() == 36
    &&& forall|i: int|
        0 <= i < 36 ==> if i == 8 || i == 13 || i == 18 || i == 23 {
            #[trigger] s[i] == '-'
        } else {
            is_lower_hex(s[i])
        }
    &&& s[14] == '4'
    &&& (s[19] == '8' || s[19] == '9' || s[19] == 'a' || s[19] == 'b')
}

/// The text that `uuid` gives for a random UUID built from `bytes`.
pub uninterp spec fn v4_uuid_text(bytes: Seq<u8>) -> Seq<char>;

/// Calls `getrandom::fill` on a 16-byte buffer; `None` stands for its
/// error, when the operating system's random source cannot be read.
/// Nothing is stated of the bytes.
#[verifier::external_body]
fn random_bytes() -> Option<[u8; 16]> {
    let mut bytes = [0u8; 16];
    match getrandom::fill(&mut bytes) {
        Ok(()) => Some(bytes),
        Err(_) => None,
    }
}

/// Calls `uuid::Builder::from_random_bytes` and renders the UUID with its
/// `Display` impl. The source sets the version bits to 4 and the variant
/// bits to RFC 4122 and formats the sixteen bytes as lower-case hyphenated
/// hex, so the text has the version-4 shape and depends on the bytes alone.
#[verifier::external_body]
fn uuid_v4_text(bytes: [u8; 16]) -> (s: String)
    ensures
        s@ == v4_uuid_text(bytes@),
        is_v4_uuid_text(s@),
{
    uuid::Builder::from_random_bytes(bytes).into_uuid().to_string()
}

/// The text of a fresh random UUID, or `None` when the random source
/// fails.
pub(crate) fn fresh_uuid_v4_text() -> (r: Option<String>)
    ensures
        r matches Some(s) ==> is_v4_uuid_text(s@),
{
    match random_bytes() {
        Some(bytes) => Some(uuid_v4_text(bytes)),
        None => None,
    }
}

} // verus!
