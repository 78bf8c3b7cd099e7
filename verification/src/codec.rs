//! Base64 text and random identifiers, from the outside crates that provide them.
use base64::{engine::general_purpose::STANDARD as BASE64_STANDARD, Engine as _};
use vstd::prelude::*;

verus! {

/// The bytes that the standard base64 alphabet with padding decodes from a text, or `None`
/// where the text is not valid base64.
pub uninterp spec fn base64_decoded(text: Seq<char>) -> Option<Seq<u8>>;

/// The standard padded base64 text of some bytes.
pub uninterp spec fn base64_encoded(bytes: Seq<u8>) -> Seq<char>;

/// Calls `base64::Engine::decode` of the `STANDARD` engine on the UTF-8 bytes of `text`.
/// The bytes depend on the text alone; they are named, not described. On failure the
/// crate's error is handed back as its `Display` text, which is left unsaid.
#[verifier::external_body]
pub(crate) fn decode_base64(text: &str) -> (r: Result<Vec<u8>, String>)
    ensures
        r is Ok <==> base64_decoded(text@) is Some,
        r matches Ok(b) ==> b@ == base64_decoded(text@)->0,
{
    BASE64_STANDARD.decode(text.as_bytes()).map_err(|e| e.to_string())
}

/// Calls `base64::Engine::encode` of the `STANDARD` engine. The crate documents that this
/// engine's decoder accepts what its encoder writes and gives the same bytes back.
#[verifier::external_body]
pub(crate) fn encode_base64(bytes: &[u8]) -> (r: String)
    ensures
        r@ == base64_encoded(bytes@),
        base64_decoded(r@) == Some(bytes@),
{
    BASE64_STANDARD.encode(bytes)
}

/// Characters of the hyphenated lower-case text of a UUID.
pub open spec fn is_uuid_char(c: char) -> bool {
    ('0' <= c && c <= '9') || ('a' <= c && c <= 'f') || c == '-'
}

/// The hyphenated lower-case text of a UUID: 36 such characters.
pub open spec fn is_uuid_text(s: Seq<char>) -> bool {
    s.len() == 36 && forall|i: int| 0 <= i < 36 ==> is_uuid_char(#[trigger] s[i])
}

/// Calls `uuid::Uuid::new_v4` and formats it with `to_string`. The value is random; what
/// holds of every outcome is the shape of the `Display` text: 36 characters, lower-case
/// hexadecimal digits and hyphens.
#[verifier::external_body]
pub(crate) fn new_uuid_text() -> (r: String)
    ensures
        r@.len() == 36,
        forall|i: int| 0 <= i < r@.len() ==> is_uuid_char(#[trigger] r@[i]),
{
    uuid::Uuid::new_v4().to_string()
}

/// A hexadecimal digit, either letter case.
pub open spec fn is_hex_byte(b: u8) -> bool {
    (0x30 <= b && b <= 0x39) || (0x61 <= b && b <= 0x66) || (0x41 <= b && b <= 0x46)
}

/// The hyphenated form: 36 bytes, hyphens at 8, 13, 18 and 23, hexadecimal digits elsewhere.
pub open spec fn hyphenated_uuid_bytes(b: Seq<u8>) -> bool {
    &&& b.len() == 36
    &&& forall|i: int|
        0 <= i < 36 ==> if i == 8 || i == 13 || i == 18 || i == 23 {
            #[trigger] b[i] == 0x2D
        } else {
            is_hex_byte(b[i])
        }
}

/// Whether `uuid::Uuid::parse_str` accepts a text, by its UTF-8 bytes: 32 hexadecimal
/// digits; the hyphenated form; the hyphenated form in braces; or `urn:uuid:` (letter case
/// aside) and the hyphenated form.
pub open spec fn uuid_parses(text: Seq<char>) -> bool {
    let b = vstd::utf8::encode_utf8(text);
    ||| (b.len() == 32 && forall|i: int| 0 <= i < 32 ==> is_hex_byte(#[trigger] b[i]))
    ||| hyphenated_uuid_bytes(b)
    ||| (b.len() == 38 && b[0] == 0x7B && b[37] == 0x7D && hyphenated_uuid_bytes(b.subrange(1, 37)))
    ||| (b.len() == 45 && crate::file_url::starts_ci(b, crate::file_url::ascii("urn:uuid:"@))
        && hyphenated_uuid_bytes(b.skip(9)))
}

/// Calls `uuid::Uuid::parse_str` and reports whether it succeeded: its parser takes exactly
/// the texts that [`uuid_parses`] describes.
#[verifier::external_body]
pub(crate) fn parse_uuid_ok(text: &str) -> (r: bool)
    ensures
        r == uuid_parses(text@),
{
    uuid::Uuid::parse_str(text).is_ok()
}

} // verus!
