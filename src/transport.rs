//! Transport encoding of terminal payloads: standard base64 text, so that
//! raw terminal bytes survive a text-oriented interface.

use base64::engine::general_purpose;
use base64::Engine;
use vstd::prelude::*;

verus! {

/// The standard-alphabet, padded base64 text of `bytes`.
pub uninterp spec fn base64_text(bytes: Seq<u8>) -> Seq<char>;

/// The bytes that standard base64 `text` decodes to, if it is valid.
pub uninterp spec fn base64_bytes(text: Seq<char>) -> Option<Seq<u8>>;

/// base64's `DecodeError`, carried as an opaque value.
#[verifier::external_type_specification]
#[verifier::external_body]
pub struct ExDecodeError(base64::DecodeError);

/// Relies on base64's `Engine::encode` with the `STANDARD` engine: padded
/// output of four characters per started group of three bytes. It panics
/// only when that length overflows `usize`.
#[verifier::external_body]
pub(crate) fn encode_base64(bytes: &[u8]) -> (r: String)
    requires
        bytes@.len() <= usize::MAX / 2,
    ensures
        r@ == base64_text(bytes@),
        r@.len() == 4 * ((bytes@.len() + 2) / 3),
{
    general_purpose::STANDARD.encode(bytes)
}

/// Relies on base64's `Engine::decode` with the `STANDARD` engine.
#[verifier::external_body]
pub(crate) fn decode_base64(text: &str) -> (r: Result<Vec<u8>, base64::DecodeError>)
    ensures
        match r {
            Ok(v) => base64_bytes(text@) == Some(v@),
            Err(_) => base64_bytes(text@).is_none(),
        },
{
    general_purpose::STANDARD.decode(text)
}

/// Relies on the `Display` impl of base64's `DecodeError` for a readable reason.
#[verifier::external_body]
pub(crate) fn decode_error_reason(e: &base64::DecodeError) -> String {
    e.to_string()
}

/// Decodes a transport payload into raw terminal bytes; `Err` carries the
/// reason why the text is not valid standard base64.
pub fn decode_payload(text: &str) -> (r: Result<Vec<u8>, String>)
    ensures
        match r {
            Ok(v) => base64_bytes(text@) == Some(v@),
            Err(_) => base64_bytes(text@).is_none(),
        },
{
    match decode_base64(text) {
        Ok(v) => Ok(v),
        Err(e) => Err(decode_error_reason(&e)),
    }
}

/// Encodes raw terminal bytes as transport text.
pub fn encode_payload(bytes: &[u8]) -> (r: String)
    requires
        bytes@.len() <= usize::MAX / 2,
    ensures
        r@ == base64_text(bytes@),
        r@.len() == 4 * ((bytes@.len() + 2) / 3),
{
    encode_base64(bytes)
}

} // verus!
