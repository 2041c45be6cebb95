//! Textual transport encoding of the ciphertext: the standard 64-symbol
//! alphabet, three bytes to four symbols, with padding. The encoding itself
//! is done by the base64 crate; its results are named here so that the
//! cipher's contracts can speak about them.

use vstd::prelude::*;

verus! {

/// The padded standard-alphabet transport encoding of a byte sequence.
pub uninterp spec fn b64_encoding(bytes: Seq<u8>) -> Seq<u8>;

/// What the transport decoder returns for a byte sequence: `None` where the
/// sequence is not a valid encoding.
pub uninterp spec fn b64_decoding(bytes: Seq<u8>) -> Option<Seq<u8>>;

#[verifier::external_type_specification]
#[verifier::external_body]
pub struct ExDecodeError(base64::DecodeError);

/// Relies on base64's standard engine `encode`: the result is the padded
/// standard-alphabet encoding of the input (four output bytes for every
/// three input bytes, `encoded_len` in the crate's source), and the same
/// engine's `decode` inverts it.
#[verifier::external_body]
pub(crate) fn b64_encode_bytes(bytes: &Vec<u8>) -> (r: Vec<u8>)
    ensures
        r@ == b64_encoding(bytes@),
        b64_decoding(r@) == Some(bytes@),
        r@.len() == 4 * ((bytes@.len() + 2) / 3),
{
    base64::Engine::encode(&base64::engine::general_purpose::STANDARD, bytes.as_slice())
        .into_bytes()
}

/// Relies on base64's standard engine `decode`: whether it succeeds, and
/// with what bytes, is a function of the input bytes alone.
#[verifier::external_body]
pub(crate) fn b64_decode_bytes(bytes: &[u8]) -> (r: Result<Vec<u8>, base64::DecodeError>)
    ensures
        match r {
            Ok(v) => b64_decoding(bytes@) == Some(v@),
            Err(_) => b64_decoding(bytes@) is None,
        },
{
    base64::Engine::decode(&base64::engine::general_purpose::STANDARD, bytes)
}

} // verus!
