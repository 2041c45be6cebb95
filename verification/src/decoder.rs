//! The decode path: parse the payload that stands after the image's
//! end-of-file marker, check the supplied password candidate against the
//! stored verification token where the payload is protected, and only then
//! decode the ciphertext block back into the secret.

use crate::codec;
use crate::config::Config;
use crate::crypt;
use crate::encoder;
use crate::errors::{DecodingError, PasswordFormatError};
use crate::hashing;
use crate::protocol;
use crate::reading;
use crate::transport;
use vstd::prelude::*;
use vstd::utf8::encode_utf8;
use vstd::utf8::is_ascii_chars;

verus! {

/// Whether the payload at `start` is password-protected. False where no
/// payload parses there.
pub open spec fn requires_password(bytes: Seq<u8>, start: int) -> bool {
    match codec::parse_spec(bytes, start) {
        Some(p) => p.token is Some,
        None => false,
    }
}

/// What decoding a ciphertext block returns: the transport-decode must
/// succeed, and each of its bytes is inverse-transformed and the whole
/// reversed back into original order.
pub open spec fn transport_outcome(
    keys: crypt::CipherKeys,
    sec: Seq<u8>,
    r: Result<Vec<u8>, DecodingError>,
) -> bool {
    match transport::b64_decoding(sec) {
        None => r == Err::<Vec<u8>, DecodingError>(DecodingError::InvalidTransport),
        Some(m) => r matches Ok(v) && v@ == crypt::deciphered_secret(keys, m),
    }
}

/// What checking one password candidate against a stored token decides: a
/// malformed candidate is rejected before hashing, a mismatch and a
/// primitive failure are distinct errors, and only a verified candidate
/// reaches the ciphertext.
pub open spec fn password_outcome(
    keys: crypt::CipherKeys,
    cand: Seq<char>,
    token: Seq<u8>,
    sec: Seq<u8>,
    r: Result<Vec<u8>, DecodingError>,
) -> bool {
    if !is_ascii_chars(cand) {
        r == Err::<Vec<u8>, DecodingError>(
            DecodingError::PasswordFormat(PasswordFormatError::InvalidCharacters),
        )
    } else if cand.len() > hashing::MAX_PASSWORD_LEN {
        r == Err::<Vec<u8>, DecodingError>(
            DecodingError::PasswordFormat(PasswordFormatError::TooLong),
        )
    } else {
        match protocol::bcrypt_verification(hashing::password_digest(cand), token) {
            None => r == Err::<Vec<u8>, DecodingError>(DecodingError::HashPrimitive),
            Some(false) => r == Err::<Vec<u8>, DecodingError>(DecodingError::PasswordMismatch),
            Some(true) => transport_outcome(keys, sec, r),
        }
    }
}

/// Everything `decode` promises of its result, for the payload at `start`:
/// a truncated payload is reported as such, a protected payload goes
/// through the password check, and the secret comes back exactly where the
/// transport decode and the password check allow it.
pub open spec fn decode_outcome(
    keys: crypt::CipherKeys,
    password: Option<String>,
    bytes: Seq<u8>,
    start: int,
    r: Result<Vec<u8>, DecodingError>,
) -> bool {
    match codec::parse_spec(bytes, start) {
        None => r == Err::<Vec<u8>, DecodingError>(DecodingError::Truncated),
        Some(p) => match p.token {
            None => transport_outcome(keys, p.secret, r),
            Some(t) => (password matches Some(cand) ==> password_outcome(
                keys,
                cand@,
                t,
                p.secret,
                r,
            )),
        },
    }
}

/// The end-to-end round trip: any result that `decode`'s contract allows on
/// a buffer holding an encoded payload is the original secret. The payload
/// frames the transport-encoded cipher stream, with a verification token
/// exactly where a password is set; the hypotheses on the transport decode
/// and on the token are what the transport and adaptive-hash wrappers
/// guarantee at every encode call.
pub proof fn lemma_encoded_payload_decodes(
    keys: crypt::CipherKeys,
    secret: Seq<char>,
    password: Option<String>,
    token: Option<Seq<u8>>,
    prefix: Seq<u8>,
    r: Result<Vec<u8>, DecodingError>,
)
    requires
        crypt::keys_good(keys),
        is_ascii_chars(secret),
        transport::b64_decoding(transport::b64_encoding(encoder::secret_stream(keys, secret)))
            == Some(encoder::secret_stream(keys, secret)),
        transport::b64_encoding(encoder::secret_stream(keys, secret)).len() <= 255,
        token is Some <==> password is Some,
        (token matches Some(t) ==> t.len() <= 255),
        (password matches Some(p) ==> is_ascii_chars(p@) && p@.len() <= hashing::MAX_PASSWORD_LEN),
        (password matches Some(p) && token matches Some(t) ==> protocol::bcrypt_verification(
            hashing::password_digest(p@),
            t,
        ) == Some(true)),
        decode_outcome(
            keys,
            password,
            prefix + codec::build_spec(
                token,
                transport::b64_encoding(encoder::secret_stream(keys, secret)),
            ),
            prefix.len() as int,
            r,
        ),
    ensures
        r matches Ok(v) && v@ == encode_utf8(secret),
{
    broadcast use vstd::utf8::is_ascii_chars_encode_utf8;
    broadcast use vstd::utf8::is_ascii_chars_nat_bound;

    let stream = encoder::secret_stream(keys, secret);
    let crypt_bytes = transport::b64_encoding(stream);
    let payload = codec::build_spec(token, crypt_bytes);
    codec::lemma_parse_at_offset(prefix, payload);
    codec::lemma_build_parse_round_trip(token, crypt_bytes);
    assert(crypt::ascii_bytes(encode_utf8(secret)));
    crypt::lemma_cipher_round_trip(keys, encode_utf8(secret));
}

/// Decodes the payload that stands after the end-of-file marker at `index`
/// of `content`, using the configuration's password as the one candidate
/// where the payload is protected. Returns the secret's bytes, one
/// character per byte.
pub fn decode(config: &Config, content: &Vec<u8>, index: usize) -> (r: Result<
    Vec<u8>,
    DecodingError,
>)
    requires
        index + reading::eof_signature().len() <= usize::MAX,
        requires_password(content@, index + reading::eof_signature().len())
            ==> config.password is Some,
    ensures
        decode_outcome(
            config.keys,
            config.password,
            content@,
            index + reading::eof_signature().len(),
            r,
        ),
{
    Decoder::new(config, content, index).decode()
}

/// Whether the payload at `index` (before the end-of-file marker is
/// skipped) asks for a password: what a caller consults before prompting.
pub fn payload_requires_password(content: &Vec<u8>, index: usize) -> (r: Result<
    bool,
    DecodingError,
>)
    requires
        index + reading::eof_signature().len() <= usize::MAX,
    ensures
        r matches Ok(b) ==> b == requires_password(
            content@,
            index + reading::eof_signature().len(),
        ),
        r is Err <==> codec::parse_spec(content@, index + reading::eof_signature().len()) is None,
        r is Err ==> r == Err::<bool, DecodingError>(DecodingError::Truncated),
{
    let start: usize = index + 12;
    proof {
        assert(reading::eof_signature().len() == 12);
    }
    match codec::parse(content, start) {
        Ok(p) => Ok(p.verify_token.is_some()),
        Err(_) => Err(DecodingError::Truncated),
    }
}

/// Carries one decode call's configuration, buffer, and payload offset (the
/// end-of-file marker already skipped).
pub struct Decoder<'a> {
    pub config: &'a Config,
    pub content: &'a Vec<u8>,
    pub index: usize,
}

impl<'a> Decoder<'a> {
    /// Binds a configuration and a buffer for one decode call; the given
    /// index is where the end-of-file marker starts, and the payload
    /// follows it.
    pub fn new(config: &'a Config, content: &'a Vec<u8>, index: usize) -> (r: Decoder<'a>)
        requires
            index + reading::eof_signature().len() <= usize::MAX,
        ensures
            r.config == config,
            r.content == content,
            r.index == index + reading::eof_signature().len(),
    {
        proof {
            assert(reading::eof_signature().len() == 12);
        }
        Decoder { config, content, index: index + 12 }
    }

    /// Decodes the payload at this decoder's offset: parses the frame,
    /// checks the configuration's password against the stored token where
    /// one is present, and decodes the ciphertext block. The secret is
    /// never exposed on a failed check.
    pub fn decode(&self) -> (r: Result<Vec<u8>, DecodingError>)
        requires
            requires_password(self.content@, self.index as int) ==> self.config.password is Some,
        ensures
            decode_outcome(
                self.config.keys,
                self.config.password,
                self.content@,
                self.index as int,
                r,
            ),
    {
        let payload: codec::Payload = match codec::parse(self.content, self.index) {
            Ok(p) => p,
            Err(_) => {
                return Err(DecodingError::Truncated);
            },
        };
        if let Some(token) = &payload.verify_token {
            let candidate: &String = match &self.config.password {
                Some(p) => p,
                None => {
                    proof {
                        assert(false);
                    }
                    return vstd::pervasive::unreached();
                },
            };
            match protocol::check_password(candidate, token) {
                Ok(()) => (),
                Err(e) => {
                    return Err(e);
                },
            }
        }
        match crypt::decrypt_secret(payload.secret_bytes.as_slice(), &self.config.keys) {
            None => Err(DecodingError::InvalidTransport),
            Some(v) => Ok(v),
        }
    }
}

} // verus!
