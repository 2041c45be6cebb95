//! The encode path: derive the verification token where a password is set,
//! encode the secret with the byte cipher, check that the configured keys
//! decode their own output, and append the assembled payload to the image
//! buffer. On any error nothing is appended.

use crate::codec;
use crate::config::Config;
use crate::crypt;
use crate::errors::{EncodeError, PasswordFormatError};
use crate::hashing;
use crate::keys;
use crate::protocol;
use crate::transport;
use vstd::prelude::*;
use vstd::utf8::encode_utf8;
use vstd::utf8::is_ascii_chars;

verus! {

/// The byte stream the cipher produces for this secret under these keys.
pub open spec fn secret_stream(keys: crypt::CipherKeys, secret: Seq<char>) -> Seq<u8> {
    crypt::encrypted_stream(keys, encode_utf8(secret))
}

/// Whether the keys decode their own encoding of this secret: the check the
/// encoder makes before writing anything.
pub open spec fn keys_usable(keys: crypt::CipherKeys, secret: Seq<char>) -> bool {
    crypt::deciphered_secret(keys, secret_stream(keys, secret)) == encode_utf8(secret)
}

/// Whether the transport-encoded secret fits the single-byte length field.
pub open spec fn secret_fits(keys: crypt::CipherKeys, secret: Seq<char>) -> bool {
    4 * ((secret_stream(keys, secret).len() + 2) / 3) <= 255
}

/// Good keys pass the encoder's own check on every ASCII secret: encoding
/// never fails with unusable keys there.
pub proof fn lemma_good_keys_usable(keys: crypt::CipherKeys, secret: Seq<char>)
    requires
        crypt::keys_good(keys),
        is_ascii_chars(secret),
    ensures
        keys_usable(keys, secret),
{
    broadcast use vstd::utf8::is_ascii_chars_encode_utf8;
    broadcast use vstd::utf8::is_ascii_chars_nat_bound;

    assert(crypt::ascii_bytes(encode_utf8(secret)));
    crypt::lemma_cipher_round_trip(keys, encode_utf8(secret));
}

/// Encodes the given secret into an image buffer, under the given
/// configuration's password and keys.
pub fn encode(config: &Config, content: &mut Vec<u8>, secret: &String) -> (r: Result<
    (),
    EncodeError,
>)
    ensures
        encode_outcome(*config, old(content)@, final(content)@, secret@, r),
{
    Encoder::new(config, secret).encode(content)
}

/// Everything `encode` promises of the buffer and the result. On success the
/// payload bytes for this secret stand appended, framed with a verification
/// token exactly where a password is set; on any error the buffer is
/// unchanged and the error names what failed first.
pub open spec fn encode_outcome(
    config: Config,
    content_old: Seq<u8>,
    content_new: Seq<u8>,
    secret: Seq<char>,
    r: Result<(), EncodeError>,
) -> bool {
    let ks = config.keys;
    let crypt_bytes = transport::b64_encoding(secret_stream(ks, secret));
    &&& (r is Err ==> content_new == content_old)
    &&& (r is Ok ==> keys_usable(ks, secret) && secret_fits(ks, secret))
    &&& (match config.password {
        None => {
            &&& (r is Ok <==> keys_usable(ks, secret) && secret_fits(ks, secret))
            &&& (r == Err::<(), EncodeError>(EncodeError::UnusableKeys) <==> !keys_usable(
                ks,
                secret,
            ))
            &&& (r == Err::<(), EncodeError>(EncodeError::LengthOverflow) <==> (keys_usable(
                ks,
                secret,
            ) && !secret_fits(ks, secret)))
            &&& (r is Ok ==> content_new == content_old + codec::build_spec(None, crypt_bytes))
        },
        Some(p) => {
            &&& (r == Err::<(), EncodeError>(
                EncodeError::PasswordFormat(PasswordFormatError::InvalidCharacters),
            ) <==> !is_ascii_chars(p@))
            &&& (r == Err::<(), EncodeError>(
                EncodeError::PasswordFormat(PasswordFormatError::TooLong),
            ) <==> (is_ascii_chars(p@) && p@.len() > hashing::MAX_PASSWORD_LEN))
            &&& (r == Err::<(), EncodeError>(EncodeError::HashPrimitive) ==> (is_ascii_chars(p@)
                && p@.len() <= hashing::MAX_PASSWORD_LEN))
            &&& (r == Err::<(), EncodeError>(EncodeError::UnusableKeys) ==> !keys_usable(
                ks,
                secret,
            ))
            &&& (r == Err::<(), EncodeError>(EncodeError::LengthOverflow) ==> !secret_fits(
                ks,
                secret,
            ))
            &&& (r is Ok ==> exists|tok: Seq<u8>|
                {
                    &&& tok.len() == 60
                    &&& protocol::bcrypt_verification(hashing::password_digest(p@), tok) == Some(
                        true,
                    )
                    &&& content_new == content_old + codec::build_spec(Some(tok), crypt_bytes)
                })
        },
    })
}

/// Carries one encode call's configuration and secret.
pub struct Encoder<'a> {
    pub config: &'a Config,
    pub secret: &'a String,
}

impl<'a> Encoder<'a> {
    /// Binds a configuration and a secret for one encode call.
    pub fn new(config: &'a Config, secret: &'a String) -> (r: Encoder<'a>)
        ensures
            r.config == config,
            r.secret == secret,
    {
        Encoder { config, secret }
    }

    /// Appends the payload for this encoder's secret to the buffer. Where a
    /// password is set, its verification token is derived first; then the
    /// secret is encoded, the keys are checked against their own output, and
    /// the framed payload is appended. On any error the buffer is unchanged.
    pub fn encode(&self, content: &mut Vec<u8>) -> (r: Result<(), EncodeError>)
        ensures
            encode_outcome(*self.config, old(content)@, final(content)@, self.secret@, r),
    {
        let token: Option<Vec<u8>> = match &self.config.password {
            Some(p) => match protocol::make_verify_token(p) {
                Ok(t) => Some(t),
                Err(e) => {
                    return Err(e);
                },
            },
            None => None,
        };
        let crypt_bytes: Vec<u8> = crypt::encrypt_secret(self.secret.as_str(), &self.config.keys);
        match crypt::decrypt_secret(crypt_bytes.as_slice(), &self.config.keys) {
            Some(d) => {
                if !keys::slice_eq(d.as_slice(), self.secret.as_str().as_bytes()) {
                    return Err(EncodeError::UnusableKeys);
                }
            },
            None => {
                proof {
                    assert(false);
                }
                return vstd::pervasive::unreached();
            },
        }
        match codec::build(token.as_ref(), &crypt_bytes) {
            Ok(mut payload) => {
                content.append(&mut payload);
                Ok(())
            },
            Err(_) => Err(EncodeError::LengthOverflow),
        }
    }
}

} // verus!
