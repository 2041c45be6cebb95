//! The password-protection protocol: on encode, derive the password's
//! digest and obtain a verification token from the adaptive-hash primitive;
//! on decode, check a single candidate against the stored token. The token
//! never contains the password, and the secret is exposed only after the
//! candidate verifies.

use crate::errors::{DecodingError, EncodeError, PasswordFormatError};
use crate::hashing;
use vstd::prelude::*;
use vstd::string::StrSliceExecFns;
use vstd::utf8::is_ascii_chars;

verus! {

/// The fixed work-cost constant handed to the adaptive-hash primitive.
pub const BCRYPT_COST: u32 = 15;

/// The outcome of the adaptive-hash primitive's verify operation for a
/// password and a stored token, both as byte sequences (token bytes are one
/// byte per character): `None` where the primitive itself fails (a
/// malformed token), `Some(b)` where it answers.
pub uninterp spec fn bcrypt_verification(password: Seq<u8>, token: Seq<u8>) -> Option<bool>;

#[verifier::external_type_specification]
#[verifier::external_body]
pub struct ExBcryptError(bcrypt::BcryptError);

/// Relies on bcrypt::hash: on success the result is a 60-character ASCII
/// token, and bcrypt::verify accepts that token against the same password
/// (verify re-derives the hash from the cost and salt stored in the token).
#[verifier::external_body]
fn bcrypt_hash_token(password: &Vec<u8>, cost: u32) -> (r: Result<String, bcrypt::BcryptError>)
    ensures
        r matches Ok(t) ==> {
            &&& t@.len() == 60
            &&& is_ascii_chars(t@)
            &&& bcrypt_verification(password@, t@.map_values(|c: char| c as u8)) == Some(true)
        },
{
    bcrypt::hash(password.as_slice(), cost)
}

/// Relies on bcrypt::verify: whether it succeeds, and with what answer, is
/// a function of the password and the stored token alone. The token bytes
/// are handed over one character per byte, as they were stored.
#[verifier::external_body]
fn bcrypt_verify_token(password: &Vec<u8>, token: &Vec<u8>) -> (r: Result<
    bool,
    bcrypt::BcryptError,
>)
    ensures
        match r {
            Ok(b) => bcrypt_verification(password@, token@) == Some(b),
            Err(_) => bcrypt_verification(password@, token@) is None,
        },
{
    let stored: String = token.iter().map(|b| *b as char).collect();
    bcrypt::verify(password.as_slice(), &stored)
}

/// Derives the verification token stored in the payload for a password:
/// validates the password, collapses it to its decimal digest, and has the
/// adaptive-hash primitive produce a token for that digest. On success the
/// token is 60 bytes, one per character, and verifies against the same
/// password's digest.
pub fn make_verify_token(password: &String) -> (r: Result<Vec<u8>, EncodeError>)
    ensures
        r == Err::<Vec<u8>, EncodeError>(
            EncodeError::PasswordFormat(PasswordFormatError::InvalidCharacters),
        ) <==> !is_ascii_chars(password@),
        r == Err::<Vec<u8>, EncodeError>(
            EncodeError::PasswordFormat(PasswordFormatError::TooLong),
        ) <==> (is_ascii_chars(password@) && password@.len() > hashing::MAX_PASSWORD_LEN),
        r matches Ok(t) ==> {
            &&& t@.len() == 60
            &&& bcrypt_verification(hashing::password_digest(password@), t@) == Some(true)
        },
        r == Err::<Vec<u8>, EncodeError>(EncodeError::HashPrimitive) ==> (is_ascii_chars(
            password@,
        ) && password@.len() <= hashing::MAX_PASSWORD_LEN),
        r is Err ==> (r == Err::<Vec<u8>, EncodeError>(
            EncodeError::PasswordFormat(PasswordFormatError::InvalidCharacters),
        ) || r == Err::<Vec<u8>, EncodeError>(
            EncodeError::PasswordFormat(PasswordFormatError::TooLong),
        ) || r == Err::<Vec<u8>, EncodeError>(EncodeError::HashPrimitive)),
{
    broadcast use vstd::utf8::is_ascii_chars_encode_utf8;

    let hashed: u128 = match hashing::impassible_hash(password) {
        Ok(h) => h,
        Err(pf) => {
            return Err(EncodeError::PasswordFormat(pf));
        },
    };
    let digest: Vec<u8> = hashing::u128_to_decimal(hashed);
    match bcrypt_hash_token(&digest, BCRYPT_COST) {
        Ok(token) => {
            let bytes: Vec<u8> = token.as_str().as_bytes_vec();
            proof {
                assert(bytes@ =~= token@.map_values(|c: char| c as u8));
            }
            Ok(bytes)
        },
        Err(_) => Err(EncodeError::HashPrimitive),
    }
}

/// Checks one password candidate against a stored verification token:
/// validates the candidate, collapses it to its decimal digest, and asks the
/// adaptive-hash primitive whether the digest matches the token. A mismatch
/// and a primitive failure are reported as distinct errors, and the message
/// carries neither the token nor the digest.
pub fn check_password(candidate: &String, token: &Vec<u8>) -> (r: Result<(), DecodingError>)
    ensures
        r == Err::<(), DecodingError>(
            DecodingError::PasswordFormat(PasswordFormatError::InvalidCharacters),
        ) <==> !is_ascii_chars(candidate@),
        r == Err::<(), DecodingError>(
            DecodingError::PasswordFormat(PasswordFormatError::TooLong),
        ) <==> (is_ascii_chars(candidate@) && candidate@.len() > hashing::MAX_PASSWORD_LEN),
        (is_ascii_chars(candidate@) && candidate@.len() <= hashing::MAX_PASSWORD_LEN) ==> r
            == (match bcrypt_verification(hashing::password_digest(candidate@), token@) {
            Some(true) => Ok::<(), DecodingError>(()),
            Some(false) => Err::<(), DecodingError>(DecodingError::PasswordMismatch),
            None => Err::<(), DecodingError>(DecodingError::HashPrimitive),
        }),
{
    let hashed: u128 = match hashing::impassible_hash(candidate) {
        Ok(h) => h,
        Err(pf) => {
            return Err(DecodingError::PasswordFormat(pf));
        },
    };
    let digest: Vec<u8> = hashing::u128_to_decimal(hashed);
    match bcrypt_verify_token(&digest, token) {
        Ok(true) => Ok(()),
        Ok(false) => Err(DecodingError::PasswordMismatch),
        Err(_) => Err(DecodingError::HashPrimitive),
    }
}

} // verus!
