//! The error taxonomy of the library. Every error is unrecoverable at the
//! point of detection: a function surfaces it immediately and never returns
//! a partial result.

use vstd::prelude::*;

verus! {

/// A configuration override for a numeric cipher parameter failed to parse.
/// The variant names the offending field.
#[derive(Clone, Copy, Debug, PartialEq, Eq, Structural)]
pub enum ConfigError {
    Shift,
    Godnum,
    Xor,
}

/// A password failed validation before any hashing occurred.
#[derive(Clone, Copy, Debug, PartialEq, Eq, Structural)]
pub enum PasswordFormatError {
    /// The password contains characters outside the ASCII range.
    InvalidCharacters,
    /// The password is longer than the protocol limit of 11 characters.
    TooLong,
}

/// Assembling or parsing the binary payload failed.
#[derive(Clone, Copy, Debug, PartialEq, Eq, Structural)]
pub enum CodecError {
    /// A declared length field exceeds the remaining buffer: the file is
    /// corrupted or foreign.
    Truncated,
    /// A block would need a length over 255, which the single-byte length
    /// fields cannot describe. Detected before any byte is written.
    LengthOverflow,
}

/// The encode path failed; nothing was appended to the output buffer.
#[derive(Clone, Copy, Debug, PartialEq, Eq, Structural)]
pub enum EncodeError {
    /// The password failed validation before any hashing occurred.
    PasswordFormat(PasswordFormatError),
    /// The adaptive-hash primitive itself failed (not a mismatch).
    HashPrimitive,
    /// The cipher parameters do not decode their own output back to the
    /// secret; the configuration must be changed before encoding.
    UnusableKeys,
    /// The encoded secret does not fit a single-byte length field.
    LengthOverflow,
}

/// The decode path failed; the secret is not exposed.
#[derive(Clone, Copy, Debug, PartialEq, Eq, Structural)]
pub enum DecodingError {
    /// A declared length field exceeds the remaining buffer.
    Truncated,
    /// The ciphertext block is not valid transport encoding: the payload is
    /// corrupted or foreign.
    InvalidTransport,
    /// The supplied password failed validation before any hashing occurred.
    PasswordFormat(PasswordFormatError),
    /// The password candidate does not match the stored verification token.
    PasswordMismatch,
    /// The adaptive-hash primitive failed on the stored token (payload
    /// corruption, not a wrong password).
    HashPrimitive,
}

/// The raw image buffer was rejected before any payload work.
#[derive(Clone, Copy, Debug, PartialEq, Eq, Structural)]
pub enum ReadError {
    /// The buffer does not begin with the PNG signature.
    NotPng,
    /// The buffer holds no PNG end-of-file marker.
    MarkerMissing,
}

} // verus!
