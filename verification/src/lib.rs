//! Hides a short secret string inside a PNG image file by appending an
//! encoded payload after the image's end-of-file marker, optionally protected
//! by a password, and later extracts and decodes that payload again.

pub mod codec;
pub mod config;
pub mod crypt;
pub mod decoder;
pub mod encoder;
pub mod errors;
pub mod hashing;
pub mod keys;
pub mod protocol;
pub mod reading;
pub mod transport;
