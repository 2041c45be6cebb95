use impass::config::{generate_config, Mode};
use impass::decoder::{decode, payload_requires_password};
use impass::encoder::encode;
use impass::errors::{DecodingError, PasswordFormatError};
use impass::reading::{eof_signature_bytes, get_content, png_signature_bytes};

/// A minimal image buffer: the PNG signature directly followed by the
/// end-of-file marker.
fn image_bytes() -> Vec<u8> {
    let mut content = png_signature_bytes();
    content.extend(eof_signature_bytes());
    content
}

/// Encodes `secret` into a fresh image buffer, with an optional password,
/// and returns the buffer with the index of the end-of-file marker.
fn encoded_image(pass: Option<String>, secret: &str) -> (Vec<u8>, usize) {
    let cfg = generate_config(pass, Mode::File, "tests/source.png".to_string());
    let mut content = image_bytes();
    let index = get_content(&content).unwrap();
    encode(&cfg, &mut content, &secret.to_string()).unwrap();
    (content, index)
}

#[test]
fn decode_without_password() {
    let (bytes, index) = encoded_image(None, "hello world!");
    let cfg = generate_config(None, Mode::Read, "tests/nopass.png".to_string());

    let secret = decode(&cfg, &bytes, index).unwrap();

    assert_eq!(secret, "hello world!".as_bytes().to_vec());
}

#[test]
fn decode_with_password() {
    let (bytes, index) = encoded_image(Some("asdasd".to_string()), "hello world!");
    let cfg = generate_config(
        Some("asdasd".to_string()),
        Mode::Read,
        "tests/asdasd_pass.png".to_string(),
    );

    let secret = decode(&cfg, &bytes, index).unwrap();

    assert_eq!(secret, "hello world!".as_bytes().to_vec());
}

#[test]
fn disallows_decoding_with_wrong_pass() {
    let (bytes, index) = encoded_image(Some("asdasd".to_string()), "hello world!");
    let cfg = generate_config(
        Some("wrongpass".to_string()),
        Mode::Read,
        "tests/asdasd_pass.png".to_string(),
    );

    assert_eq!(decode(&cfg, &bytes, index), Err(DecodingError::PasswordMismatch));
}

#[test]
fn disallows_decoding_with_invalid_pass() {
    let (bytes, index) = encoded_image(Some("asdasd".to_string()), "hello world!");
    let cfg = generate_config(
        Some("невалидна".to_string()),
        Mode::Read,
        "tests/asdasd_pass.png".to_string(),
    );

    assert_eq!(
        decode(&cfg, &bytes, index),
        Err(DecodingError::PasswordFormat(PasswordFormatError::InvalidCharacters))
    );
}

#[test]
fn reports_whether_a_payload_needs_a_password() {
    let (bytes, index) = encoded_image(None, "abc");
    assert_eq!(payload_requires_password(&bytes, index), Ok(false));

    let (bytes, index) = encoded_image(Some("asdasd".to_string()), "abc");
    assert_eq!(payload_requires_password(&bytes, index), Ok(true));
}

#[test]
fn decode_detects_truncation() {
    let (bytes, index) = encoded_image(None, "hello world!");
    let cfg = generate_config(None, Mode::Read, "tests/nopass.png".to_string());

    let cut = bytes[..bytes.len() - 1].to_vec();
    assert_eq!(decode(&cfg, &cut, index), Err(DecodingError::Truncated));

    let empty_payload = image_bytes();
    assert_eq!(decode(&cfg, &empty_payload, index), Err(DecodingError::Truncated));
}
