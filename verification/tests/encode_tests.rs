use impass::config::{Config, Mode};
use impass::crypt::CipherKeys;
use impass::encoder::encode;
use impass::errors::{EncodeError, PasswordFormatError};
use impass::reading::{eof_signature_bytes, png_signature_bytes};

fn image_bytes() -> Vec<u8> {
    let mut content = png_signature_bytes();
    content.extend(eof_signature_bytes());
    content
}

fn config_with(keys: CipherKeys, pass: Option<String>) -> Config {
    Config::new(
        Mode::File,
        "tests/source.png".to_string(),
        pass,
        "output.png".to_string(),
        keys,
    )
}

#[test]
fn encode_appends_a_parsable_payload() {
    let cfg = config_with(CipherKeys { shift: 11, constant: 42, mask: 69 }, None);
    let mut content = image_bytes();
    let before = content.clone();

    encode(&cfg, &mut content, &"hi".to_string()).unwrap();

    assert_eq!(&content[..before.len()], &before[..]);
    let payload = impass::codec::parse(&content, before.len()).unwrap();
    assert_eq!(payload.verify_token, None);
    assert!(payload.secret_bytes.len() > 0);
}

#[test]
fn encode_rejects_an_oversized_secret() {
    let cfg = config_with(CipherKeys { shift: 11, constant: 42, mask: 69 }, None);
    let mut content = image_bytes();
    let before = content.clone();
    let long_secret: String = ["x"; 200].concat();

    assert_eq!(
        encode(&cfg, &mut content, &long_secret),
        Err(EncodeError::LengthOverflow)
    );
    assert_eq!(content, before);
}

#[test]
fn encode_rejects_a_long_password() {
    let cfg = config_with(
        CipherKeys { shift: 11, constant: 42, mask: 69 },
        Some("my password is tooo long".to_string()),
    );
    let mut content = image_bytes();
    let before = content.clone();

    assert_eq!(
        encode(&cfg, &mut content, &"hi".to_string()),
        Err(EncodeError::PasswordFormat(PasswordFormatError::TooLong))
    );
    assert_eq!(content, before);
}

#[test]
fn encode_rejects_a_non_ascii_password() {
    let cfg = config_with(
        CipherKeys { shift: 11, constant: 42, mask: 69 },
        Some("невалиден".to_string()),
    );
    let mut content = image_bytes();

    assert_eq!(
        encode(&cfg, &mut content, &"hi".to_string()),
        Err(EncodeError::PasswordFormat(PasswordFormatError::InvalidCharacters))
    );
}

#[test]
fn encode_rejects_keys_that_cannot_decode() {
    let cfg = config_with(CipherKeys { shift: 0, constant: 42, mask: 69 }, None);
    let mut content = image_bytes();
    let before = content.clone();

    assert_eq!(
        encode(&cfg, &mut content, &"hello world!".to_string()),
        Err(EncodeError::UnusableKeys)
    );
    assert_eq!(content, before);
}
