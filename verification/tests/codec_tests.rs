use impass::codec::{build, parse, Payload};
use impass::errors::CodecError;

#[test]
fn framing_round_trips_without_token() {
    let secret = vec![1u8, 2, 3, 4];
    let bytes = build(None, &secret).unwrap();
    assert_eq!(bytes, vec![0u8, 4, 1, 2, 3, 4]);

    let payload = parse(&bytes, 0).unwrap();
    assert_eq!(
        payload,
        Payload { verify_token: None, secret_bytes: secret }
    );
}

#[test]
fn framing_round_trips_with_token() {
    let token = vec![9u8, 8, 7];
    let secret = vec![1u8, 2];
    let bytes = build(Some(&token), &secret).unwrap();
    assert_eq!(bytes, vec![1u8, 3, 9, 8, 7, 2, 1, 2]);

    let payload = parse(&bytes, 0).unwrap();
    assert_eq!(
        payload,
        Payload { verify_token: Some(token), secret_bytes: secret }
    );
}

#[test]
fn framing_round_trips_with_empty_blocks() {
    let token = Vec::new();
    let secret = Vec::new();
    let bytes = build(Some(&token), &secret).unwrap();
    assert_eq!(bytes, vec![1u8, 0, 0]);

    let payload = parse(&bytes, 0).unwrap();
    assert_eq!(
        payload,
        Payload { verify_token: Some(token), secret_bytes: secret }
    );
}

#[test]
fn framing_round_trips_at_the_largest_size() {
    let token = vec![0xAAu8; 255];
    let secret = vec![0x55u8; 255];
    let bytes = build(Some(&token), &secret).unwrap();
    assert_eq!(bytes.len(), 1 + 1 + 255 + 1 + 255);

    let payload = parse(&bytes, 0).unwrap();
    assert_eq!(payload.verify_token, Some(token));
    assert_eq!(payload.secret_bytes, secret);
}

#[test]
fn build_rejects_oversized_blocks() {
    let long = vec![0u8; 256];
    let short = vec![0u8; 3];
    assert_eq!(build(Some(&long), &short), Err(CodecError::LengthOverflow));
    assert_eq!(build(None, &long), Err(CodecError::LengthOverflow));
    assert_eq!(build(Some(&short), &long), Err(CodecError::LengthOverflow));
}

#[test]
fn parse_detects_truncation() {
    let token = vec![9u8, 8, 7];
    let secret = vec![1u8, 2, 3];
    let bytes = build(Some(&token), &secret).unwrap();

    for end in 0..bytes.len() {
        let cut = bytes[..end].to_vec();
        assert_eq!(parse(&cut, 0), Err(CodecError::Truncated));
    }

    let bytes = build(None, &secret).unwrap();
    for end in 0..bytes.len() {
        let cut = bytes[..end].to_vec();
        assert_eq!(parse(&cut, 0), Err(CodecError::Truncated));
    }
}

#[test]
fn parse_reads_at_an_offset() {
    let secret = vec![42u8];
    let mut bytes = vec![0xFFu8, 0xEE];
    bytes.extend(build(None, &secret).unwrap());
    let payload = parse(&bytes, 2).unwrap();
    assert_eq!(payload.secret_bytes, secret);
    assert_eq!(payload.verify_token, None);
}

#[test]
fn parse_treats_other_flags_as_no_password() {
    let bytes = vec![7u8, 1, 99];
    let payload = parse(&bytes, 0).unwrap();
    assert_eq!(payload.verify_token, None);
    assert_eq!(payload.secret_bytes, vec![99u8]);
}

#[test]
fn parse_rejects_an_empty_buffer() {
    assert_eq!(parse(&Vec::new(), 0), Err(CodecError::Truncated));
    assert_eq!(parse(&vec![0u8, 1], 5), Err(CodecError::Truncated));
}
