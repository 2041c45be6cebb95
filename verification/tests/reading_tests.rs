use impass::errors::ReadError;
use impass::reading::{eof_signature_bytes, get_content, gimme_bytecode, index_vec, png_signature_bytes};

#[test]
fn index_vec_works() {
    let nums = [1, 2, 3, 4, 5, 6];
    let target = [3, 4, 5];

    let idx = index_vec(&nums, &target);

    assert_eq!(idx, Some(2));

    let idx = index_vec(&nums, &[4, 3]);

    assert_eq!(idx, None);
}

#[test]
fn index_vec_finds_the_first_occurrence() {
    let haystack = [7, 7, 1, 2, 1, 2];
    assert_eq!(index_vec(&haystack, &[1, 2]), Some(2));
    assert_eq!(index_vec(&haystack, &[7]), Some(0));
    assert_eq!(index_vec(&[1, 2], &[1, 2, 3]), None);
}

#[test]
fn gimme_bytecode_finds_the_marker() {
    let mut content = png_signature_bytes();
    content.extend([1u8, 2, 3]);
    let marker_at = content.len();
    content.extend(eof_signature_bytes());
    content.extend([9u8, 9]);

    assert_eq!(gimme_bytecode(&content), Ok(marker_at));
    assert_eq!(get_content(&content), Ok(marker_at));
}

#[test]
fn gimme_bytecode_rejects_non_png_buffers() {
    let mut content = vec![1u8, 2, 3, 4, 5, 6, 7, 8];
    content.extend(eof_signature_bytes());
    assert_eq!(gimme_bytecode(&content), Err(ReadError::NotPng));
    assert_eq!(gimme_bytecode(&vec![137u8, 80]), Err(ReadError::NotPng));
}

#[test]
fn gimme_bytecode_rejects_a_png_without_marker() {
    let mut content = png_signature_bytes();
    content.extend([1u8, 2, 3, 4]);
    assert_eq!(gimme_bytecode(&content), Err(ReadError::MarkerMissing));
}
