//! Checks a raw image buffer and locates the PNG end-of-file marker that the
//! payload is appended after. Reading the file itself is the caller's
//! business; this module only inspects bytes.

use crate::errors::ReadError;
use vstd::prelude::*;

verus! {

/// The eight bytes every PNG file starts with.
pub open spec fn png_signature() -> Seq<u8> {
    seq![137u8, 80u8, 78u8, 71u8, 13u8, 10u8, 26u8, 10u8]
}

/// The twelve bytes of the PNG end-of-file chunk.
pub open spec fn eof_signature() -> Seq<u8> {
    seq![0u8, 0u8, 0u8, 0u8, 73u8, 69u8, 78u8, 68u8, 174u8, 66u8, 96u8, 130u8]
}

/// The PNG end-of-file chunk as a byte vector.
pub fn eof_signature_bytes() -> (r: Vec<u8>)
    ensures
        r@ == eof_signature(),
{
    let v: Vec<u8> = vec![0u8, 0u8, 0u8, 0u8, 73u8, 69u8, 78u8, 68u8, 174u8, 66u8, 96u8, 130u8];
    proof {
        assert(v@ =~= eof_signature());
    }
    v
}

/// The PNG signature as a byte vector.
pub fn png_signature_bytes() -> (r: Vec<u8>)
    ensures
        r@ == png_signature(),
{
    let v: Vec<u8> = vec![137u8, 80u8, 78u8, 71u8, 13u8, 10u8, 26u8, 10u8];
    proof {
        assert(v@ =~= png_signature());
    }
    v
}

/// Whether the buffer begins with the PNG signature.
pub open spec fn is_png(content: Seq<u8>) -> bool {
    content.len() >= 8 && content.subrange(0, 8) == png_signature()
}

/// Whether `needle` occurs in `haystack` starting at `j`.
pub open spec fn occurs_at(haystack: Seq<u8>, needle: Seq<u8>, j: int) -> bool {
    0 <= j && j + needle.len() <= haystack.len() && haystack.subrange(j, j + needle.len())
        == needle
}

fn window_eq(haystack: &[u8], needle: &[u8], pos: usize) -> (r: bool)
    requires
        pos + needle@.len() <= haystack@.len(),
    ensures
        r == occurs_at(haystack@, needle@, pos as int),
{
    let len: usize = needle.len();
    let hlen: usize = haystack.len();
    let mut k: usize = 0;
    while k < len
        invariant
            hlen == haystack@.len(),
            pos + len <= haystack@.len(),
            len == needle@.len(),
            k <= len,
            forall|j: int| 0 <= j < k ==> haystack@[pos + j] == needle@[j],
        decreases len - k,
    {
        if haystack[pos + k] != needle[k] {
            proof {
                assert(haystack@.subrange(pos as int, pos + len)[k as int] == haystack@[pos + k]);
            }
            return false;
        }
        k = k + 1;
    }
    proof {
        assert(haystack@.subrange(pos as int, pos + len) =~= needle@);
    }
    true
}

/// Gives the index of the first occurrence of `needle` within `haystack`,
/// if one exists.
pub fn index_vec(haystack: &[u8], needle: &[u8]) -> (r: Option<usize>)
    requires
        needle@.len() >= 1,
    ensures
        r matches Some(i) ==> occurs_at(haystack@, needle@, i as int) && (forall|j: int|
            0 <= j < i ==> !occurs_at(haystack@, needle@, j)),
        r is None ==> (forall|j: int| !occurs_at(haystack@, needle@, j)),
{
    let hlen: usize = haystack.len();
    let nlen: usize = needle.len();
    if nlen > hlen {
        return None;
    }
    let mut pos: usize = 0;
    while pos <= hlen - nlen
        invariant
            nlen >= 1,
            nlen <= hlen,
            hlen == haystack@.len(),
            nlen == needle@.len(),
            pos <= hlen - nlen + 1,
            forall|j: int| 0 <= j < pos ==> !occurs_at(haystack@, needle@, j),
        decreases hlen - nlen + 1 - pos,
    {
        if window_eq(haystack, needle, pos) {
            return Some(pos);
        }
        pos = pos + 1;
    }
    None
}

/// Checks that the buffer is a PNG image and gives the index of its
/// end-of-file marker: the offset the payload is appended after. The buffer
/// is rejected where it does not begin with the PNG signature, or where it
/// holds no end-of-file marker.
pub fn gimme_bytecode(content: &Vec<u8>) -> (r: Result<usize, ReadError>)
    ensures
        r == Err::<usize, ReadError>(ReadError::NotPng) <==> !is_png(content@),
        r == Err::<usize, ReadError>(ReadError::MarkerMissing) <==> (is_png(content@) && (forall|
            j: int,
        | !occurs_at(content@, eof_signature(), j))),
        r matches Ok(i) ==> occurs_at(content@, eof_signature(), i as int) && (forall|j: int|
            0 <= j < i ==> !occurs_at(content@, eof_signature(), j)),
{
    let png: Vec<u8> = png_signature_bytes();
    if content.len() < 8 || !window_eq(content.as_slice(), png.as_slice(), 0) {
        proof {
            if content@.len() >= 8 {
                assert(!occurs_at(content@, png_signature(), 0));
            }
        }
        return Err(ReadError::NotPng);
    }
    proof {
        assert(is_png(content@));
    }
    let eof: Vec<u8> = eof_signature_bytes();
    match index_vec(content.as_slice(), eof.as_slice()) {
        Some(i) => Ok(i),
        None => Err(ReadError::MarkerMissing),
    }
}

/// Gives the index of the end-of-file marker within an already read image
/// buffer.
pub fn get_content(content: &Vec<u8>) -> (r: Result<usize, ReadError>)
    ensures
        r == Err::<usize, ReadError>(ReadError::NotPng) <==> !is_png(content@),
        r == Err::<usize, ReadError>(ReadError::MarkerMissing) <==> (is_png(content@) && (forall|
            j: int,
        | !occurs_at(content@, eof_signature(), j))),
        r matches Ok(i) ==> occurs_at(content@, eof_signature(), i as int) && (forall|j: int|
            0 <= j < i ==> !occurs_at(content@, eof_signature(), j)),
{
    gimme_bytecode(content)
}

} // verus!
