//! The byte cipher: a reversible, keyed transform over a byte sequence,
//! wrapped in the textual transport encoding for safe embedding as bytes.
//!
//! Encoding reverses the secret, transforms every byte independently with a
//! per-index pepper, widens transformed bytes above 127 to their two-byte
//! character encoding, and transport-encodes the result. Decoding undoes the
//! transport encoding, inverse-transforms every byte, and reverses back.

use crate::transport;
use vstd::prelude::*;
use vstd::string::StringSliceAdditionalSpecFns;
use vstd::wrapping::u32_specs;

verus! {

/// The three numeric cipher parameters: a bit-shift amount, a large additive
/// constant and an XOR mask. Immutable once derived.
#[derive(Clone, Copy, Debug, PartialEq, Eq, Structural)]
pub struct CipherKeys {
    pub shift: u32,
    pub constant: u32,
    pub mask: u32,
}

pub open spec fn spec_within_range(x: u8, min: u8, max: u8) -> u8
    recommends
        min <= max,
        max - min < 255,
{
    ((x as int) % (max - min + 1) + min) as u8
}

/// Constrains `x` to the inclusive range `[min, max]` by taking `x` modulo
/// the width of the range and adding `min`.
pub fn within_range(x: u8, min: u8, max: u8) -> (r: u8)
    requires
        min <= max,
        max - min < 255,
    ensures
        r == spec_within_range(x, min, max),
        min <= r <= max,
{
    x % (max - min + 1) + min
}

/// The effective shift amount used by the transform, kept inside the safe
/// bit-shift range.
pub open spec fn eff_shift(shift: u32) -> u8 {
    spec_within_range(shift as u8, 1, 31)
}

/// The value XORed into the low byte of every transformed byte.
pub open spec fn trail_xor(shift: u32) -> u8 {
    spec_within_range(shift as u8, 7, 30)
}

/// The per-index pepper mixed into the transform of the byte at `idx`.
pub open spec fn pepper_at(idx: int) -> u8
    recommends
        idx >= 0,
{
    spec_within_range((idx % 256) as u8, 1, 8)
}

/// The forward transform over unsigned 32-bit values:
/// `(((constant + (x << sh)) ^ x) ^ mask) ^ pepper`, with the addition
/// wrapping modulo 2^32.
pub open spec fn forward_u32(x: u32, sh: u32, pepper: u32, constant: u32, mask: u32) -> u32
    recommends
        sh < 32,
{
    ((u32_specs::wrapping_add(constant, x << sh) ^ x) ^ mask) ^ pepper
}

/// Reversible fast randomization of a byte widened to 32 bits.
pub fn rand_bytes(x: u32, sh: u32, pepper: u32, gn: u32, xor: u32) -> (r: u32)
    requires
        sh < 32,
    ensures
        r == forward_u32(x, sh, pepper, gn, xor),
{
    ((gn.wrapping_add(x << sh) ^ x) ^ xor) ^ pepper
}

/// Reversible fast de-randomization: the forward transform wrapped in a
/// pre- and post-XOR with the pepper.
pub fn derand_bytes(x: u32, sh: u32, pepper: u32, gn: u32, xor: u32) -> (r: u32)
    requires
        sh < 32,
    ensures
        r == forward_u32(x ^ pepper, sh, pepper, gn, xor) ^ pepper,
{
    rand_bytes(x ^ pepper, sh, pepper, gn, xor) ^ pepper
}

/// One encoded byte, over plain parameters: the low byte of the forward
/// transform, XORed with the trailing value `k`.
pub open spec fn cipher_byte_raw(c: u8, sh: u32, pepper: u32, gn: u32, xor: u32, k: u8) -> u8
    recommends
        sh < 32,
{
    (forward_u32(c as u32, sh, pepper, gn, xor) as u8) ^ k
}

/// One decoded byte, over plain parameters: undo the trailing XOR with `k`,
/// then apply the inverse transform and take the low byte.
pub open spec fn decipher_byte_raw(b: u8, sh: u32, pepper: u32, gn: u32, xor: u32, k: u8) -> u8
    recommends
        sh < 32,
{
    ((forward_u32((((b ^ k) as u32) ^ pepper), sh, pepper, gn, xor) ^ pepper) as u8)
}

/// With an effective shift of at least 8, the byte transform is exactly
/// inverted by the byte inverse, and it maps bytes below 128 to bytes below
/// 128 whenever the low bytes of the constant and the mask agree on the top
/// bit.
proof fn lemma_byte_round_trip(c: u8, sh: u32, pepper: u32, gn: u32, xor: u32, k: u8)
    by (bit_vector)
    requires
        8 <= sh < 32,
        pepper < 128,
        k < 128,
    ensures
        decipher_byte_raw(cipher_byte_raw(c, sh, pepper, gn, xor, k), sh, pepper, gn, xor, k)
            == c,
        c < 128 && ((gn ^ xor) as u8) < 128 ==> cipher_byte_raw(c, sh, pepper, gn, xor, k) < 128,
{
}

/// The byte at `idx` of the secret, encoded under `keys`.
pub open spec fn cipher_byte(keys: CipherKeys, idx: int, c: u8) -> u8 {
    cipher_byte_raw(
        c,
        eff_shift(keys.shift) as u32,
        pepper_at(idx) as u32,
        keys.constant,
        keys.mask,
        trail_xor(keys.shift),
    )
}

/// The byte at `idx` of the transport-decoded stream, decoded under `keys`.
pub open spec fn decipher_byte(keys: CipherKeys, idx: int, b: u8) -> u8 {
    decipher_byte_raw(
        b,
        eff_shift(keys.shift) as u32,
        pepper_at(idx) as u32,
        keys.constant,
        keys.mask,
        trail_xor(keys.shift),
    )
}

/// A transformed byte collected as a character and written back out as
/// bytes: one byte below 128, the two-byte character encoding above.
pub open spec fn codepoint_utf8(b: u8) -> Seq<u8> {
    if b < 128 {
        seq![b]
    } else {
        seq![(0xC0u8 | (b >> 6)), (0x80u8 | (b & 0x3F))]
    }
}

/// Every byte of the sequence is below 128.
pub open spec fn ascii_bytes(s: Seq<u8>) -> bool {
    forall|i: int| 0 <= i < s.len() ==> s[i] < 128
}

/// Keys under which the cipher provably inverts itself on ASCII secrets:
/// the effective shift leaves the low byte of the wrapped addition alone,
/// and the constant and the mask agree on the top bit of their low bytes, so
/// that transformed bytes stay below 128.
pub open spec fn keys_good(keys: CipherKeys) -> bool {
    &&& eff_shift(keys.shift) >= 8
    &&& ((keys.constant ^ keys.mask) as u8) < 128
}

/// The byte stream fed to the transport encoding: each byte of `s`
/// transformed at its own index, each result written as a character.
pub open spec fn cipher_units(keys: CipherKeys, s: Seq<u8>) -> Seq<u8>
    decreases s.len(),
{
    if s.len() == 0 {
        Seq::empty()
    } else {
        cipher_units(keys, s.drop_last()) + codepoint_utf8(
            cipher_byte(keys, s.len() - 1, s.last()),
        )
    }
}

/// Each transport-decoded byte inverse-transformed at its own index.
pub open spec fn decipher_units(keys: CipherKeys, m: Seq<u8>) -> Seq<u8>
    decreases m.len(),
{
    if m.len() == 0 {
        Seq::empty()
    } else {
        decipher_units(keys, m.drop_last()) + seq![
            decipher_byte(keys, m.len() - 1, m.last()),
        ]
    }
}

/// What the cipher hands to the transport encoding for a secret: the
/// secret's bytes in reverse order, transformed byte by byte.
pub open spec fn encrypted_stream(keys: CipherKeys, secret: Seq<u8>) -> Seq<u8> {
    cipher_units(keys, secret.reverse())
}

/// What the cipher recovers from a transport-decoded stream: each byte
/// inverse-transformed, the whole reversed back into original order.
pub open spec fn deciphered_secret(keys: CipherKeys, m: Seq<u8>) -> Seq<u8> {
    decipher_units(keys, m).reverse()
}

proof fn lemma_within_range_bounds(x: u8, min: u8, max: u8)
    requires
        min <= max,
        max - min < 255,
    ensures
        min <= spec_within_range(x, min, max) <= max,
{
}

/// The byte transform at any index is inverted exactly by the byte inverse,
/// and keeps ASCII bytes ASCII under good keys.
proof fn lemma_cipher_byte_round_trip(keys: CipherKeys, idx: int, c: u8)
    requires
        keys_good(keys),
        idx >= 0,
    ensures
        decipher_byte(keys, idx, cipher_byte(keys, idx, c)) == c,
        c < 128 ==> cipher_byte(keys, idx, c) < 128,
{
    lemma_within_range_bounds(keys.shift as u8, 1, 31);
    lemma_within_range_bounds(keys.shift as u8, 7, 30);
    lemma_within_range_bounds((idx % 256) as u8, 1, 8);
    lemma_byte_round_trip(
        c,
        eff_shift(keys.shift) as u32,
        pepper_at(idx) as u32,
        keys.constant,
        keys.mask,
        trail_xor(keys.shift),
    );
}

/// On an all-ASCII input under good keys the transformed stream is one byte
/// per input byte, each below 128, each the byte transform at its own index.
proof fn lemma_cipher_units_ascii(keys: CipherKeys, s: Seq<u8>)
    requires
        keys_good(keys),
        ascii_bytes(s),
    ensures
        cipher_units(keys, s).len() == s.len(),
        forall|i: int|
            0 <= i < s.len() ==> #[trigger] cipher_units(keys, s)[i] == cipher_byte(
                keys,
                i,
                s[i],
            ) && cipher_units(keys, s)[i] < 128,
    decreases s.len(),
{
    if s.len() > 0 {
        let prefix = s.drop_last();
        assert(ascii_bytes(prefix));
        lemma_cipher_units_ascii(keys, prefix);
        lemma_cipher_byte_round_trip(keys, s.len() - 1, s.last());
    }
}

/// The inverse stream is one byte per input byte: the byte inverse applied
/// at each index.
proof fn lemma_decipher_units_index(keys: CipherKeys, m: Seq<u8>)
    ensures
        decipher_units(keys, m).len() == m.len(),
        forall|i: int|
            0 <= i < m.len() ==> #[trigger] decipher_units(keys, m)[i] == decipher_byte(
                keys,
                i,
                m[i],
            ),
    decreases m.len(),
{
    if m.len() > 0 {
        lemma_decipher_units_index(keys, m.drop_last());
    }
}

/// The cipher round trip: under good keys, decoding the encoded stream of
/// any ASCII secret yields the secret again, in original order.
pub proof fn lemma_cipher_round_trip(keys: CipherKeys, secret: Seq<u8>)
    requires
        keys_good(keys),
        ascii_bytes(secret),
    ensures
        deciphered_secret(keys, encrypted_stream(keys, secret)) == secret,
{
    let rev = secret.reverse();
    assert(ascii_bytes(rev));
    let e = cipher_units(keys, rev);
    lemma_cipher_units_ascii(keys, rev);
    lemma_decipher_units_index(keys, e);
    assert forall|i: int| 0 <= i < rev.len() implies #[trigger] decipher_units(keys, e)[i]
        == rev[i] by {
        lemma_cipher_byte_round_trip(keys, i, rev[i]);
    }
    assert(decipher_units(keys, e) =~= rev);
    assert(rev.reverse() =~= secret);
}

/// Encoding is a function of the secret and the keys alone: any two results
/// that meet the encoder's contract for the same inputs are equal.
pub proof fn lemma_encrypt_deterministic(
    keys: CipherKeys,
    secret: Seq<u8>,
    r1: Seq<u8>,
    r2: Seq<u8>,
)
    requires
        r1 == transport::b64_encoding(encrypted_stream(keys, secret)),
        r2 == transport::b64_encoding(encrypted_stream(keys, secret)),
    ensures
        r1 == r2,
{
}

/// The transformed stream is never shorter than the input: each byte yields
/// one or two bytes.
proof fn lemma_cipher_units_len(keys: CipherKeys, s: Seq<u8>)
    ensures
        s.len() <= cipher_units(keys, s).len() <= 2 * s.len(),
    decreases s.len(),
{
    if s.len() > 0 {
        lemma_cipher_units_len(keys, s.drop_last());
    }
}

fn eff_shift_x(shift: u32) -> (r: u8)
    ensures
        r == eff_shift(shift),
        1 <= r <= 31,
{
    within_range(#[verifier::truncate] (shift as u8), 1, 31)
}

fn trail_xor_x(shift: u32) -> (r: u8)
    ensures
        r == trail_xor(shift),
        7 <= r <= 30,
{
    within_range(#[verifier::truncate] (shift as u8), 7, 30)
}

fn pepper_at_x(idx: usize) -> (r: u8)
    ensures
        r == pepper_at(idx as int),
        1 <= r <= 8,
{
    proof {
        assert(idx as u8 == (idx % 256) as u8) by (bit_vector);
    }
    within_range(#[verifier::truncate] (idx as u8), 1, 8)
}

/// Encrypts the given ASCII secret, using the given keys as controls:
/// reverses the secret, transforms each byte, and transport-encodes the
/// transformed stream. The result is always longer than a non-empty secret,
/// so it never equals the secret's own bytes.
pub fn encrypt_secret(secret: &str, keys: &CipherKeys) -> (r: Vec<u8>)
    ensures
        r@ == transport::b64_encoding(encrypted_stream(*keys, secret.spec_bytes())),
        transport::b64_decoding(r@) == Some(encrypted_stream(*keys, secret.spec_bytes())),
        r@.len() == 4 * ((encrypted_stream(*keys, secret.spec_bytes()).len() + 2) / 3),
        secret.spec_bytes().len() > 0 ==> r@.len() > secret.spec_bytes().len(),
        secret.spec_bytes().len() > 0 ==> r@ != secret.spec_bytes(),
{
    let bytes: &[u8] = secret.as_bytes();
    let n: usize = bytes.len();
    let ghost rev = secret.spec_bytes().reverse();
    let mut stream: Vec<u8> = Vec::new();
    let mut i: usize = 0;
    while i < n
        invariant
            n == bytes@.len(),
            bytes@ == secret.spec_bytes(),
            rev == secret.spec_bytes().reverse(),
            i <= n,
            stream@ == cipher_units(*keys, rev.take(i as int)),
        decreases n - i,
    {
        let c: u8 = bytes[n - 1 - i];
        assert(c == rev[i as int]);
        let sh: u8 = eff_shift_x(keys.shift);
        let k: u8 = trail_xor_x(keys.shift);
        let pepper: u8 = pepper_at_x(i);
        let t: u32 = rand_bytes(c as u32, sh as u32, pepper as u32, keys.constant, keys.mask);
        let e: u8 = (#[verifier::truncate] (t as u8)) ^ k;
        assert(e == cipher_byte(*keys, i as int, rev[i as int]));
        if e < 128 {
            stream.push(e);
        } else {
            stream.push(0xC0u8 | (e >> 6u8));
            stream.push(0x80u8 | (e & 0x3Fu8));
        }
        proof {
            assert(rev.take(i + 1).drop_last() =~= rev.take(i as int));
            assert(rev.take(i + 1).last() == rev[i as int]);
            assert(stream@ =~= cipher_units(*keys, rev.take(i + 1)));
        }
        i = i + 1;
    }
    proof {
        assert(rev.take(n as int) =~= rev);
        lemma_cipher_units_len(*keys, rev);
    }
    let r = transport::b64_encode_bytes(&stream);
    proof {
        if secret.spec_bytes().len() > 0 {
            let m = encrypted_stream(*keys, secret.spec_bytes()).len() as int;
            let sn = secret.spec_bytes().len() as int;
            assert(rev.len() == sn);
            assert(m >= sn);
            assert(4 * ((m + 2) / 3) > m >= sn) by {
                let q = (m + 2) / 3;
                assert(m + 2 == 3 * q + ((m + 2) % 3));
                assert(0 <= (m + 2) % 3 < 3);
            }
            assert(r@.len() != secret.spec_bytes().len());
        }
    }
    r
}

/// Decrypts a transport-encoded stream using the given keys as controls:
/// transport-decodes, inverse-transforms each byte at its own index, and
/// reverses the result back into original order. Returns `None` exactly
/// where the input is not a valid transport encoding; each returned byte is
/// one character of the recovered secret.
pub fn decrypt_secret(encrypted: &[u8], keys: &CipherKeys) -> (r: Option<Vec<u8>>)
    ensures
        r is Some <==> transport::b64_decoding(encrypted@) is Some,
        r matches Some(v) ==> v@ == deciphered_secret(
            *keys,
            transport::b64_decoding(encrypted@).unwrap(),
        ),
{
    match transport::b64_decode_bytes(encrypted) {
        Err(_) => None,
        Ok(m) => {
            let n: usize = m.len();
            proof {
                lemma_decipher_units_index(*keys, m@);
            }
            let ghost d = decipher_units(*keys, m@);
            let mut out: Vec<u8> = Vec::new();
            let mut j: usize = 0;
            while j < n
                invariant
                    n == m@.len(),
                    d == decipher_units(*keys, m@),
                    d.len() == n,
                    forall|i: int| 0 <= i < n ==> #[trigger] d[i] == decipher_byte(*keys, i, m@[i]),
                    j <= n,
                    out@ == d.reverse().take(j as int),
                decreases n - j,
            {
                let idx: usize = n - 1 - j;
                let b: u8 = m[idx];
                let sh: u8 = eff_shift_x(keys.shift);
                let k: u8 = trail_xor_x(keys.shift);
                let pepper: u8 = pepper_at_x(idx);
                let y: u32 = (b ^ k) as u32;
                let t: u32 = derand_bytes(y, sh as u32, pepper as u32, keys.constant, keys.mask);
                let o: u8 = #[verifier::truncate] (t as u8);
                assert(o == decipher_byte(*keys, idx as int, m@[idx as int]));
                out.push(o);
                proof {
                    assert(d.reverse()[j as int] == d[n - 1 - j]);
                    assert(out@ =~= d.reverse().take(j + 1));
                }
                j = j + 1;
            }
            proof {
                assert(d.reverse().take(n as int) =~= d.reverse());
            }
            Some(out)
        },
    }
}

} // verus!
