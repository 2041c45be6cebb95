//! The password hasher: collapses a short ASCII password into a fixed-width
//! numeric digest, used only for password verification, never for secret
//! encryption. The digest's decimal form is what the verification protocol
//! hands to the adaptive-hash primitive.

use crate::errors::PasswordFormatError;
use vstd::prelude::*;
use vstd::string::StringExecFnsIsAscii;
use vstd::string::StringSliceAdditionalSpecFns;
use vstd::utf8::is_ascii_chars;
use vstd::wrapping::u128_specs;

verus! {

/// One round of the one-at-a-time hash: add the character, then
/// `hash += hash << 10; hash ^= hash >> 6`, wrapping on 128 bits.
pub open spec fn jenkins_mix(h0: u128, c: u128) -> u128 {
    let h1 = u128_specs::wrapping_add(h0, c);
    let h2 = u128_specs::wrapping_add(h1, h1 << 10);
    h2 ^ (h2 >> 6)
}

/// The running hash after all characters of `s`, starting from zero.
pub open spec fn jenkins_loop(s: Seq<char>) -> u128
    decreases s.len(),
{
    if s.len() == 0 {
        0u128
    } else {
        jenkins_mix(jenkins_loop(s.drop_last()), s.last() as u128)
    }
}

/// The finalization: `hash += hash << 3; hash ^= hash >> 11;
/// hash += hash << 15`, wrapping on 128 bits.
pub open spec fn jenkins_final(h0: u128) -> u128 {
    let h1 = u128_specs::wrapping_add(h0, h0 << 3);
    let h2 = h1 ^ (h1 >> 11);
    u128_specs::wrapping_add(h2, h2 << 15)
}

/// The full 128-bit digest of a password's characters.
pub open spec fn jenkins_hash(s: Seq<char>) -> u128 {
    jenkins_final(jenkins_loop(s))
}

/// The password length limit of the protocol.
pub const MAX_PASSWORD_LEN: usize = 11;

/// Modified one-at-a-time hash to work in conjunction with the
/// adaptive-hash primitive. Accepts ASCII-only strings of at most 11
/// characters; each violation is a distinct error, raised before any
/// hashing occurs.
pub fn impassible_hash(item: &String) -> (r: Result<u128, PasswordFormatError>)
    ensures
        r == Err::<u128, PasswordFormatError>(PasswordFormatError::InvalidCharacters)
            <==> !is_ascii_chars(item@),
        r == Err::<u128, PasswordFormatError>(PasswordFormatError::TooLong) <==> (is_ascii_chars(
            item@,
        ) && item@.len() > MAX_PASSWORD_LEN),
        r matches Ok(h) ==> h == jenkins_hash(item@),
        r is Ok <==> (is_ascii_chars(item@) && item@.len() <= MAX_PASSWORD_LEN),
{
    broadcast use vstd::utf8::is_ascii_chars_encode_utf8;
    broadcast use vstd::utf8::is_ascii_chars_nat_bound;

    if !item.is_ascii() {
        return Err(PasswordFormatError::InvalidCharacters);
    }
    assert(is_ascii_chars(item@));
    let bytes: &[u8] = item.as_str().as_bytes();
    assert(bytes@ == vstd::utf8::encode_utf8(item@));
    let n: usize = bytes.len();
    assert(n == item@.len());
    if n > MAX_PASSWORD_LEN {
        return Err(PasswordFormatError::TooLong);
    }
    let mut hash: u128 = 0;
    let mut i: usize = 0;
    while i < n
        invariant
            n == bytes@.len(),
            n == item@.len(),
            is_ascii_chars(item@),
            forall|j: int| 0 <= j < n ==> bytes@[j] == item@[j] as u8,
            i <= n,
            hash == jenkins_loop(item@.take(i as int)),
        decreases n - i,
    {
        let c: u128 = bytes[i] as u128;
        assert(c == item@[i as int] as u128);
        hash = hash.wrapping_add(c);
        hash = hash.wrapping_add(hash << 10u128);
        hash = hash ^ (hash >> 6u128);
        proof {
            assert(item@.take(i + 1).drop_last() =~= item@.take(i as int));
            assert(item@.take(i + 1).last() == item@[i as int]);
        }
        i = i + 1;
    }
    proof {
        assert(item@.take(n as int) =~= item@);
    }
    hash = hash.wrapping_add(hash << 3u128);
    hash = hash ^ (hash >> 11u128);
    hash = hash.wrapping_add(hash << 15u128);
    Ok(hash)
}

/// Hashing is a function of the password's characters alone: equal
/// passwords always produce equal digests.
pub proof fn lemma_hash_deterministic(p1: Seq<char>, p2: Seq<char>)
    requires
        p1 == p2,
    ensures
        jenkins_hash(p1) == jenkins_hash(p2),
{
}

proof fn lemma_final_mix_separates_bytes(c1: u128, c2: u128)
    by (bit_vector)
    requires
        c1 < 128,
        c2 < 128,
        jenkins_final(jenkins_mix(0, c1)) == jenkins_final(jenkins_mix(0, c2)),
    ensures
        c1 == c2,
{
}

/// Hashing separates distinct single-character passwords: two ASCII
/// characters with the same digest are the same character.
pub proof fn lemma_hash_separates_single_characters(p1: Seq<char>, p2: Seq<char>)
    requires
        p1.len() == 1,
        p2.len() == 1,
        is_ascii_chars(p1),
        is_ascii_chars(p2),
        jenkins_hash(p1) == jenkins_hash(p2),
    ensures
        p1 == p2,
{
    broadcast use vstd::utf8::is_ascii_chars_nat_bound;

    assert(jenkins_loop(p1) == jenkins_mix(0, p1.last() as u128)) by {
        reveal_with_fuel(jenkins_loop, 2);
        assert(p1.drop_last() =~= Seq::<char>::empty());
    }
    assert(jenkins_loop(p2) == jenkins_mix(0, p2.last() as u128)) by {
        reveal_with_fuel(jenkins_loop, 2);
        assert(p2.drop_last() =~= Seq::<char>::empty());
    }
    lemma_final_mix_separates_bytes(p1.last() as u128, p2.last() as u128);
    assert(p1.last() == p2.last()) by {
        vstd::utf8::char_u32_cast(p1.last(), p1.last() as u32);
        vstd::utf8::char_u32_cast(p2.last(), p2.last() as u32);
        assert(p1.last() as u32 == p2.last() as u32) by {
            assert(p1.last() as u128 == p2.last() as u128);
        }
    }
    assert(p1 =~= p2);
}

/// The decimal representation of a number, one ASCII digit byte per digit,
/// without leading zeros.
pub open spec fn dec_digits(n: nat) -> Seq<u8>
    decreases n,
{
    if n < 10 {
        seq![(48 + n) as u8]
    } else {
        dec_digits(n / 10) + seq![(48 + n % 10) as u8]
    }
}

/// The digest string the verification protocol feeds to the adaptive-hash
/// primitive: the decimal form of the password's 128-bit digest.
pub open spec fn password_digest(p: Seq<char>) -> Seq<u8> {
    dec_digits(jenkins_hash(p) as nat)
}

/// Writes `n` in decimal, one ASCII digit byte per digit.
pub fn u128_to_decimal(n: u128) -> (r: Vec<u8>)
    ensures
        r@ == dec_digits(n as nat),
{
    let mut rest: Vec<u8> = Vec::new();
    let mut m: u128 = n;
    while m >= 10
        invariant
            dec_digits(n as nat) =~= dec_digits(m as nat) + rest@.reverse(),
        decreases m,
    {
        let d: u8 = 48 + (m % 10) as u8;
        rest.push(d);
        proof {
            assert((rest@).reverse() =~= seq![d] + rest@.drop_last().reverse());
        }
        m = m / 10;
    }
    let mut out: Vec<u8> = Vec::new();
    out.push(48 + m as u8);
    let k: usize = rest.len();
    let mut j: usize = 0;
    while j < k
        invariant
            k == rest@.len(),
            j <= k,
            out@ == seq![(48 + m as nat) as u8] + rest@.reverse().take(j as int),
            dec_digits(n as nat) =~= dec_digits(m as nat) + rest@.reverse(),
            m < 10,
        decreases k - j,
    {
        let b: u8 = rest[k - 1 - j];
        out.push(b);
        proof {
            assert(rest@.reverse()[j as int] == rest@[k - 1 - j]);
            assert(rest@.reverse().take(j + 1) =~= rest@.reverse().take(j as int) + seq![
                rest@.reverse()[j as int],
            ]);
        }
        j = j + 1;
    }
    proof {
        assert(rest@.reverse().take(k as int) =~= rest@.reverse());
        assert(out@ =~= dec_digits(n as nat));
    }
    out
}

} // verus!
