//! Key derivation: resolves the three numeric cipher parameters from named
//! configuration values, with validation. Missing names fall back to fixed
//! defaults; a value that does not parse as a non-negative integer is a
//! fatal configuration error naming the offending field.

use crate::crypt::CipherKeys;
use crate::errors::ConfigError;
use vstd::prelude::*;
use vstd::string::StringSliceAdditionalSpecFns;
use vstd::utf8::encode_utf8;

verus! {

pub const DEFAULT_SHIFT: u32 = 11;

pub const DEFAULT_GODNUM: u32 = 42;

pub const DEFAULT_XOR: u32 = 69;

/// The default cipher parameters, used where no override is supplied.
pub open spec fn default_keys() -> CipherKeys {
    CipherKeys { shift: DEFAULT_SHIFT, constant: DEFAULT_GODNUM, mask: DEFAULT_XOR }
}

/// The default keys are good: the cipher provably round-trips under them.
pub proof fn lemma_default_keys_good()
    ensures
        crate::crypt::keys_good(default_keys()),
{
    assert(((42u32 ^ 69u32) as u8) < 128) by (bit_vector);
    assert(crate::crypt::eff_shift(11u32) == 12) by {
        assert((11 as int) % 31 == 11);
    }
}

pub open spec fn is_dec_digit(b: u8) -> bool {
    48 <= b <= 57
}

pub open spec fn all_dec_digits(s: Seq<u8>) -> bool {
    forall|i: int| 0 <= i < s.len() ==> is_dec_digit(#[trigger] s[i])
}

/// The numeric value of a string of decimal digit bytes.
pub open spec fn dec_value(s: Seq<u8>) -> int
    decreases s.len(),
{
    if s.len() == 0 {
        0
    } else {
        dec_value(s.drop_last()) * 10 + (s.last() - 48)
    }
}

/// The digit part of a decimal literal: everything after one optional
/// leading plus sign.
pub open spec fn dec_body(s: Seq<u8>) -> Seq<u8> {
    if s.len() > 0 && s[0] == 43 {
        s.drop_first()
    } else {
        s
    }
}

/// Whether the bytes form a decimal literal of a 32-bit unsigned integer:
/// an optional plus sign, then at least one digit, value at most `u32::MAX`.
pub open spec fn parses_as_u32(s: Seq<u8>) -> bool {
    let b = dec_body(s);
    b.len() > 0 && all_dec_digits(b) && dec_value(b) <= u32::MAX
}

/// The value of a decimal literal that parses.
pub open spec fn parsed_u32(s: Seq<u8>) -> u32
    recommends
        parses_as_u32(s),
{
    dec_value(dec_body(s)) as u32
}

proof fn lemma_dec_value_nonneg(s: Seq<u8>)
    requires
        all_dec_digits(s),
    ensures
        dec_value(s) >= 0,
    decreases s.len(),
{
    if s.len() > 0 {
        assert(all_dec_digits(s.drop_last()));
        lemma_dec_value_nonneg(s.drop_last());
    }
}

/// Appending digits never decreases a decimal value.
proof fn lemma_dec_value_prefix_le(s: Seq<u8>, i: int)
    requires
        all_dec_digits(s),
        0 <= i <= s.len(),
    ensures
        dec_value(s.take(i)) <= dec_value(s),
    decreases s.len() - i,
{
    assert(all_dec_digits(s.take(i)));
    lemma_dec_value_nonneg(s.take(i));
    if i < s.len() {
        assert(s.take(i + 1).drop_last() =~= s.take(i));
        assert(s.take(i + 1).last() == s[i]);
        lemma_dec_value_prefix_le(s, i + 1);
    } else {
        assert(s.take(i) =~= s);
    }
}

/// Parses a decimal literal as a 32-bit unsigned integer, accepting exactly
/// one optional leading plus sign and rejecting values over `u32::MAX`.
pub fn parse_u32(s: &str) -> (r: Option<u32>)
    ensures
        r is Some <==> parses_as_u32(s.spec_bytes()),
        r matches Some(v) ==> v == parsed_u32(s.spec_bytes()),
{
    let bytes: &[u8] = s.as_bytes();
    let n: usize = bytes.len();
    let start: usize = if n > 0 && bytes[0] == 43 {
        1
    } else {
        0
    };
    let ghost body = dec_body(s.spec_bytes());
    proof {
        assert(body =~= bytes@.subrange(start as int, n as int));
    }
    if start >= n {
        return None;
    }
    let mut v: u32 = 0;
    let mut i: usize = start;
    while i < n
        invariant
            n == bytes@.len(),
            bytes@ == s.spec_bytes(),
            body == dec_body(s.spec_bytes()),
            body == bytes@.subrange(start as int, n as int),
            start <= i <= n,
            all_dec_digits(bytes@.subrange(start as int, i as int)),
            v == dec_value(bytes@.subrange(start as int, i as int)),
        decreases n - i,
    {
        let b: u8 = bytes[i];
        if b < 48 || b > 57 {
            proof {
                assert(body[i - start] == bytes@[i as int]);
                assert(!all_dec_digits(body));
            }
            return None;
        }
        let d: u32 = (b - 48) as u32;
        let ghost pre = bytes@.subrange(start as int, i as int);
        let ghost cur = bytes@.subrange(start as int, i + 1);
        proof {
            assert(cur.drop_last() =~= pre);
            assert(cur.last() == bytes@[i as int]);
            assert(all_dec_digits(cur));
        }
        if v > 429496729 || (v == 429496729 && d > 5) {
            proof {
                assert(dec_value(cur) > u32::MAX);
                if all_dec_digits(body) {
                    assert(cur =~= body.take(i + 1 - start));
                    lemma_dec_value_prefix_le(body, i + 1 - start);
                }
            }
            return None;
        }
        v = v * 10 + d;
        i = i + 1;
    }
    proof {
        assert(bytes@.subrange(start as int, n as int) =~= body);
    }
    Some(v)
}

/// A string-keyed mapping of configuration values, as the configuration
/// layer hands it in. Lookup takes the first entry whose key matches.
#[derive(Debug, Clone, PartialEq, Eq)]
pub struct Env {
    pub pairs: Vec<(String, String)>,
}

impl View for Env {
    type V = Seq<(String, String)>;

    open spec fn view(&self) -> Seq<(String, String)> {
        self.pairs@
    }
}

/// The value stored under a key, both compared as encoded bytes.
pub open spec fn lookup(pairs: Seq<(String, String)>, key: Seq<u8>) -> Option<Seq<char>>
    decreases pairs.len(),
{
    if pairs.len() == 0 {
        None
    } else if encode_utf8(pairs[0].0@) == key {
        Some(pairs[0].1@)
    } else {
        lookup(pairs.drop_first(), key)
    }
}

/// Byte-for-byte equality of two slices.
pub fn slice_eq(a: &[u8], b: &[u8]) -> (r: bool)
    ensures
        r == (a@ == b@),
{
    let n: usize = a.len();
    if n != b.len() {
        return false;
    }
    let mut i: usize = 0;
    while i < n
        invariant
            n == a@.len() == b@.len(),
            i <= n,
            forall|j: int| 0 <= j < i ==> a@[j] == b@[j],
        decreases n - i,
    {
        if a[i] != b[i] {
            return false;
        }
        i = i + 1;
    }
    proof {
        assert(a@ =~= b@);
    }
    true
}

impl Env {
    /// An empty mapping.
    pub fn new() -> (r: Env)
        ensures
            r@ == Seq::<(String, String)>::empty(),
    {
        Env { pairs: Vec::new() }
    }

    /// Adds an entry. An entry added earlier shadows a later one with the
    /// same key.
    pub fn insert(&mut self, key: String, value: String)
        ensures
            final(self)@ == old(self)@ + seq![(key, value)],
    {
        self.pairs.push((key, value));
    }

    /// The value stored under `key`, if any.
    pub fn get<'a>(&'a self, key: &str) -> (r: Option<&'a String>)
        ensures
            match r {
                Some(v) => lookup(self@, key.spec_bytes()) == Some(v@),
                None => lookup(self@, key.spec_bytes()) is None,
            },
    {
        let n: usize = self.pairs.len();
        proof {
            assert(self.pairs@.skip(0) =~= self.pairs@);
        }
        let mut i: usize = 0;
        while i < n
            invariant
                n == self.pairs@.len(),
                i <= n,
                lookup(self@, key.spec_bytes()) == lookup(
                    self.pairs@.skip(i as int),
                    key.spec_bytes(),
                ),
            decreases n - i,
        {
            let pair: &(String, String) = &self.pairs[i];
            proof {
                assert(self.pairs@.skip(i as int)[0] == self.pairs@[i as int]);
                assert(self.pairs@.skip(i as int).drop_first() =~= self.pairs@.skip(i + 1));
            }
            if slice_eq(pair.0.as_str().as_bytes(), key.as_bytes()) {
                return Some(&self.pairs[i].1);
            }
            i = i + 1;
        }
        proof {
            assert(self.pairs@.skip(n as int) =~= Seq::<(String, String)>::empty());
        }
        None
    }
}

/// Whether a field's value, if present, parses as a non-negative integer.
pub open spec fn field_ok(pairs: Seq<(String, String)>, key: Seq<u8>) -> bool {
    match lookup(pairs, key) {
        None => true,
        Some(v) => parses_as_u32(encode_utf8(v)),
    }
}

/// A field's numeric value, with its default where the field is absent.
pub open spec fn field_value(pairs: Seq<(String, String)>, key: Seq<u8>, default: u32) -> u32 {
    match lookup(pairs, key) {
        None => default,
        Some(v) => parsed_u32(encode_utf8(v)),
    }
}

/// Checks the values of the recognized configuration names, where they have
/// been given. Each must parse as a non-negative whole number; the error
/// names the first offending field. The mapping passes through unchanged.
pub fn check_env_vars(env: Env) -> (r: Result<Env, ConfigError>)
    ensures
        r == Err::<Env, ConfigError>(ConfigError::Shift) <==> !field_ok(
            env@,
            "SHIFT".spec_bytes(),
        ),
        r == Err::<Env, ConfigError>(ConfigError::Godnum) <==> (field_ok(
            env@,
            "SHIFT".spec_bytes(),
        ) && !field_ok(env@, "GODNUM".spec_bytes())),
        r == Err::<Env, ConfigError>(ConfigError::Xor) <==> (field_ok(env@, "SHIFT".spec_bytes())
            && field_ok(env@, "GODNUM".spec_bytes()) && !field_ok(env@, "XOR".spec_bytes())),
        r matches Ok(e) ==> e == env,
        r is Ok <==> (field_ok(env@, "SHIFT".spec_bytes()) && field_ok(
            env@,
            "GODNUM".spec_bytes(),
        ) && field_ok(env@, "XOR".spec_bytes())),
{
    if let Some(v) = env.get("SHIFT") {
        if parse_u32(v.as_str()).is_none() {
            return Err(ConfigError::Shift);
        }
    }
    if let Some(v) = env.get("GODNUM") {
        if parse_u32(v.as_str()).is_none() {
            return Err(ConfigError::Godnum);
        }
    }
    if let Some(v) = env.get("XOR") {
        if parse_u32(v.as_str()).is_none() {
            return Err(ConfigError::Xor);
        }
    }
    Ok(env)
}

/// Checks and collects the configuration values into the cipher parameters:
/// each recognized name must parse where present, and missing names fall
/// back to the fixed defaults.
pub fn collect_env(env: Env) -> (r: Result<CipherKeys, ConfigError>)
    ensures
        r == Err::<CipherKeys, ConfigError>(ConfigError::Shift) <==> !field_ok(
            env@,
            "SHIFT".spec_bytes(),
        ),
        r == Err::<CipherKeys, ConfigError>(ConfigError::Godnum) <==> (field_ok(
            env@,
            "SHIFT".spec_bytes(),
        ) && !field_ok(env@, "GODNUM".spec_bytes())),
        r == Err::<CipherKeys, ConfigError>(ConfigError::Xor) <==> (field_ok(
            env@,
            "SHIFT".spec_bytes(),
        ) && field_ok(env@, "GODNUM".spec_bytes()) && !field_ok(env@, "XOR".spec_bytes())),
        r matches Ok(keys) ==> keys == (CipherKeys {
            shift: field_value(env@, "SHIFT".spec_bytes(), DEFAULT_SHIFT),
            constant: field_value(env@, "GODNUM".spec_bytes(), DEFAULT_GODNUM),
            mask: field_value(env@, "XOR".spec_bytes(), DEFAULT_XOR),
        }),
        r is Ok <==> (field_ok(env@, "SHIFT".spec_bytes()) && field_ok(
            env@,
            "GODNUM".spec_bytes(),
        ) && field_ok(env@, "XOR".spec_bytes())),
{
    let shift: u32 = match env.get("SHIFT") {
        None => DEFAULT_SHIFT,
        Some(v) => match parse_u32(v.as_str()) {
            Some(x) => x,
            None => {
                return Err(ConfigError::Shift);
            },
        },
    };
    let constant: u32 = match env.get("GODNUM") {
        None => DEFAULT_GODNUM,
        Some(v) => match parse_u32(v.as_str()) {
            Some(x) => x,
            None => {
                return Err(ConfigError::Godnum);
            },
        },
    };
    let mask: u32 = match env.get("XOR") {
        None => DEFAULT_XOR,
        Some(v) => match parse_u32(v.as_str()) {
            Some(x) => x,
            None => {
                return Err(ConfigError::Xor);
            },
        },
    };
    Ok(CipherKeys { shift, constant, mask })
}

} // verus!
