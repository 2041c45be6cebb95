//! The container codec: assembles and parses the binary payload appended
//! after the image's end-of-file marker. The layout is a presence-of-password
//! flag, an optional length-prefixed verification token, and a
//! length-prefixed ciphertext block. The codec only frames bytes; it never
//! invokes the cipher or the hasher.

use crate::errors::CodecError;
use vstd::prelude::*;

verus! {

/// The abstract content of a payload: the optional verification token and
/// the encoded secret, as byte sequences.
pub ghost struct PayloadView {
    pub token: Option<Seq<u8>>,
    pub secret: Seq<u8>,
}

/// A parsed payload: the optional password-verification token and the
/// encoded (cipher plus transport) secret block.
#[derive(Debug, PartialEq, Eq)]
pub struct Payload {
    pub verify_token: Option<Vec<u8>>,
    pub secret_bytes: Vec<u8>,
}

impl View for Payload {
    type V = PayloadView;

    open spec fn view(&self) -> PayloadView {
        PayloadView {
            token: match self.verify_token {
                Some(t) => Some(t@),
                None => None,
            },
            secret: self.secret_bytes@,
        }
    }
}

/// The byte layout of a payload: `1`, the token length and the token where
/// a token is present, else `0`; then the secret length and the secret.
pub open spec fn build_spec(token: Option<Seq<u8>>, secret: Seq<u8>) -> Seq<u8>
    recommends
        (token matches Some(t) ==> t.len() <= 255),
        secret.len() <= 255,
{
    (match token {
        Some(t) => seq![1u8, t.len() as u8] + t,
        None => seq![0u8],
    }) + seq![secret.len() as u8] + secret
}

/// Reads a length-prefixed block at offset `p`: `None` where the buffer is
/// exhausted before the declared length is satisfied.
pub open spec fn parse_secret_spec(bytes: Seq<u8>, p: int) -> Option<Seq<u8>> {
    if p < 0 || p >= bytes.len() {
        None
    } else {
        let slen = bytes[p] as int;
        if p + 1 + slen > bytes.len() {
            None
        } else {
            Some(bytes.subrange(p + 1, p + 1 + slen))
        }
    }
}

/// Parses a payload at offset `start`: reads the flag byte, the optional
/// token block where the flag is `1`, and the secret block. `None` where
/// the buffer is exhausted before a declared length is satisfied.
pub open spec fn parse_spec(bytes: Seq<u8>, start: int) -> Option<PayloadView> {
    if start < 0 || start >= bytes.len() {
        None
    } else if bytes[start] == 1 {
        if start + 1 >= bytes.len() {
            None
        } else {
            let vlen = bytes[start + 1] as int;
            if start + 2 + vlen > bytes.len() {
                None
            } else {
                match parse_secret_spec(bytes, start + 2 + vlen) {
                    None => None,
                    Some(secret) => Some(
                        PayloadView {
                            token: Some(bytes.subrange(start + 2, start + 2 + vlen)),
                            secret,
                        },
                    ),
                }
            }
        }
    } else {
        match parse_secret_spec(bytes, start + 1) {
            None => None,
            Some(secret) => Some(PayloadView { token: None, secret }),
        }
    }
}

/// The view of an optional borrowed byte block.
pub open spec fn opt_view(token: Option<&Vec<u8>>) -> Option<Seq<u8>> {
    match token {
        Some(t) => Some(t@),
        None => None,
    }
}

/// Assembles the payload bytes for an optional verification token and an
/// encoded secret. Fails, before any byte is produced, exactly where a
/// block's length exceeds the single-byte length field.
pub fn build(token: Option<&Vec<u8>>, secret: &Vec<u8>) -> (r: Result<Vec<u8>, CodecError>)
    ensures
        r is Err <==> ((token matches Some(t) && t@.len() > 255) || secret@.len() > 255),
        r is Err ==> r == Err::<Vec<u8>, CodecError>(CodecError::LengthOverflow),
        r matches Ok(v) ==> v@ == build_spec(opt_view(token), secret@),
{
    if let Some(t) = token {
        if t.len() > 255 {
            return Err(CodecError::LengthOverflow);
        }
    }
    if secret.len() > 255 {
        return Err(CodecError::LengthOverflow);
    }
    let mut out: Vec<u8> = Vec::new();
    match token {
        Some(t) => {
            out.push(1u8);
            out.push(t.len() as u8);
            let n: usize = t.len();
            let mut i: usize = 0;
            while i < n
                invariant
                    n == t@.len() <= 255,
                    i <= n,
                    out@ == seq![1u8, (t@.len() as u8)] + t@.take(i as int),
                decreases n - i,
            {
                let b: u8 = t[i];
                out.push(b);
                proof {
                    assert(t@.take(i + 1) =~= t@.take(i as int) + seq![t@[i as int]]);
                }
                i = i + 1;
            }
            proof {
                assert(t@.take(n as int) =~= t@);
            }
        },
        None => {
            out.push(0u8);
        },
    }
    let ghost header = out@;
    out.push(secret.len() as u8);
    let m: usize = secret.len();
    let mut j: usize = 0;
    while j < m
        invariant
            m == secret@.len() <= 255,
            j <= m,
            out@ == header + seq![(secret@.len() as u8)] + secret@.take(j as int),
        decreases m - j,
    {
        let b: u8 = secret[j];
        out.push(b);
        proof {
            assert(secret@.take(j + 1) =~= secret@.take(j as int) + seq![secret@[j as int]]);
        }
        j = j + 1;
    }
    proof {
        assert(secret@.take(m as int) =~= secret@);
        assert(out@ =~= build_spec(opt_view(token), secret@));
    }
    Ok(out)
}

/// Parses the payload at offset `start` of `bytes`. Fails with the
/// truncated-payload error exactly where the buffer is exhausted before a
/// declared length is satisfied.
pub fn parse(bytes: &Vec<u8>, start: usize) -> (r: Result<Payload, CodecError>)
    ensures
        r is Err <==> parse_spec(bytes@, start as int) is None,
        r is Err ==> r == Err::<Payload, CodecError>(CodecError::Truncated),
        r matches Ok(p) ==> parse_spec(bytes@, start as int) == Some(p@),
{
    let len: usize = bytes.len();
    if start >= len {
        return Err(CodecError::Truncated);
    }
    let flag: u8 = bytes[start];
    let mut p: usize = start + 1;
    let token: Option<Vec<u8>> = if flag == 1 {
        if p >= len {
            return Err(CodecError::Truncated);
        }
        let vlen: usize = bytes[p] as usize;
        p = p + 1;
        if len - p < vlen {
            return Err(CodecError::Truncated);
        }
        let mut tok: Vec<u8> = Vec::new();
        let mut i: usize = 0;
        while i < vlen
            invariant
                len == bytes@.len(),
                p + vlen <= len,
                i <= vlen,
                tok@ == bytes@.subrange(p as int, p + i),
            decreases vlen - i,
        {
            let b: u8 = bytes[p + i];
            tok.push(b);
            proof {
                assert(bytes@.subrange(p as int, p + i + 1) =~= bytes@.subrange(p as int, p + i)
                    + seq![bytes@[p + i]]);
            }
            i = i + 1;
        }
        p = p + vlen;
        Some(tok)
    } else {
        None
    };
    if p >= len {
        return Err(CodecError::Truncated);
    }
    let slen: usize = bytes[p] as usize;
    p = p + 1;
    if len - p < slen {
        return Err(CodecError::Truncated);
    }
    let mut secret: Vec<u8> = Vec::new();
    let mut j: usize = 0;
    while j < slen
        invariant
            len == bytes@.len(),
            p + slen <= len,
            j <= slen,
            secret@ == bytes@.subrange(p as int, p + j),
        decreases slen - j,
    {
        let b: u8 = bytes[p + j];
        secret.push(b);
        proof {
            assert(bytes@.subrange(p as int, p + j + 1) =~= bytes@.subrange(p as int, p + j)
                + seq![bytes@[p + j]]);
        }
        j = j + 1;
    }
    Ok(Payload { verify_token: token, secret_bytes: secret })
}

proof fn lemma_parse_secret_at_offset(prefix: Seq<u8>, b: Seq<u8>, p: int)
    requires
        p >= 0,
    ensures
        parse_secret_spec(prefix + b, prefix.len() + p) == parse_secret_spec(b, p),
{
    let c = prefix + b;
    if p < b.len() {
        assert(c[prefix.len() + p] == b[p]);
        let slen = b[p] as int;
        if p + 1 + slen <= b.len() {
            assert(c.subrange(prefix.len() + p + 1, prefix.len() + p + 1 + slen) =~= b.subrange(
                p + 1,
                p + 1 + slen,
            ));
        }
    }
}

/// A payload is parsed the same wherever it stands: parsing at the offset
/// where appended bytes begin reads exactly those bytes.
pub proof fn lemma_parse_at_offset(prefix: Seq<u8>, b: Seq<u8>)
    ensures
        parse_spec(prefix + b, prefix.len() as int) == parse_spec(b, 0),
{
    let c = prefix + b;
    let start = prefix.len() as int;
    if b.len() > 0 {
        assert(c[start] == b[0]);
        if b[0] == 1 {
            if start + 1 < c.len() {
                assert(c[start + 1] == b[1]);
                let vlen = b[1] as int;
                if start + 2 + vlen <= c.len() {
                    assert(c.subrange(start + 2, start + 2 + vlen) =~= b.subrange(2, 2 + vlen));
                    lemma_parse_secret_at_offset(prefix, b, 2 + vlen);
                }
            }
        } else {
            lemma_parse_secret_at_offset(prefix, b, 1);
        }
    }
}

/// The framing round trip: parsing the bytes built for any valid token and
/// secret combination reproduces exactly that token and secret.
pub proof fn lemma_build_parse_round_trip(token: Option<Seq<u8>>, secret: Seq<u8>)
    requires
        (token matches Some(t) ==> t.len() <= 255),
        secret.len() <= 255,
    ensures
        parse_spec(build_spec(token, secret), 0) == Some(PayloadView { token, secret }),
{
    let b = build_spec(token, secret);
    match token {
        None => {
            assert(b[0] == 0);
            assert(b[1] == secret.len() as u8);
            assert(b.subrange(2, 2 + secret.len() as int) =~= secret);
        },
        Some(t) => {
            let tl = t.len() as int;
            assert(b[0] == 1);
            assert(b[1] == t.len() as u8);
            assert(b.subrange(2, 2 + tl) =~= t);
            assert(b[2 + tl] == secret.len() as u8);
            assert(b.subrange(3 + tl, 3 + tl + secret.len() as int) =~= secret);
        },
    }
}

/// Truncation detection: parsing any strict prefix of a built payload fails,
/// because some declared length then exceeds the remaining buffer.
pub proof fn lemma_truncated_payload(token: Option<Seq<u8>>, secret: Seq<u8>, n: int)
    requires
        (token matches Some(t) ==> t.len() <= 255),
        secret.len() <= 255,
        0 <= n < build_spec(token, secret).len(),
    ensures
        parse_spec(build_spec(token, secret).take(n), 0) is None,
{
    let b = build_spec(token, secret);
    let c = b.take(n);
    match token {
        None => {
            if n >= 1 {
                assert(c[0] == 0);
                if n >= 2 {
                    assert(c[1] == secret.len() as u8);
                    assert(1 + 1 + (c[1] as int) > n);
                }
            }
        },
        Some(t) => {
            let tl = t.len() as int;
            if n >= 1 {
                assert(c[0] == 1);
                if n >= 2 {
                    assert(c[1] == t.len() as u8);
                    if n >= 2 + tl + 1 {
                        assert(c[2 + tl] == secret.len() as u8);
                        assert(2 + tl + 1 + (c[2 + tl] as int) > n);
                    }
                }
            }
        },
    }
}

} // verus!
