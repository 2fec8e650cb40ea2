//! Key handling for the WireGuard-style tunnel endpoints, and the
//! certificate-body extraction used when installing the proxy's
//! certificate: base64-coded 32-byte keys, public-key derivation, and
//! the body of a PEM certificate.

use vstd::prelude::*;

use vstd::string::{StrSliceExecFns, StringExecFns};
use vstd::utf8::encode_utf8;

use data_encoding::BASE64;
use x25519_dalek::{PublicKey, StaticSecret};

verus! {

/// The base64 rendering (RFC 4648, padded alphabet) of a byte
/// sequence, as `data_encoding::BASE64` produces it.
pub uninterp spec fn base64_of(b: Seq<u8>) -> Seq<char>;

/// What `data_encoding::BASE64.decode` makes of a string, as a
/// function of that string alone: the decoded bytes, or nothing when
/// the string does not decode at all.  This is not the inverse of
/// [`base64_of`]: the padded decoder also accepts concatenations of
/// padded blocks, strings that are the rendering of no byte sequence.
pub uninterp spec fn base64_decoded(s: Seq<char>) -> Option<Seq<u8>>;

/// The X25519 public key belonging to a 32-byte secret key, as
/// `x25519_dalek::PublicKey::from` computes it from the secret alone.
pub uninterp spec fn x25519_public_of(sk: Seq<u8>) -> Seq<u8>;

/// Why a key string was rejected.
#[derive(Debug, PartialEq, Eq, Structural, Clone, Copy)]
pub enum KeyError {
    /// The input did not decode to exactly 32 bytes.
    InvalidKey,
}

/// Relies on `data_encoding::BASE64.encode`: the canonical padded
/// base64 rendering, four characters for every started group of three
/// bytes.
#[verifier::external_body]
fn b64_encode(b: &Vec<u8>) -> (r: String)
    ensures
        r@ == base64_of(b@),
        r@.len() == ((b@.len() + 2) / 3) * 4,
{
    BASE64.encode(b.as_slice())
}

/// Relies on `data_encoding::BASE64.decode`: the result depends on
/// the input string alone, named [`base64_decoded`].  Decoding the
/// rendering of a byte sequence gives back exactly that sequence, so
/// a failure means the input is the rendering of nothing; the reverse
/// does not hold — the padded decoder also accepts concatenations of
/// padded blocks — so nothing here claims a successful input was a
/// rendering.
#[verifier::external_body]
fn b64_decode(s: &str) -> (r: Option<Vec<u8>>)
    ensures
        match r {
            Some(v) => base64_decoded(s@) == Some(v@) && (forall|b: Seq<u8>|
                base64_of(b) == s@ ==> b == v@),
            None => base64_decoded(s@) is None && (forall|b: Seq<u8>| base64_of(b) != s@),
        },
{
    BASE64.decode(s.as_bytes()).ok()
}

/// Relies on `x25519_dalek::StaticSecret::random`: a fresh 32-byte
/// secret from the system's randomness; nothing is promised of its
/// value.
#[verifier::external_body]
fn x25519_random_secret() -> (r: Vec<u8>)
    ensures
        r@.len() == 32,
{
    StaticSecret::random().to_bytes().to_vec()
}

/// Relies on `x25519_dalek::PublicKey::from`: the public key is a
/// function of the 32 secret bytes alone, and is itself 32 bytes.
#[verifier::external_body]
fn x25519_public(sk: &Vec<u8>) -> (r: Vec<u8>)
    requires
        sk@.len() == 32,
    ensures
        r@ == x25519_public_of(sk@),
        r@.len() == 32,
{
    let mut bytes = [0u8; 32];
    bytes.copy_from_slice(sk.as_slice());
    PublicKey::from(&StaticSecret::from(bytes)).as_bytes().to_vec()
}

/// Decode a base64-coded 32-byte key: succeeds exactly when `data`
/// decodes to 32 bytes, and returns those bytes.  In particular the
/// rendering of any 32-byte sequence is accepted and gives back that
/// sequence; the decoder is more permissive than the renderings alone,
/// so success does not mean `data` was one.
pub fn string_to_key(data: String) -> (r: Result<Vec<u8>, KeyError>)
    ensures
        match r {
            Ok(k) => {
                &&& k@.len() == 32
                &&& base64_decoded(data@) == Some(k@)
                &&& forall|b: Seq<u8>| base64_of(b) == data@ ==> b == k@
            },
            Err(e) => {
                &&& e == KeyError::InvalidKey
                &&& match base64_decoded(data@) {
                    Some(v) => v.len() != 32,
                    None => true,
                }
                &&& forall|b: Seq<u8>| base64_of(b) == data@ ==> b.len() != 32
            },
        },
{
    match b64_decode(data.as_str()) {
        None => Err(KeyError::InvalidKey),
        Some(bytes) => {
            if bytes.len() == 32 {
                Ok(bytes)
            } else {
                Err(KeyError::InvalidKey)
            }
        },
    }
}

/// Generate a tunnel private key: the base64 rendering of a fresh
/// 32-byte secret.
pub fn genkey() -> (r: String)
    ensures
        exists|k: Seq<u8>| k.len() == 32 && r@ == base64_of(k),
{
    let secret = x25519_random_secret();
    let encoded = b64_encode(&secret);
    proof {
        assert(secret@.len() == 32 && encoded@ == base64_of(secret@));
    }
    encoded
}

/// Derive a tunnel public key from a base64-coded private key.
/// Succeeds exactly when the input decodes to 32 bytes, and returns
/// the rendering of the public key those bytes determine; when the
/// input is itself the rendering of a 32-byte secret, the result is
/// that secret's public key.
pub fn pubkey(private_key: String) -> (r: Result<String, KeyError>)
    ensures
        match r {
            Ok(s) => {
                &&& base64_decoded(private_key@) matches Some(k)
                &&& k.len() == 32
                &&& s@ == base64_of(x25519_public_of(k))
                &&& forall|b: Seq<u8>|
                    base64_of(b) == private_key@ ==> s@ == base64_of(x25519_public_of(b))
            },
            Err(e) => {
                &&& e == KeyError::InvalidKey
                &&& match base64_decoded(private_key@) {
                    Some(v) => v.len() != 32,
                    None => true,
                }
                &&& forall|b: Seq<u8>| base64_of(b) == private_key@ ==> b.len() != 32
            },
        },
{
    let secret = string_to_key(private_key)?;
    let public = x25519_public(&secret);
    let encoded = b64_encode(&public);
    proof {
        assert(secret@.len() == 32 && encoded@ == base64_of(x25519_public_of(secret@)));
    }
    Ok(encoded)
}

/// The line ending the body of a PEM certificate.
pub open spec fn pem_end_marker() -> Seq<u8> {
    encode_utf8("-----END CERTIFICATE-----"@)
}

/// Split off the first line: the bytes before the first newline, and
/// the bytes after it.
pub open spec fn split_line(b: Seq<u8>) -> (Seq<u8>, Seq<u8>)
    decreases b.len(),
{
    if b.len() == 0 {
        (seq![], seq![])
    } else if b[0] == 10 {
        (seq![], b.drop_first())
    } else {
        let r = split_line(b.drop_first());
        (seq![b[0]] + r.0, r.1)
    }
}

/// A line with any carriage return before the newline removed.
pub open spec fn strip_cr(l: Seq<u8>) -> Seq<u8> {
    if l.len() > 0 && l[l.len() - 1] == 13 {
        l.drop_last()
    } else {
        l
    }
}

/// The concatenated lines of `b` up to, and not including, the end
/// marker.  The bound check on the remainder can never fail for what
/// `split_line` returns; it keeps the recursion visibly shrinking.
pub open spec fn pem_collect(b: Seq<u8>) -> Seq<u8>
    decreases b.len(),
{
    if b.len() == 0 {
        seq![]
    } else {
        let lr = split_line(b);
        let line = strip_cr(lr.0);
        if line == pem_end_marker() {
            seq![]
        } else if lr.1.len() >= b.len() {
            line
        } else {
            line + pem_collect(lr.1)
        }
    }
}

/// The body of a PEM certificate: every line after the first, up to
/// the end marker, concatenated without line endings.
pub open spec fn pem_body_spec(b: Seq<u8>) -> Seq<u8> {
    pem_collect(split_line(b).1)
}

/// Splitting a line consumes at least the line itself or its newline.
proof fn lemma_split_line_len(b: Seq<u8>)
    requires
        b.len() > 0,
    ensures
        split_line(b).1.len() < b.len(),
    decreases b.len(),
{
    if b[0] != 10 {
        if b.len() > 1 {
            lemma_split_line_len(b.drop_first());
        } else {
            assert(b.drop_first().len() == 0);
            assert(split_line(b.drop_first()).1 =~= Seq::<u8>::empty());
        }
    }
}

/// Where the first newline of `b` sits, `split_line` cuts.
proof fn lemma_split_line_at(b: Seq<u8>, e: int)
    requires
        0 <= e <= b.len(),
        forall|k: int| 0 <= k < e ==> b[k] != 10,
        e < b.len() ==> b[e] == 10,
    ensures
        split_line(b).0 == b.take(e),
        split_line(b).1 == (if e < b.len() {
            b.skip(e + 1)
        } else {
            Seq::<u8>::empty()
        }),
    decreases b.len(),
{
    if b.len() == 0 {
        assert(split_line(b).0 =~= b.take(e));
        assert(split_line(b).1 =~= Seq::<u8>::empty());
    } else if b[0] == 10 {
        assert(e == 0);
        assert(split_line(b).0 =~= b.take(0));
        assert(split_line(b).1 =~= b.skip(1));
    } else {
        let rest = b.drop_first();
        lemma_split_line_at(rest, e - 1);
        assert(rest.take(e - 1) =~= b.take(e).drop_first());
        assert(seq![b[0]] + b.take(e).drop_first() =~= b.take(e));
        if e < b.len() {
            assert(rest.skip(e) =~= b.skip(e + 1));
        }
    }
}

/// The first index at or after `start` holding a newline, or the
/// length when there is none.
fn find_newline(pem: &Vec<u8>, start: usize) -> (e: usize)
    requires
        start <= pem@.len(),
    ensures
        start <= e <= pem@.len(),
        forall|k: int| start <= k < e ==> pem@[k] != 10,
        e < pem@.len() ==> pem@[e as int] == 10,
{
    let mut i = start;
    while i < pem.len()
        invariant
            start <= i <= pem@.len(),
            forall|k: int| start <= k < i ==> pem@[k] != 10,
        decreases pem@.len() - i,
    {
        if pem[i] == 10 {
            return i;
        }
        i = i + 1;
    }
    i
}

/// Whether two byte vectors hold the same bytes.
fn bytes_eq(a: &Vec<u8>, b: &Vec<u8>) -> (r: bool)
    ensures
        r == (a@ == b@),
{
    if a.len() != b.len() {
        return false;
    }
    let mut i: usize = 0;
    while i < a.len()
        invariant
            i <= a@.len(),
            a@.len() == b@.len(),
            forall|k: int| 0 <= k < i ==> a@[k] == b@[k],
        decreases a@.len() - i,
    {
        if a[i] != b[i] {
            return false;
        }
        i = i + 1;
    }
    proof {
        assert(a@ =~= b@);
    }
    true
}

/// Collect the lines from `pos` on, up to the end marker.
fn pem_collect_exec(pem: &Vec<u8>, pos: usize) -> (r: Vec<u8>)
    requires
        pos <= pem@.len(),
    ensures
        r@ == pem_collect(pem@.skip(pos as int)),
    decreases pem@.len() - pos,
{
    let ghost b = pem@.skip(pos as int);
    if pos >= pem.len() {
        proof {
            assert(b =~= Seq::<u8>::empty());
        }
        return Vec::new();
    }
    let e = find_newline(pem, pos);
    proof {
        assert forall|k: int| 0 <= k < e - pos implies b[k] != 10 by {
            assert(b[k] == pem@[pos + k]);
        };
        assert(e - pos < b.len() ==> b[e - pos] == 10);
        lemma_split_line_at(b, e - pos);
        lemma_split_line_len(b);
    }
    let line_end = if e > pos && pem[e - 1] == 13 {
        e - 1
    } else {
        e
    };
    let line = crate::framing::copy_range(pem.as_slice(), pos, line_end);
    proof {
        assert(split_line(b).0 =~= pem@.subrange(pos as int, e as int));
        assert(line@ =~= strip_cr(split_line(b).0));
    }
    let marker = String::from_str("-----END CERTIFICATE-----").as_str().as_bytes_vec();
    if bytes_eq(&line, &marker) {
        return Vec::new();
    }
    if e >= pem.len() {
        proof {
            assert(split_line(b).1 =~= Seq::<u8>::empty());
            assert(pem_collect(Seq::<u8>::empty()) =~= Seq::<u8>::empty());
            assert(line@ =~= pem_collect(b));
        }
        line
    } else {
        let mut out = line;
        let rest = pem_collect_exec(pem, e + 1);
        out.extend_from_slice(rest.as_slice());
        proof {
            assert(split_line(b).1 =~= pem@.skip(e + 1));
            assert(out@ =~= pem_collect(b));
        }
        out
    }
}

/// Extract the body of a PEM certificate: the base64 payload between
/// the begin line and the end marker, with line endings removed, ready
/// for decoding into its binary form.
pub fn pem_body(pem: &Vec<u8>) -> (r: Vec<u8>)
    ensures
        r@ == pem_body_spec(pem@),
{
    let e = find_newline(pem, 0);
    proof {
        assert(pem@.skip(0) =~= pem@);
        lemma_split_line_at(pem@, e as int);
    }
    if e >= pem.len() {
        proof {
            assert(pem_collect(split_line(pem@).1) =~= Seq::<u8>::empty());
        }
        Vec::new()
    } else {
        pem_collect_exec(pem, e + 1)
    }
}

} // verus!
