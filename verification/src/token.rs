use vstd::prelude::*;

use base64::engine::general_purpose::URL_SAFE_NO_PAD;
use base64::Engine;
use sha2::{Digest, Sha256};

verus! {

/// The byte `.` that separates the segments of a compact token.
pub const DOT: u8 = 0x2e;

/// What SHA-256 gives for a message.
pub uninterp spec fn sha256_digest(data: Seq<u8>) -> Seq<u8>;

/// What URL-safe base64 without padding decodes a text to, if it decodes.
pub uninterp spec fn base64url_decoded(text: Seq<u8>) -> Option<Seq<u8>>;

/// Trusted: `sha2::Sha256::digest`. Claims that the bytes returned are the
/// SHA-256 digest of `data` (named, not stated) and that it is 32 bytes long,
/// the output size sha2 declares for `Sha256`.
#[verifier::external_body]
fn sha256(data: &[u8]) -> (d: Vec<u8>)
    ensures
        d@ == sha256_digest(data@),
        d@.len() == 32,
{
    Sha256::digest(data).to_vec()
}

/// Trusted: `base64::Engine::decode` with the `URL_SAFE_NO_PAD` engine.
/// Claims only that the outcome is the decoding of `text` (named, not
/// stated): `None` exactly where the engine reports an error.
#[verifier::external_body]
fn base64url_decode(text: &[u8]) -> (r: Option<Vec<u8>>)
    ensures
        match r {
            Some(v) => base64url_decoded(text@) == Some(v@),
            None => base64url_decoded(text@) is None,
        },
{
    URL_SAFE_NO_PAD.decode(text).ok()
}

/// The 64-byte HMAC key block: the key itself, or its digest when longer
/// than a block, padded with zeros.
pub open spec fn hmac_key_block(key: Seq<u8>) -> Seq<u8> {
    let k = if key.len() > 64 { sha256_digest(key) } else { key };
    Seq::new(64, |i: int| if i < k.len() { k[i] } else { 0u8 })
}

/// Each byte of a block combined by exclusive or with a pad byte.
pub open spec fn xor_pad(block: Seq<u8>, pad: u8) -> Seq<u8> {
    Seq::new(block.len(), |i: int| pad ^ block[i])
}

/// HMAC-SHA256 of `message` under `key` (RFC 2104).
pub open spec fn hmac_sha256_of(key: Seq<u8>, message: Seq<u8>) -> Seq<u8> {
    let block = hmac_key_block(key);
    sha256_digest(xor_pad(block, 0x5cu8) + sha256_digest(xor_pad(block, 0x36u8) + message))
}

fn copy_range(b: &[u8], lo: usize, hi: usize) -> (v: Vec<u8>)
    requires
        lo <= hi <= b@.len(),
    ensures
        v@ == b@.subrange(lo as int, hi as int),
{
    let mut v: Vec<u8> = Vec::new();
    let mut i = lo;
    while i < hi
        invariant
            lo <= i <= hi <= b@.len(),
            v@ == b@.subrange(lo as int, i as int),
        decreases hi - i,
    {
        v.push(b[i]);
        i += 1;
        assert(v@ =~= b@.subrange(lo as int, i as int));
    }
    v
}

fn padded_block(key: &[u8], pad: u8) -> (v: Vec<u8>)
    ensures
        v@ == xor_pad(hmac_key_block(key@), pad),
{
    let k: Vec<u8> = if key.len() > 64 {
        sha256(key)
    } else {
        copy_range(key, 0, key.len())
    };
    assert(k@ =~= (if key@.len() > 64 { sha256_digest(key@) } else { key@ }));
    let mut v: Vec<u8> = Vec::new();
    let mut i: usize = 0;
    while i < 64
        invariant
            i <= 64,
            k@ == (if key@.len() > 64 { sha256_digest(key@) } else { key@ }),
            v@.len() == i,
            forall|j: int| 0 <= j < i ==> v@[j] == xor_pad(hmac_key_block(key@), pad)[j],
        decreases 64 - i,
    {
        let kb: u8 = if i < k.len() { k[i] } else { 0u8 };
        v.push(pad ^ kb);
        i += 1;
    }
    assert(v@ =~= xor_pad(hmac_key_block(key@), pad));
    v
}

fn concat_bytes(a: Vec<u8>, b: &[u8]) -> (v: Vec<u8>)
    ensures
        v@ == a@ + b@,
{
    let mut v = a;
    let ghost a0 = v@;
    let mut i: usize = 0;
    while i < b.len()
        invariant
            i <= b@.len(),
            v@ == a0 + b@.subrange(0, i as int),
        decreases b@.len() - i,
    {
        v.push(b[i]);
        i += 1;
        assert(v@ =~= a0 + b@.subrange(0, i as int));
    }
    assert(b@.subrange(0, b@.len() as int) =~= b@);
    v
}

/// HMAC-SHA256 of `message` under `key`, built on SHA-256.
pub fn hmac_sha256(key: &[u8], message: &[u8]) -> (mac: Vec<u8>)
    ensures
        mac@ == hmac_sha256_of(key@, message@),
        mac@.len() == 32,
{
    let ipad = padded_block(key, 0x36u8);
    let opad = padded_block(key, 0x5cu8);
    let inner_input = concat_bytes(ipad, message);
    let inner_hash = sha256(inner_input.as_slice());
    let outer_input = concat_bytes(opad, inner_hash.as_slice());
    sha256(outer_input.as_slice())
}

/// Whether two byte strings are equal; every byte pair is inspected whatever
/// the outcome, so the time taken does not reveal where they differ.
pub fn constant_time_eq(lhs: &[u8], rhs: &[u8]) -> (eq: bool)
    ensures
        eq == (lhs@ == rhs@),
{
    if lhs.len() != rhs.len() {
        return false;
    }
    let mut diff: u8 = 0;
    let mut i: usize = 0;
    while i < lhs.len()
        invariant
            i <= lhs@.len(),
            lhs@.len() == rhs@.len(),
            (diff == 0) <==> (forall|j: int| 0 <= j < i ==> lhs@[j] == rhs@[j]),
        decreases lhs@.len() - i,
    {
        let a = lhs[i];
        let b = rhs[i];
        assert((diff | (a ^ b)) == 0 <==> (diff == 0 && a == b)) by (bit_vector);
        diff = diff | (a ^ b);
        i += 1;
    }
    if diff == 0 {
        assert(lhs@ =~= rhs@);
    }
    diff == 0
}

/// `i` and `j` are the only two separators in `t`, `i` first.
pub open spec fn two_dots_at(t: Seq<u8>, i: int, j: int) -> bool {
    &&& 0 <= i < j < t.len()
    &&& t[i] == DOT
    &&& t[j] == DOT
    &&& forall|k: int| 0 <= k < t.len() && k != i && k != j ==> t[k] != DOT
}

/// The header, payload and signature segments of a compact token: the
/// pieces between its separators, when it holds exactly two.
pub open spec fn token_segments(t: Seq<u8>) -> Option<(Seq<u8>, Seq<u8>, Seq<u8>)> {
    if exists|i: int, j: int| two_dots_at(t, i, j) {
        let (i, j) = choose|i: int, j: int| two_dots_at(t, i, j);
        Some((t.subrange(0, i), t.subrange(i + 1, j), t.subrange(j + 1, t.len() as int)))
    } else {
        None
    }
}

/// Finds the two separators of a compact token, if it has exactly two.
pub fn find_dots(t: &[u8]) -> (r: Option<(usize, usize)>)
    ensures
        match r {
            Some((i, j)) => two_dots_at(t@, i as int, j as int),
            None => !exists|i: int, j: int| two_dots_at(t@, i, j),
        },
{
    let mut first: Option<usize> = None;
    let mut second: Option<usize> = None;
    let mut k: usize = 0;
    while k < t.len()
        invariant
            k <= t@.len(),
            match first {
                None => second is None && forall|m: int| 0 <= m < k ==> t@[m] != DOT,
                Some(a) => a < k && t@[a as int] == DOT && (forall|m: int| 0 <= m < a ==> t@[m] != DOT)
                    && match second {
                        None => forall|m: int| a < m < k ==> t@[m] != DOT,
                        Some(b) => a < b < k && t@[b as int] == DOT
                            && forall|m: int| a < m < k && m != b ==> t@[m] != DOT,
                    },
            },
        decreases t@.len() - k,
    {
        if t[k] == DOT {
            match first {
                None => {
                    first = Some(k);
                },
                Some(_) => {
                    match second {
                        None => {
                            second = Some(k);
                        },
                        Some(_) => {
                            let ghost a = first.unwrap() as int;
                            let ghost b = second.unwrap() as int;
                            assert forall|i: int, j: int| !two_dots_at(t@, i, j) by {
                                if two_dots_at(t@, i, j) {
                                    assert(t@[a] == DOT && t@[b] == DOT && t@[k as int] == DOT);
                                }
                            }
                            return None;
                        },
                    }
                },
            }
        }
        k += 1;
    }
    match (first, second) {
        (Some(a), Some(b)) => Some((a, b)),
        _ => {
            assert forall|i: int, j: int| !two_dots_at(t@, i, j) by {
                if two_dots_at(t@, i, j) {
                    assert(t@[i] == DOT && t@[j] == DOT);
                }
            }
            None
        },
    }
}

/// The pieces of a compact token: header, payload and signature, each copied out.
pub fn split_token(t: &[u8]) -> (r: Option<(Vec<u8>, Vec<u8>, Vec<u8>)>)
    ensures
        match r {
            Some((h, p, s)) => token_segments(t@) == Some((h@, p@, s@)),
            None => token_segments(t@) is None,
        },
{
    match find_dots(t) {
        None => None,
        Some((i, j)) => {
            proof {
                let (ci, cj) = choose|ci: int, cj: int| two_dots_at(t@, ci, cj);
                assert(two_dots_at(t@, ci, cj));
                assert(ci == i as int && cj == j as int) by {
                    if ci != i as int {
                        if ci < i as int {
                            assert(t@[ci] == DOT);
                        } else {
                            assert(t@[i as int] == DOT);
                        }
                    }
                    if cj != j as int {
                        assert(t@[j as int] == DOT && t@[cj] == DOT);
                    }
                }
            }
            let n = t.len();
            assert(j < n);
            let h = copy_range(t, 0, i);
            let p = copy_range(t, i + 1, j);
            let s = copy_range(t, j + 1, n);
            Some((h, p, s))
        },
    }
}

/// The bytes a token's signature is computed over: header, separator, payload.
pub open spec fn signing_input(header: Seq<u8>, payload: Seq<u8>) -> Seq<u8> {
    header + seq![DOT] + payload
}

/// Why a compact HS256 token is refused under `secret` (its UTF-8 bytes), or
/// the payload it carries: the token must have exactly three segments, the
/// third must decode to the HMAC-SHA256 of the first two, and the second must
/// decode.
pub open spec fn hs256_payload(secret: Seq<u8>, t: Seq<u8>) -> Result<Seq<u8>, Seq<char>> {
    match token_segments(t) {
        None => Err("invalid jwt format"@),
        Some((h, p, s)) => match base64url_decoded(s) {
            None => Err("invalid jwt signature encoding"@),
            Some(sig) => if sig != hmac_sha256_of(secret, signing_input(h, p)) {
                Err("jwt signature verification failed"@)
            } else {
                match base64url_decoded(p) {
                    None => Err("invalid jwt payload"@),
                    Some(payload) => Ok(payload),
                }
            },
        },
    }
}

/// Checks the signature of a compact HS256 token and decodes its payload.
pub fn hs256_verify(secret: &[u8], token: &[u8]) -> (r: Result<Vec<u8>, &'static str>)
    ensures
        match r {
            Ok(p) => hs256_payload(secret@, token@) == Ok::<Seq<u8>, Seq<char>>(p@),
            Err(m) => hs256_payload(secret@, token@) == Err::<Seq<u8>, Seq<char>>(m@),
        },
{
    let (h, p, s) = match split_token(token) {
        None => return Err("invalid jwt format"),
        Some(parts) => parts,
    };
    let mut input = h;
    input.push(DOT);
    let input = concat_bytes(input, p.as_slice());
    assert(input@ =~= signing_input(h@, p@));
    let expected = hmac_sha256(secret, input.as_slice());
    let actual = match base64url_decode(s.as_slice()) {
        None => return Err("invalid jwt signature encoding"),
        Some(a) => a,
    };
    if !constant_time_eq(expected.as_slice(), actual.as_slice()) {
        return Err("jwt signature verification failed");
    }
    match base64url_decode(p.as_slice()) {
        None => Err("invalid jwt payload"),
        Some(payload) => Ok(payload),
    }
}

} // verus!
