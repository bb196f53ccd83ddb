//! The accept-key derivation shared by both handshake roles: the client key
//! is concatenated with a fixed magic GUID, hashed with SHA-1, and the
//! digest is Base64-encoded. The derivation is versionless and byte-for-byte
//! deterministic given the key string.

use vstd::prelude::*;
use vstd::string::StringSliceAdditionalSpecFns;
use base64ct::Encoding;
use sha1::Digest;

verus! {

/// The ASCII byte of Base64 alphabet index `i`: `A`-`Z`, `a`-`z`, `0`-`9`,
/// `+`, `/`.
pub open spec fn b64_char(i: u8) -> u8
    recommends
        i < 64,
{
    if i < 26 {
        (65 + i) as u8
    } else if i < 52 {
        (97 + (i - 26)) as u8
    } else if i < 62 {
        (48 + (i - 52)) as u8
    } else if i == 62 {
        43
    } else {
        47
    }
}

/// The four alphabet bytes encoding one complete 3-byte group: the group
/// read as 24 bits, most significant first, split into four 6-bit indices.
pub open spec fn b64_group(b0: u8, b1: u8, b2: u8) -> Seq<u8> {
    seq![
        b64_char(b0 >> 2),
        b64_char(((b0 & 3) << 4) | (b1 >> 4)),
        b64_char(((b1 & 15) << 2) | (b2 >> 6)),
        b64_char(b2 & 63),
    ]
}

/// Standard Base64 with `=` padding: complete 3-byte groups each yield four
/// alphabet bytes; a 1- or 2-byte remainder yields two or three alphabet
/// bytes padded with `==` or `=` (61 is `=`).
pub open spec fn base64_spec(s: Seq<u8>) -> Seq<u8>
    decreases s.len(),
{
    if s.len() == 0 {
        Seq::empty()
    } else if s.len() == 1 {
        seq![b64_char(s[0] >> 2), b64_char((s[0] & 3) << 4), 61, 61]
    } else if s.len() == 2 {
        seq![
            b64_char(s[0] >> 2),
            b64_char(((s[0] & 3) << 4) | (s[1] >> 4)),
            b64_char((s[1] & 15) << 2),
            61,
        ]
    } else {
        b64_group(s[0], s[1], s[2]) + base64_spec(s.subrange(3, s.len() as int))
    }
}

/// Base64 produces four output bytes for every started 3-byte group.
pub proof fn lemma_base64_len(s: Seq<u8>)
    ensures
        base64_spec(s).len() == 4 * ((s.len() + 2) / 3),
    decreases s.len(),
{
    if s.len() > 2 {
        lemma_base64_len(s.subrange(3, s.len() as int));
    }
}

proof fn lemma_b64_char_ascii(i: u8)
    ensures
        b64_char(i) < 128,
{
}

/// Base64 output is printable ASCII: alphabet bytes and `=` padding.
pub proof fn lemma_base64_ascii(s: Seq<u8>)
    ensures
        forall|i: int| 0 <= i < base64_spec(s).len() ==> base64_spec(s)[i] < 128,
    decreases s.len(),
{
    let t = base64_spec(s);
    if s.len() > 2 {
        let rest = s.subrange(3, s.len() as int);
        lemma_base64_ascii(rest);
        assert forall|i: int| 0 <= i < t.len() implies t[i] < 128 by {
            if i < 4 {
                assert(t[i] == b64_group(s[0], s[1], s[2])[i]);
                lemma_b64_char_ascii(s[0] >> 2);
                lemma_b64_char_ascii(((s[0] & 3) << 4) | (s[1] >> 4));
                lemma_b64_char_ascii(((s[1] & 15) << 2) | (s[2] >> 6));
                lemma_b64_char_ascii(s[2] & 63);
            } else {
                assert(t[i] == base64_spec(rest)[i - 4]);
            }
        }
    } else if s.len() == 1 {
        lemma_b64_char_ascii(s[0] >> 2);
        lemma_b64_char_ascii((s[0] & 3) << 4);
    } else if s.len() == 2 {
        lemma_b64_char_ascii(s[0] >> 2);
        lemma_b64_char_ascii(((s[0] & 3) << 4) | (s[1] >> 4));
        lemma_b64_char_ascii((s[1] & 15) << 2);
    }
}

/// The SHA-1 digest of a byte string; a function of the input alone,
/// computed by the outside hash implementation.
pub uninterp spec fn sha1_of(data: Seq<u8>) -> Seq<u8>;

/// Relies on sha1::Sha1::digest (via the Digest trait): the SHA-1 digest of
/// the input, 20 bytes, depending on the input bytes alone.
#[verifier::external_body]
fn sha1_digest(data: &[u8]) -> (r: Vec<u8>)
    ensures
        r@ == sha1_of(data@),
        r@.len() == 20,
{
    sha1::Sha1::digest(data).to_vec()
}

/// Relies on base64ct::Base64::encode_string: standard Base64 with `=`
/// padding over the alphabet `A`-`Z`, `a`-`z`, `0`-`9`, `+`, `/`. The
/// length bound keeps the input below the encoder's overflow panic.
#[verifier::external_body]
fn base64_encode(data: &[u8]) -> (r: Vec<u8>)
    requires
        data@.len() * 4 <= usize::MAX,
    ensures
        r@ == base64_spec(data@),
{
    base64ct::Base64::encode_string(data).into_bytes()
}

/// Relies on rand::fill: fills the buffer from the thread-local generator.
/// Nothing is promised of the bytes; callers state what holds of every
/// outcome.
#[verifier::external_body]
fn random_nonce() -> (r: [u8; 16]) {
    let mut buf = [0u8; 16];
    rand::fill(&mut buf[..]);
    buf
}

/// The magic GUID appended to the client key before hashing.
pub open spec fn magic_guid_bytes() -> Seq<u8> {
    "258EAFA5-E914-47DA-95CA-C5AB0DC85B11".spec_bytes()
}

/// The accept key derived from a client key: Base64 of the SHA-1 digest of
/// the key followed by the magic GUID.
pub open spec fn accept_key_spec(key: Seq<u8>) -> Seq<u8> {
    base64_spec(sha1_of(key + magic_guid_bytes()))
}

/// Derives the accept key for a client key: a pure function of the key
/// bytes.
pub fn accept_key(key: &[u8]) -> (r: Vec<u8>)
    ensures
        r@ == accept_key_spec(key@),
{
    let mut buf: Vec<u8> = Vec::new();
    crate::text::append_bytes(&mut buf, key);
    crate::text::append_bytes(&mut buf, "258EAFA5-E914-47DA-95CA-C5AB0DC85B11".as_bytes());
    proof {
        assert(buf@ =~= key@ + magic_guid_bytes());
    }
    let digest = sha1_digest(buf.as_slice());
    base64_encode(digest.as_slice())
}

/// A fresh handshake key: 16 random bytes, Base64-encoded to 24 bytes of
/// printable ASCII. Used once per handshake attempt.
pub fn generate_key() -> (r: Vec<u8>)
    ensures
        r@.len() == 24,
        forall|i: int| 0 <= i < r@.len() ==> r@[i] < 128,
        exists|nonce: Seq<u8>| nonce.len() == 16 && r@ == base64_spec(nonce),
{
    let nonce = random_nonce();
    let r = base64_encode(nonce.as_slice());
    proof {
        lemma_base64_len(nonce@);
        lemma_base64_ascii(nonce@);
    }
    r
}

} // verus!
