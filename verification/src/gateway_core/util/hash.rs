//! Hashing utilities: SHA-256 digests, bucket selection and key fingerprints.

use sha2::Digest;
use vstd::prelude::*;
use vstd::utf8::encode_utf8;

use crate::gateway_core::util::text::push_char;

verus! {

/// The SHA-256 digest of a byte sequence, as computed by the `sha2` crate.
pub uninterp spec fn sha256_digest(data: Seq<u8>) -> Seq<u8>;

/// Hashes `data` with SHA-256 (`sha2::Sha256::digest`).
///
/// Trusted: the result is the digest that `sha2` computes, named
/// `sha256_digest`; its length, 32, is fixed by the return type.
#[verifier::external_body]
pub fn sha256(data: &[u8]) -> (digest: [u8; 32])
    ensures
        digest@ == sha256_digest(data@),
{
    sha2::Sha256::digest(data).into()
}

/// The little-endian value of the first eight bytes of `d`.
pub open spec fn le_u64_prefix(d: Seq<u8>) -> int {
    d[0] as int + d[1] as int * 0x100 + d[2] as int * 0x10000 + d[3] as int * 0x1000000
        + d[4] as int * 0x100000000 + d[5] as int * 0x10000000000
        + d[6] as int * 0x1000000000000 + d[7] as int * 0x100000000000000
}

/// The big-endian value of the first eight bytes of `d`.
pub open spec fn be_u64_prefix(d: Seq<u8>) -> int {
    d[7] as int + d[6] as int * 0x100 + d[5] as int * 0x10000 + d[4] as int * 0x1000000
        + d[3] as int * 0x100000000 + d[2] as int * 0x10000000000
        + d[1] as int * 0x1000000000000 + d[0] as int * 0x100000000000000
}

/// Reads the first eight bytes of a digest as a little-endian `u64`.
pub fn digest_le_u64(digest: &[u8; 32]) -> (v: u64)
    ensures
        v as int == le_u64_prefix(digest@),
{
    (digest[0] as u64) + (digest[1] as u64) * 0x100 + (digest[2] as u64) * 0x10000
        + (digest[3] as u64) * 0x1000000 + (digest[4] as u64) * 0x100000000
        + (digest[5] as u64) * 0x10000000000 + (digest[6] as u64) * 0x1000000000000
        + (digest[7] as u64) * 0x100000000000000
}

/// Reads the first eight bytes of a digest as a big-endian `u64`.
pub fn digest_be_u64(digest: &[u8; 32]) -> (v: u64)
    ensures
        v as int == be_u64_prefix(digest@),
{
    (digest[7] as u64) + (digest[6] as u64) * 0x100 + (digest[5] as u64) * 0x10000
        + (digest[4] as u64) * 0x1000000 + (digest[3] as u64) * 0x100000000
        + (digest[2] as u64) * 0x10000000000 + (digest[1] as u64) * 0x1000000000000
        + (digest[0] as u64) * 0x100000000000000
}

/// The upper-case hexadecimal digit of `n` (`0 <= n < 16`).
pub open spec fn hex_digit_upper(n: u8) -> char {
    if n < 10 {
        (48 + n) as char
    } else {
        (55 + n) as char
    }
}

/// Upper-case hexadecimal encoding: two digits per byte, high nibble first.
pub open spec fn hex_upper(bytes: Seq<u8>) -> Seq<char>
    decreases bytes.len(),
{
    if bytes.len() == 0 {
        Seq::empty()
    } else {
        seq![hex_digit_upper(bytes[0] / 16), hex_digit_upper(bytes[0] % 16)] + hex_upper(
            bytes.drop_first(),
        )
    }
}

proof fn lemma_hex_upper_push(bytes: Seq<u8>, b: u8)
    ensures
        hex_upper(bytes.push(b)) == hex_upper(bytes) + seq![
            hex_digit_upper(b / 16),
            hex_digit_upper(b % 16),
        ],
    decreases bytes.len(),
{
    if bytes.len() == 0 {
        assert(bytes.push(b).drop_first() =~= Seq::<u8>::empty());
        assert(hex_upper(Seq::<u8>::empty()) =~= Seq::<char>::empty());
    } else {
        assert(bytes.push(b).drop_first() =~= bytes.drop_first().push(b));
        lemma_hex_upper_push(bytes.drop_first(), b);
    }
}

pub proof fn lemma_hex_upper_len(bytes: Seq<u8>)
    ensures
        hex_upper(bytes).len() == 2 * bytes.len(),
    decreases bytes.len(),
{
    if bytes.len() > 0 {
        lemma_hex_upper_len(bytes.drop_first());
    }
}

fn hex_digit_upper_exec(n: u8) -> (c: char)
    requires
        n < 16,
    ensures
        c == hex_digit_upper(n),
{
    if n < 10 {
        (48 + n) as char
    } else {
        (55 + n) as char
    }
}

/// Encodes bytes as upper-case hexadecimal, two digits per byte.
pub fn encode_upper(bytes: &[u8]) -> (s: String)
    ensures
        s@ == hex_upper(bytes@),
{
    let mut s = String::new();
    let n = bytes.len();
    for i in 0..n
        invariant
            n == bytes@.len(),
            s@ == hex_upper(bytes@.take(i as int)),
    {
        let b = bytes[i];
        proof {
            assert(bytes@.take(i + 1) =~= bytes@.take(i as int).push(b));
            lemma_hex_upper_push(bytes@.take(i as int), b);
        }
        push_char(&mut s, hex_digit_upper_exec(b / 16));
        push_char(&mut s, hex_digit_upper_exec(b % 16));
    }
    assert(bytes@.take(n as int) =~= bytes@);
    s
}

/// The lower-case hexadecimal digit of `n` (`0 <= n < 16`).
pub open spec fn hex_digit_lower(n: u8) -> char {
    if n < 10 {
        (48 + n) as char
    } else {
        (87 + n) as char
    }
}

/// Lower-case hexadecimal encoding: two digits per byte, high nibble first.
pub open spec fn hex_lower(bytes: Seq<u8>) -> Seq<char>
    decreases bytes.len(),
{
    if bytes.len() == 0 {
        Seq::empty()
    } else {
        hex_lower(bytes.drop_last()) + seq![
            hex_digit_lower(bytes.last() / 16),
            hex_digit_lower(bytes.last() % 16),
        ]
    }
}

/// The lower-case hexadecimal digit of `n`.
pub(crate) fn hex_digit_lower_exec(n: u8) -> (c: char)
    requires
        n < 16,
    ensures
        c == hex_digit_lower(n),
{
    if n < 10 {
        (48 + n) as char
    } else {
        (87 + n) as char
    }
}

/// Encodes bytes as lower-case hexadecimal, two digits per byte (what
/// `{:x}` prints for a digest).
pub fn encode_lower(bytes: &[u8]) -> (s: String)
    ensures
        s@ == hex_lower(bytes@),
        s@.len() == 2 * bytes@.len(),
{
    let mut s = String::new();
    let n = bytes.len();
    for i in 0..n
        invariant
            n == bytes@.len(),
            s@ == hex_lower(bytes@.take(i as int)),
            s@.len() == 2 * i,
    {
        let b = bytes[i];
        push_char(&mut s, hex_digit_lower_exec(b / 16));
        push_char(&mut s, hex_digit_lower_exec(b % 16));
        proof {
            let t = bytes@.take(i + 1);
            assert(t.drop_last() =~= bytes@.take(i as int));
            assert(t.last() == b);
        }
    }
    assert(bytes@.take(n as int) =~= bytes@);
    s
}

/// Maps `key` onto one of `buckets` buckets: the first eight bytes of the
/// key's SHA-256 digest, read little-endian, modulo `buckets`.
pub fn bucket_index(key: &str, buckets: usize) -> (idx: usize)
    requires
        buckets > 0,
    ensures
        idx == (le_u64_prefix(sha256_digest(encode_utf8(key@))) as u64 as usize) % buckets,
        idx < buckets,
{
    let h = sha256(key.as_bytes());
    let v = digest_le_u64(&h);
    (v as usize) % buckets
}

/// The first eight bytes of `digest` as sixteen upper-case hex digits.
pub fn fingerprint_of_digest(digest: &[u8; 32]) -> (s: String)
    ensures
        s@ == hex_upper(digest@.take(8)),
        s@.len() == 16,
{
    let mut prefix: Vec<u8> = Vec::new();
    for i in 0..8
        invariant
            prefix@ == digest@.take(i as int),
    {
        prefix.push(digest[i]);
        assert(digest@.take(i + 1) =~= digest@.take(i as int).push(digest@[i as int]));
    }
    proof {
        lemma_hex_upper_len(digest@.take(8));
    }
    encode_upper(prefix.as_slice())
}

/// Fingerprint of an API key for logs: the first eight bytes of its SHA-256
/// digest as sixteen upper-case hex digits.
pub fn fingerprint_api_key(api_key: &str) -> (s: String)
    ensures
        s@ == hex_upper(sha256_digest(encode_utf8(api_key@)).take(8)),
        s@.len() == 16,
{
    let h = sha256(api_key.as_bytes());
    fingerprint_of_digest(&h)
}

} // verus!
