use std::collections::HashMap;

use rapidgate::gateway_core::util::consistent_hash::{hash_key, ConsistentHash};
use rapidgate::gateway_core::util::hash::{
    bucket_index, digest_be_u64, digest_le_u64, encode_upper, fingerprint_api_key, sha256,
};
use rapidgate::gateway_core::util::path::normalize;

#[test]
fn collapses_double_slashes() {
    assert_eq!(normalize("/a//b"), "/a/b");
}

#[test]
fn resolves_dot_segments() {
    assert_eq!(normalize("/a/./b"), "/a/b");
}

#[test]
fn resolves_parent_segments() {
    assert_eq!(normalize("/a/b/../c"), "/a/c");
}

#[test]
fn clamps_at_root() {
    assert_eq!(normalize("/../../etc"), "/etc");
}

#[test]
fn strips_trailing_slash() {
    assert_eq!(normalize("/a/b/"), "/a/b");
}

#[test]
fn normalize_doc_examples() {
    assert_eq!(normalize("/a/./b/../c"), "/a/c");
    assert_eq!(normalize("//a//b/"), "/a/b");
    assert_eq!(normalize("/../../etc"), "/etc");
}

#[test]
fn normalize_edge_cases() {
    assert_eq!(normalize(""), "/");
    assert_eq!(normalize("/"), "/");
    assert_eq!(normalize(".."), "/");
    assert_eq!(normalize("a/b"), "a/b");
    assert_eq!(normalize("a/../.."), "/");
    assert_eq!(normalize("./x/"), "x");
    assert_eq!(normalize("/é/ü/../ß"), "/é/ß");
}

#[test]
fn normalize_is_idempotent_on_examples() {
    for p in ["/a//b/../c/", "x/./y", "/../", "", "a/..", "/α/β/./γ"] {
        let once = normalize(p);
        assert_eq!(normalize(&once), once);
    }
}

#[test]
fn sha256_known_digest() {
    let d = sha256(b"abc");
    assert_eq!(
        encode_upper(&d),
        "BA7816BF8F01CFEA414140DE5DAE2223B00361A396177A9CB410FF61F20015AD"
    );
}

#[test]
fn encode_upper_bytes() {
    assert_eq!(encode_upper(&[0x00, 0x0f, 0xa5, 0xff]), "000FA5FF");
    assert_eq!(encode_upper(&[]), "");
}

#[test]
fn digest_prefix_values() {
    let mut d = [0u8; 32];
    d[0] = 1;
    d[7] = 2;
    assert_eq!(digest_le_u64(&d), 0x0200_0000_0000_0001);
    assert_eq!(digest_be_u64(&d), 0x0100_0000_0000_0002);
}

#[test]
fn bucket_index_within_range() {
    for key in ["alpha", "beta", "gamma", "delta", "epsilon"] {
        let b = bucket_index(key, 7);
        assert!(b < 7);
    }
}

#[test]
fn bucket_index_matches_digest() {
    // SHA-256("abc") starts with BA 78 16 BF 8F 01 CF EA.
    let v: u64 = 0xEACF_018F_BF16_78BA;
    assert_eq!(bucket_index("abc", 1000), (v as usize) % 1000);
    assert_eq!(bucket_index("abc", 1), 0);
}

#[test]
fn fingerprint_is_deterministic_and_short() {
    let a = fingerprint_api_key("sk-test-1234567890");
    let b = fingerprint_api_key("sk-test-1234567890");
    assert_eq!(a, b);
    assert_eq!(a.len(), 16);
}

#[test]
fn fingerprint_is_digest_prefix() {
    assert_eq!(fingerprint_api_key("abc"), "BA7816BF8F01CFEA");
}

#[test]
fn returns_bucket_for_any_key() {
    let buckets = vec!["a", "b", "c"];
    let ring = ConsistentHash::new(&buckets);
    assert!(ring.get("any-key").is_some());
}

#[test]
fn empty_buckets_returns_none() {
    let ring: ConsistentHash<String> = ConsistentHash::new(&[]);
    assert!(ring.get("key").is_none());
    assert!(ring.is_empty());
}

#[test]
fn distribution_reasonably_even() {
    let buckets: Vec<String> = (0..5).map(|i| format!("bucket-{i}")).collect();
    let ring = ConsistentHash::new(&buckets);
    let mut counts = HashMap::new();
    for i in 0..1000 {
        let key = format!("key-{i}");
        let b = ring.get(&key).unwrap();
        *counts.entry(b.clone()).or_insert(0u32) += 1;
    }
    for count in counts.values() {
        assert!(*count > 50, "uneven distribution: {counts:?}");
    }
}

#[test]
fn same_key_same_bucket() {
    let buckets = vec!["x", "y", "z"];
    let ring = ConsistentHash::new(&buckets);
    let a = ring.get("stable-key");
    let b = ring.get("stable-key");
    assert_eq!(a, b);
}

#[test]
fn zero_virtual_nodes_gives_empty_ring() {
    let ring = ConsistentHash::with_virtual_nodes(&["a", "b"], 0);
    assert!(ring.is_empty());
    assert!(ring.get("k").is_none());
}

#[test]
fn single_bucket_serves_every_key() {
    let ring = ConsistentHash::with_virtual_nodes(&["only"], 3);
    for k in ["a", "b", "c", "d"] {
        assert_eq!(ring.get(k), Some(&"only"));
    }
}

#[test]
fn hash_key_is_digest_prefix() {
    assert_eq!(hash_key("abc"), 0xEACF_018F_BF16_78BA);
}
