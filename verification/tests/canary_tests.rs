use std::collections::HashMap;

use rapidgate::gateway_core::canary::policy::{CanaryPolicy, CookiePolicy, HeaderPolicy, WeightPolicy};
use rapidgate::gateway_core::canary::sticky::StickySession;

#[test]
fn test_sticky_session_creation() {
    let sticky = StickySession::new("session_id".to_string(), 3600);
    assert_eq!(sticky.cookie_name, "session_id");
    assert_eq!(sticky.ttl_seconds, 3600);
    assert_eq!(sticky.salt, "rapidgate-sticky");
}

#[test]
fn test_extract_session_id() {
    let sticky = StickySession::new("session_id".to_string(), 3600);
    let mut cookies = HashMap::new();
    cookies.insert("session_id".to_string(), "abc123".to_string());
    let session_id = sticky.extract_session_id(&cookies);
    assert_eq!(session_id, Some("abc123".to_string()));
    assert_eq!(sticky.extract_session_id(&HashMap::new()), None);
}

#[test]
fn test_select_upstream_consistency() {
    let sticky = StickySession::new("session_id".to_string(), 3600);
    let session_id = "test_session_123";
    let idx1 = sticky.select_upstream(session_id, 3);
    let idx2 = sticky.select_upstream(session_id, 3);
    let idx3 = sticky.select_upstream(session_id, 3);
    assert_eq!(idx1, idx2);
    assert_eq!(idx2, idx3);
    assert!(idx1 < 3);
}

#[test]
fn select_upstream_uses_big_endian_digest() {
    let sticky = StickySession::new("s".to_string(), 1);
    // SHA-256("abc") starts with BA 78 16 BF 8F 01 CF EA.
    let v: u64 = 0xBA78_16BF_8F01_CFEA;
    assert_eq!(sticky.select_upstream("abc", 7), (v % 7) as usize);
    assert_eq!(sticky.select_upstream("abc", 0), 0);
}

#[test]
fn test_generate_session_id() {
    let sticky = StickySession::new("session_id".to_string(), 3600);
    let session1 = sticky.generate_session_id("192.168.1.1");
    let session2 = sticky.generate_session_id("192.168.1.1");
    assert_ne!(session1, session2);
    assert_eq!(session1.len(), 16);
}

#[test]
fn session_id_is_digest_of_seed() {
    let sticky = StickySession::new("c".to_string(), 1);
    let id = sticky.session_id_for("1.2.3.4", 1700000000, 42);
    assert_eq!(id.len(), 16);
    assert!(id.chars().all(|c| c.is_ascii_hexdigit() && !c.is_ascii_uppercase()));
    assert_eq!(id, sticky.session_id_for("1.2.3.4", 1700000000, 42));
    assert_ne!(id, sticky.session_id_for("1.2.3.4", 1700000000, 43));
}

#[test]
fn session_expiry() {
    let sticky = StickySession::new("c".to_string(), 60);
    assert!(!sticky.is_expired_at(1000, 1060));
    assert!(sticky.is_expired_at(1000, 1061));
    assert!(!sticky.is_expired(u64::MAX - 60));
}

#[test]
fn weight_policy_clamps_and_bounds() {
    assert_eq!(WeightPolicy::new(250).primary_weight, 100);
    assert_eq!(WeightPolicy::new(30).primary_weight, 30);
    let h = HashMap::new();
    let all_primary = WeightPolicy::new(100);
    for _ in 0..50 {
        assert_eq!(all_primary.select_upstream(&h, &h, "ip", 4), 0);
    }
    let never_primary = WeightPolicy::new(0);
    for _ in 0..50 {
        let i = never_primary.select_upstream(&h, &h, "ip", 4);
        assert!(i >= 1 && i < 4);
    }
    assert_eq!(never_primary.select_upstream(&h, &h, "ip", 1), 0);
    assert_eq!(never_primary.select_upstream(&h, &h, "ip", 0), 0);
    assert!(WeightPolicy::new(40).routes_to_primary(39));
    assert!(!WeightPolicy::new(40).routes_to_primary(40));
}

#[test]
fn header_and_cookie_policies() {
    let hp = HeaderPolicy { header_name: "x-canary".to_string(), header_value: "1".to_string(), target_index: 2 };
    let mut headers = HashMap::new();
    let empty = HashMap::new();
    assert_eq!(hp.select_upstream(&headers, &empty, "ip", 3), 0);
    headers.insert("x-canary".to_string(), "1".to_string());
    assert_eq!(hp.select_upstream(&headers, &empty, "ip", 3), 2);
    assert_eq!(hp.select_upstream(&headers, &empty, "ip", 2), 0);
    headers.insert("x-canary".to_string(), "0".to_string());
    assert_eq!(hp.select_upstream(&headers, &empty, "ip", 3), 0);

    let cp = CookiePolicy { cookie_name: "beta".to_string(), cookie_value: "yes".to_string(), target_index: 1 };
    let mut cookies = HashMap::new();
    cookies.insert("beta".to_string(), "yes".to_string());
    assert_eq!(cp.select_upstream(&empty, &cookies, "ip", 2), 1);
    assert_eq!(cp.select_upstream(&cookies, &empty, "ip", 2), 0);
}
