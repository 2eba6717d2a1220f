use std::time::{SystemTime, UNIX_EPOCH};

use jsonwebtoken::{encode, EncodingKey, Header};
use rapidgate::gateway_core::auth::jwt::{verify_outcome, JwtAlgorithm, JwtAuthenticator};
use rapidgate::gateway_core::auth::Authenticator;
use rapidgate::gateway_core::error::CoreError;
use serde_json::Value;

fn now_secs() -> u64 {
    SystemTime::now().duration_since(UNIX_EPOCH).unwrap().as_secs()
}

fn token(secret: &[u8], sub: &str, iss: Option<&str>, exp: u64) -> String {
    let mut claims = serde_json::Map::new();
    claims.insert("sub".to_string(), Value::String(sub.to_string()));
    if let Some(i) = iss {
        claims.insert("iss".to_string(), Value::String(i.to_string()));
    }
    claims.insert("exp".to_string(), Value::from(exp));
    encode(&Header::default(), &Value::Object(claims), &EncodingKey::from_secret(secret)).unwrap()
}

#[test]
fn hs256_valid_token() {
    let secret = b"test-secret-key-for-testing-1234";
    let auth = JwtAuthenticator::new_hs256(secret, None);
    let t = token(secret, "user1", None, now_secs() + 3600);
    assert!(auth.verify(&t).is_ok());
}

#[test]
fn hs256_expired_token() {
    let secret = b"test-secret-key-for-testing-1234";
    let auth = JwtAuthenticator::new_hs256(secret, None);
    let t = token(secret, "user1", None, 1000);
    match auth.verify(&t) {
        Err(CoreError::Auth(m)) => assert!(m.starts_with("jwt verify failed: "), "{m}"),
        other => panic!("unexpected {:?}", other),
    }
}

#[test]
fn wrong_secret_rejected() {
    let t = token(b"secret-a", "user1", None, now_secs() + 3600);
    let auth = JwtAuthenticator::new_hs256(b"secret-b", None);
    assert!(auth.verify(&t).is_err());
}

#[test]
fn issuer_is_checked_when_configured() {
    let secret = b"issuer-secret";
    let auth = JwtAuthenticator::new_hs256(secret, Some("gateway".to_string()));
    assert!(auth.verify(&token(secret, "u", Some("gateway"), now_secs() + 60)).is_ok());
    assert!(auth.verify(&token(secret, "u", Some("other"), now_secs() + 60)).is_err());
    let v = auth.validation();
    assert_eq!(v.algorithm, JwtAlgorithm::HS256);
    assert!(v.validate_exp);
    assert_eq!(v.issuer.as_deref(), Some("gateway"));
    assert!(!v.validate_aud);
}

#[test]
fn malformed_token_rejected() {
    let auth = JwtAuthenticator::new_hs256(b"k", None);
    assert!(matches!(auth.verify("not-a-jwt"), Err(CoreError::Auth(_))));
}

#[test]
fn invalid_rsa_key_rejected() {
    match JwtAuthenticator::new_rs256(b"not a pem", None) {
        Err(CoreError::Config(m)) => assert!(m.starts_with("invalid RSA key: "), "{m}"),
        Err(e) => panic!("unexpected {:?}", e),
        Ok(_) => panic!("accepted a bad key"),
    }
}

#[test]
fn outcome_mapping() {
    assert!(verify_outcome(None).is_ok());
    match verify_outcome(Some("ExpiredSignature".to_string())) {
        Err(CoreError::Auth(m)) => assert_eq!(m, "jwt verify failed: ExpiredSignature"),
        other => panic!("unexpected {:?}", other),
    }
}
