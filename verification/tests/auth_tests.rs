use rapidgate::gateway_core::auth::apikey::ApiKeyAuthenticator;
use rapidgate::gateway_core::auth::oauth2::{
    build_cache_key, check_state, default_cache_ttl_secs, plan_token, CachedToken, OAuth2Config,
    TokenPlan,
};
use rapidgate::gateway_core::auth::Authenticator;
use rapidgate::gateway_core::error::CoreError;

fn now_ms() -> u64 {
    std::time::SystemTime::now()
        .duration_since(std::time::UNIX_EPOCH)
        .unwrap()
        .as_millis() as u64
}

#[test]
fn accepts_registered_key() {
    let mut auth = ApiKeyAuthenticator::new();
    auth.register("sk-test-1234567890".to_string());
    assert!(auth.verify("sk-test-1234567890").is_ok());
}

#[test]
fn rejects_unknown_key() {
    let mut auth = ApiKeyAuthenticator::new();
    auth.register("sk-test-1234567890".to_string());
    assert!(auth.verify("sk-other-0987654321").is_err());
}

#[test]
fn rejects_empty_credential() {
    let mut auth = ApiKeyAuthenticator::new();
    auth.register("sk-test-1234567890".to_string());
    assert!(auth.verify("").is_err());
}

#[test]
fn uniform_error_message() {
    let mut auth = ApiKeyAuthenticator::new();
    auth.register("sk-test-1234567890".to_string());
    let a = auth.verify("sk-wrong").unwrap_err();
    let b = auth.verify("").unwrap_err();
    assert_eq!(a.message(), b.message());
    assert_eq!(a.message(), "auth failed: invalid or missing api key");
}

#[test]
fn unregister_and_is_empty() {
    let mut auth = ApiKeyAuthenticator::default();
    assert!(auth.is_empty());
    auth.register("k1".to_string());
    auth.register("k1".to_string());
    auth.register("k2".to_string());
    assert!(!auth.is_empty());
    auth.unregister("k1");
    assert!(auth.verify("k1").is_err());
    assert!(auth.verify("k2").is_ok());
    auth.unregister("k2");
    assert!(auth.is_empty());
}

#[test]
fn auth_failure_returns_error() {
    let mut auth = ApiKeyAuthenticator::new();
    auth.register("sk-test-123".to_string());
    assert!(auth.verify("sk-wrong").is_err());
}

#[test]
fn auth_success_returns_ok() {
    let mut auth = ApiKeyAuthenticator::new();
    auth.register("sk-test-123".to_string());
    assert!(auth.verify("sk-test-123").is_ok());
}

#[test]
fn cached_token_expiry_detection() {
    let now = now_ms();
    let token = CachedToken {
        access_token: "tok".to_string(),
        expires_at_ms: Some(now - 1000),
        refresh_token: None,
    };
    assert!(token.is_expired());

    let valid_token = CachedToken {
        access_token: "tok".to_string(),
        expires_at_ms: Some(now + 3_600_000),
        refresh_token: None,
    };
    assert!(!valid_token.is_expired());
}

#[test]
fn cached_token_no_expiry_never_expires() {
    let token = CachedToken { access_token: "tok".to_string(), expires_at_ms: None, refresh_token: None };
    assert!(!token.is_expired());
}

#[test]
fn token_expiry_boundary() {
    let token = CachedToken { access_token: "t".to_string(), expires_at_ms: Some(100), refresh_token: None };
    assert!(!token.is_expired_at(99));
    assert!(token.is_expired_at(100));
    assert!(token.is_expired_at(101));
}

#[test]
fn cache_key_includes_client_id_and_scopes() {
    let key = build_cache_key("test-client", &["write".to_string(), "read".to_string()]);
    assert_eq!(key, "test-client:read,write");
}

#[test]
fn cache_key_different_for_different_scopes() {
    let key1 = build_cache_key("test-client", &["read".to_string()]);
    let key2 = build_cache_key("test-client", &["write".to_string()]);
    assert_ne!(key1, key2);
}

#[test]
fn cache_key_ignores_scope_order() {
    let a = build_cache_key("c", &["b".to_string(), "a".to_string(), "ab".to_string(), "B".to_string()]);
    let b = build_cache_key("c", &["ab".to_string(), "B".to_string(), "b".to_string(), "a".to_string()]);
    assert_eq!(a, b);
    assert_eq!(a, "c:B,a,ab,b");
    assert_eq!(build_cache_key("c", &[]), "c:");
}

#[test]
fn exchange_authorization_code_state_mismatch() {
    let result = check_state("expected", "actual");
    assert!(result.is_err());
    assert!(result.unwrap_err().message().contains("state mismatch"));
    assert!(check_state("same", "same").is_ok());
    assert!(check_state("abc", "abcd").is_err());
}

#[test]
fn token_plans() {
    let live = CachedToken { access_token: "a".to_string(), expires_at_ms: Some(50), refresh_token: Some("r".to_string()) };
    assert_eq!(plan_token(Some(&live), 10), TokenPlan::UseCached("a".to_string()));
    assert_eq!(plan_token(Some(&live), 50), TokenPlan::Refresh("r".to_string()));
    let no_refresh = CachedToken { access_token: "a".to_string(), expires_at_ms: Some(5), refresh_token: None };
    assert_eq!(plan_token(Some(&no_refresh), 10), TokenPlan::FetchNew);
    assert_eq!(plan_token(None, 10), TokenPlan::FetchNew);
}

#[test]
fn oauth_config_defaults() {
    assert_eq!(default_cache_ttl_secs(), 300);
    let cfg = OAuth2Config {
        client_id: "c".to_string(),
        client_secret: "s".to_string(),
        auth_url: "https://a.com/auth".to_string(),
        token_url: "https://a.com/token".to_string(),
        redirect_url: None,
        default_scopes: vec![],
        cache_ttl_secs: default_cache_ttl_secs(),
    };
    assert_eq!(cfg.cache_ttl_secs, 300);
}

#[test]
fn core_error_messages() {
    assert_eq!(CoreError::Config("x".to_string()).message(), "config error: x");
    assert_eq!(CoreError::RouteNotFound("/a".to_string()).message(), "route not found: /a");
    assert_eq!(CoreError::RateLimited.message(), "rate limit exceeded");
    assert_eq!(CoreError::BreakerOpen("b".to_string()).message(), "circuit breaker open: b");
    assert_eq!(CoreError::UpstreamUnreachable("u".to_string()).message(), "upstream unreachable: u");
    assert_eq!(
        CoreError::UpstreamTimeout(std::time::Duration::from_millis(1500)).message(),
        "upstream timeout after 1.5s"
    );
    assert_eq!(CoreError::BadRequest("b".to_string()).message(), "invalid request: b");
    assert_eq!(CoreError::Internal("i".to_string()).message(), "internal error: i");
}
