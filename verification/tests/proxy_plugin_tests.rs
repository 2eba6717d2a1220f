use std::collections::HashMap;
use std::sync::Arc;

use rapidgate::gateway_core::auth::oauth2::{check_endpoints, CachedToken, OAuth2Config};
use rapidgate::gateway_core::error::CoreError;
use rapidgate::gateway_core::plugins::builtin::compute_request_hash;
use rapidgate::gateway_core::plugins::{PluginError, PluginRegistry, RequestContext};
use rapidgate::gateway_core::proxy::stream::{ChunkBatcher, BATCH_THRESHOLD};
use rapidgate::gateway_core::proxy::transformer::forwardable_headers;
use rapidgate::gateway_core::proxy::ws::{
    relay_next, RelayAction, RelayEvent, RelayState, WsCloseFrame, WsMessage,
};
use rapidgate::gateway_core::util::hash::encode_lower;

fn request(method: &str, path: &str, body: Option<Vec<u8>>) -> RequestContext {
    RequestContext {
        method: method.to_string(),
        path: path.to_string(),
        headers: HashMap::new(),
        query_params: HashMap::new(),
        body,
        metadata: HashMap::new(),
    }
}

fn oauth2_config() -> OAuth2Config {
    OAuth2Config {
        client_id: "test-client".to_string(),
        client_secret: "test-secret".to_string(),
        auth_url: "https://example.com/oauth/authorize".to_string(),
        token_url: "https://example.com/oauth/token".to_string(),
        redirect_url: Some("http://localhost:8080/callback".to_string()),
        default_scopes: vec!["read".to_string(), "write".to_string()],
        cache_ttl_secs: 300,
    }
}

#[test]
fn relay_forwards_data_and_pings() {
    let text = WsMessage::Text("hello".to_string());
    assert_eq!(
        relay_next(RelayState::Open, RelayEvent::Received(text.clone())),
        (RelayState::Open, RelayAction::Forward(text))
    );
    let bin = WsMessage::Binary(vec![1, 2, 3]);
    assert_eq!(
        relay_next(RelayState::Open, RelayEvent::Received(bin.clone())),
        (RelayState::Open, RelayAction::Forward(bin))
    );
    let ping = WsMessage::Ping(vec![9]);
    assert_eq!(
        relay_next(RelayState::Open, RelayEvent::Received(ping.clone())),
        (RelayState::Open, RelayAction::Forward(ping))
    );
}

#[test]
fn relay_skips_pongs_and_raw_frames() {
    assert_eq!(
        relay_next(RelayState::Open, RelayEvent::Received(WsMessage::Pong(vec![1]))),
        (RelayState::Open, RelayAction::Skip)
    );
    assert_eq!(
        relay_next(RelayState::Open, RelayEvent::Received(WsMessage::Frame)),
        (RelayState::Open, RelayAction::Skip)
    );
}

#[test]
fn relay_passes_close_and_stops() {
    let frame = WsCloseFrame { code: 1000, reason: "bye".to_string() };
    assert_eq!(
        relay_next(RelayState::Open, RelayEvent::Received(WsMessage::Close(Some(frame.clone())))),
        (RelayState::Stopped, RelayAction::CloseWith(frame))
    );
    assert_eq!(
        relay_next(RelayState::Open, RelayEvent::Received(WsMessage::Close(None))),
        (RelayState::Stopped, RelayAction::Stop)
    );
}

#[test]
fn relay_stops_on_failure_or_end() {
    for ev in [RelayEvent::ReceiveFailed, RelayEvent::Ended, RelayEvent::SendFailed] {
        assert_eq!(relay_next(RelayState::Open, ev), (RelayState::Stopped, RelayAction::Stop));
    }
    assert_eq!(
        relay_next(RelayState::Stopped, RelayEvent::Received(WsMessage::Text("x".to_string()))),
        (RelayState::Stopped, RelayAction::Stop)
    );
}

#[test]
fn batcher_merges_small_chunks() {
    let mut b = ChunkBatcher::new();
    assert_eq!(b.push(&[1u8; 300]), None);
    assert_eq!(b.push(&[2u8; 300]), None);
    let out = b.push(&[3u8; 500]).expect("a full batch");
    assert_eq!(out.len(), 1100);
    assert_eq!(&out[..300], &[1u8; 300][..]);
    assert_eq!(&out[300..600], &[2u8; 300][..]);
    assert_eq!(&out[600..], &[3u8; 500][..]);
    assert_eq!(b.flush(), None);
}

#[test]
fn batcher_sends_large_chunk_at_once() {
    let mut b = ChunkBatcher::new();
    let chunk = vec![7u8; BATCH_THRESHOLD];
    assert_eq!(b.push(&chunk), Some(chunk.clone()));
    assert_eq!(b.flush(), None);
}

#[test]
fn batcher_flushes_tail() {
    let mut b = ChunkBatcher::new();
    assert_eq!(b.push(b"data: x\n\n"), None);
    assert_eq!(b.push(b"data: y\n\n"), None);
    assert_eq!(b.flush(), Some(b"data: x\n\ndata: y\n\n".to_vec()));
    assert_eq!(b.flush(), None);
}

#[test]
fn strips_hop_by_hop() {
    let headers = vec![
        ("content-type".to_string(), "text/event-stream"),
        ("connection".to_string(), "close"),
        ("x-request-id".to_string(), "abc"),
        ("Transfer-Encoding".to_string(), "chunked"),
    ];
    let out = forwardable_headers(&headers);
    let names: Vec<&str> = out.iter().map(|h| h.0.as_str()).collect();
    assert_eq!(names, vec!["content-type", "x-request-id"]);
    assert_eq!(out[0].1, "text/event-stream");
}

#[test]
fn plugin_registry_register_get_count() {
    let mut reg: PluginRegistry<String> = PluginRegistry::new();
    assert_eq!(reg.count(), 0);
    assert!(reg.register("add-request-id".to_string(), Arc::new("a".to_string())).is_ok());
    assert!(reg.register("cache-response".to_string(), Arc::new("b".to_string())).is_ok());
    assert_eq!(reg.count(), 2);
    assert_eq!(reg.get("cache-response").map(|p| p.as_str()), Some("b"));
    assert!(reg.get("missing").is_none());
    let listed: Vec<&str> = reg.list().iter().map(|p| p.as_str()).collect();
    assert_eq!(listed, vec!["a", "b"]);
}

#[test]
fn plugin_registry_refuses_duplicates() {
    let mut reg: PluginRegistry<String> = PluginRegistry::default();
    reg.register("p".to_string(), Arc::new("first".to_string())).unwrap();
    match reg.register("p".to_string(), Arc::new("second".to_string())) {
        Err(PluginError::InitFailed(m)) => assert_eq!(m, "plugin 'p' already registered"),
        other => panic!("unexpected {:?}", other),
    }
    assert_eq!(reg.get("p").map(|p| p.as_str()), Some("first"));
    assert_eq!(reg.count(), 1);
}

#[test]
fn plugin_registry_unregister() {
    let mut reg: PluginRegistry<String> = PluginRegistry::new();
    reg.register("p".to_string(), Arc::new("x".to_string())).unwrap();
    assert!(reg.unregister("p").is_ok());
    assert!(reg.get("p").is_none());
    assert_eq!(reg.count(), 0);
    match reg.unregister("p") {
        Err(PluginError::NotFound(m)) => assert_eq!(m, "plugin 'p' not found"),
        other => panic!("unexpected {:?}", other),
    }
}

#[test]
fn request_hash_is_sha256_of_method_path_body() {
    let ctx = request("GET", "/v1/chat", Some(b"{\"a\":1}".to_vec()));
    assert_eq!(
        compute_request_hash(&ctx),
        "c3a9ac099a039f74f5df71da99aa9358acff7d08f4f59f3e55588252168533e2"
    );
    let ctx = request("GET", "/v1/models", None);
    assert_eq!(
        compute_request_hash(&ctx),
        "8152b778965ad6123e9f47fec03de7a8d15a3fea383d8a19afa0d8a6f3d02000"
    );
}

#[test]
fn lower_hex_encoding() {
    assert_eq!(encode_lower(&[0x00, 0xab, 0x7f, 0xff]), "00ab7fff");
    assert_eq!(encode_lower(&[]), "");
}

#[test]
fn build_client_success() {
    assert!(check_endpoints(&oauth2_config()).is_ok());
}

#[test]
fn invalid_auth_url_rejected() {
    let mut config = oauth2_config();
    config.auth_url = "not a valid url with spaces and \0 null".to_string();
    match check_endpoints(&config) {
        Err(CoreError::Config(m)) => assert_eq!(m, "invalid auth_url: relative URL without a base"),
        other => panic!("unexpected {:?}", other),
    }
}

#[test]
fn invalid_token_url_rejected() {
    let mut config = oauth2_config();
    config.token_url = "not a valid url with spaces and \0 null".to_string();
    match check_endpoints(&config) {
        Err(CoreError::Config(m)) => assert_eq!(m, "invalid token_url: relative URL without a base"),
        other => panic!("unexpected {:?}", other),
    }
}

#[test]
fn invalid_redirect_url_rejected() {
    let mut config = oauth2_config();
    config.redirect_url = Some("callback".to_string());
    match check_endpoints(&config) {
        Err(CoreError::Config(m)) => {
            assert_eq!(m, "invalid redirect_url: relative URL without a base")
        }
        other => panic!("unexpected {:?}", other),
    }
    config.redirect_url = None;
    assert!(check_endpoints(&config).is_ok());
}

#[test]
fn cached_token_from_response() {
    let t = CachedToken::from_response("at".to_string(), Some(60_000), Some("rt".to_string()), 1_000);
    assert_eq!(t.access_token, "at");
    assert_eq!(t.expires_at_ms, Some(61_000));
    assert_eq!(t.refresh_token.as_deref(), Some("rt"));
    assert!(!t.is_expired_at(60_999));
    assert!(t.is_expired_at(61_000));
    let t = CachedToken::from_response("at".to_string(), None, None, 1_000);
    assert_eq!(t.expires_at_ms, None);
}
