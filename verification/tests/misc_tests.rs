use std::collections::HashMap;

use rapidgate::gateway_core::audit::counter::{sse_payloads_of, TokenCounter};
use rapidgate::gateway_core::audit::AuditEvent;
use rapidgate::gateway_core::config::{AuthConfig, AuthKind, LoadBalancer};
use rapidgate::gateway_core::plugins::builtin::AddRequestIdPlugin;
use rapidgate::gateway_core::plugins::native::NativePluginLoader;
use rapidgate::gateway_core::plugins::wasm::WasmPluginLoader;
use rapidgate::gateway_core::plugins::{PluginError, RequestContext};
use rapidgate::gateway_core::proxy::transformer::is_hop_by_hop;
use rapidgate::gateway_core::proxy::ws::WsForwarder;

#[test]
fn forwarder_constructs() {
    let fwd = WsForwarder::new("wss://example.com/ws".to_string());
    assert_eq!(fwd.upstream_url, "wss://example.com/ws");
}

#[test]
fn hop_by_hop_headers() {
    assert!(is_hop_by_hop("connection"));
    assert!(is_hop_by_hop("Keep-Alive"));
    assert!(is_hop_by_hop("TE"));
    assert!(is_hop_by_hop("Transfer-Encoding"));
    assert!(!is_hop_by_hop("content-type"));
    assert!(!is_hop_by_hop("tee"));
}

#[test]
fn sse_payload_extraction() {
    let chunk = "data: {\"usage\":{\"prompt_tokens\":10,\"completion_tokens\":20}}\n\n";
    assert_eq!(
        sse_payloads_of(chunk),
        vec!["{\"usage\":{\"prompt_tokens\":10,\"completion_tokens\":20}}".to_string(), "".to_string()]
    );
    assert_eq!(sse_payloads_of("data: [DONE]\n\n"), vec!["".to_string()]);
    assert_eq!(sse_payloads_of("a\r\nb"), vec!["a".to_string(), "b".to_string()]);
    assert_eq!(sse_payloads_of(""), Vec::<String>::new());
    assert_eq!(sse_payloads_of("data:x\n"), vec!["data:x".to_string()]);
}

#[test]
fn token_counter_saturates() {
    let mut c = TokenCounter::new();
    c.add_usage(5, 10);
    c.add_usage(3, 7);
    assert_eq!(c.prompt_tokens, 8);
    assert_eq!(c.completion_tokens, 17);
    assert_eq!(c.total(), 25);
    c.add_usage(u64::MAX, 0);
    assert_eq!(c.prompt_tokens, u64::MAX);
    assert_eq!(c.total(), u64::MAX);
}

#[test]
fn audit_event_truncates_token_counts() {
    let e = AuditEvent::new("r".to_string(), "h".to_string(), (1u64 << 32) + 5, 7, 12, 200);
    assert_eq!(e.prompt_tokens, 5);
    assert_eq!(e.completion_tokens, 7);
    assert_eq!(e.tokens_in, (1u64 << 32) + 5);
    assert!(e.trace_id.is_empty());
    assert!(e.user_id.is_none());
    assert!(e.timestamp_micros > 0);
}

#[test]
fn config_defaults() {
    assert_eq!(AuthKind::default(), AuthKind::NoAuth);
    assert_eq!(AuthConfig::default().kind, AuthKind::NoAuth);
    assert_eq!(LoadBalancer::default(), LoadBalancer::RoundRobin);
}

fn request(headers: HashMap<String, String>) -> RequestContext {
    RequestContext {
        method: "GET".to_string(),
        path: "/".to_string(),
        headers,
        query_params: HashMap::new(),
        body: None,
        metadata: HashMap::new(),
    }
}

#[test]
fn add_request_id_plugin() {
    let plugin = AddRequestIdPlugin;
    let mut ctx = request(HashMap::new());
    plugin.on_request(&mut ctx);
    assert_eq!(ctx.headers.get("x-request-id").unwrap().len(), 36);
    let mut h = HashMap::new();
    h.insert("x-request-id".to_string(), "given".to_string());
    let mut ctx = request(h);
    plugin.on_request(&mut ctx);
    assert_eq!(ctx.headers.get("x-request-id").unwrap(), "given");
    let mut ctx = request(HashMap::new());
    plugin.ensure_request_id(&mut ctx, "fixed".to_string());
    assert_eq!(ctx.headers.get("x-request-id").unwrap(), "fixed");
}

#[test]
fn plugin_loaders_report_errors() {
    let native = NativePluginLoader::new();
    match native.load_from_library("/missing.so", false) {
        Err(PluginError::NotFound(m)) => assert_eq!(m, "plugin library not found: /missing.so"),
        other => panic!("unexpected {other:?}"),
    }
    match native.load_from_library("/lib.so", true) {
        Err(e @ PluginError::InitFailed(_)) => {
            assert_eq!(e.message(), "plugin initialization failed: native plugin loading not yet implemented: /lib.so")
        }
        other => panic!("unexpected {other:?}"),
    }
    let wasm = WasmPluginLoader::new().unwrap();
    assert!(matches!(wasm.load_from_wasm("p.wasm", false), Err(PluginError::NotFound(_))));
    assert!(matches!(wasm.load_from_wasm("p.wasm", true), Err(PluginError::InitFailed(_))));
}
