use rapidgate::gateway_core::observability::otel::{OtelConfig, OtelError, OtelInitializer};
use rapidgate::gateway_core::observability::trace::{TraceContext, TraceId};

#[test]
fn test_otel_config_default() {
    let config = OtelConfig::default();
    assert_eq!(config.endpoint, "http://localhost:4317");
    assert_eq!(config.service_name, "rapidgate");
    assert!(config.enable_tracing);
    assert!(config.enable_metrics);
}

#[test]
fn test_otel_error_display() {
    let err = OtelError::InitFailed("test error".to_string());
    assert_eq!(err.message(), "otel init failed: test error");
}

#[test]
fn otel_shutdown_is_harmless() {
    OtelInitializer::shutdown();
}

#[test]
fn new_generates_32_char_hex() {
    let id = TraceId::new();
    assert_eq!(id.as_str().len(), 32);
    assert!(id.as_str().chars().all(|c| c.is_ascii_hexdigit()));
}

#[test]
fn roundtrip_hex() {
    let id = TraceId::new();
    let parsed = TraceId::from_hex(id.as_str()).unwrap();
    assert_eq!(id, parsed);
}

#[test]
fn rejects_wrong_length() {
    assert!(TraceId::from_hex("abcd").is_none());
}

#[test]
fn rejects_non_hex() {
    assert!(TraceId::from_hex(&"z".repeat(32)).is_none());
}

#[test]
fn from_hex_uppercases() {
    let id = TraceId::from_hex("4bf92f3577b34da6a3ce929d0e0e4736").unwrap();
    assert_eq!(id.as_str(), "4BF92F3577B34DA6A3CE929D0E0E4736");
}

#[test]
fn trace_ids_are_uppercase_and_fresh() {
    let a = TraceId::new();
    let b = TraceId::default();
    assert_ne!(a, b);
    assert!(a.as_str().chars().all(|c| !c.is_ascii_lowercase()));
}

#[test]
fn parses_w3c_example() {
    let ctx =
        TraceContext::from_traceparent("00-4bf92f3577b34da6a3ce929d0e0e4736-00f067aa0ba902b7-01")
            .unwrap();
    assert_eq!(ctx.trace_id, "4bf92f3577b34da6a3ce929d0e0e4736");
    assert_eq!(ctx.span_id, "00f067aa0ba902b7");
    assert_eq!(ctx.flags, 1);
    assert_eq!(
        ctx.to_traceparent(),
        "00-4bf92f3577b34da6a3ce929d0e0e4736-00f067aa0ba902b7-01"
    );
}

#[test]
fn rejects_bad_traceparents() {
    let good_trace = "4bf92f3577b34da6a3ce929d0e0e4736";
    let good_span = "00f067aa0ba902b7";
    assert!(TraceContext::from_traceparent(&format!("01-{good_trace}-{good_span}-01")).is_none());
    assert!(TraceContext::from_traceparent(&format!("00-{good_trace}-{good_span}")).is_none());
    assert!(TraceContext::from_traceparent(&format!("00-{good_trace}-{good_span}-01-x")).is_none());
    assert!(TraceContext::from_traceparent(&format!("00-{good_trace}a-{good_span}-01")).is_none());
    assert!(TraceContext::from_traceparent(&format!("00-{good_trace}-{good_span}-1ff")).is_none());
    assert!(TraceContext::from_traceparent(&format!("00-{good_trace}-{good_span}-")).is_none());
    assert!(TraceContext::from_traceparent(&format!("00-{good_trace}-{good_span}-+")).is_none());
    assert!(TraceContext::from_traceparent(&format!("00-{good_trace}-0g0000000000000-01")).is_none());
}

#[test]
fn flags_are_two_hex_digits() {
    let t = "4bf92f3577b34da6a3ce929d0e0e4736";
    let s = "00f067aa0ba902b7";
    let ctx = TraceContext::from_traceparent(&format!("00-{t}-{s}-ff")).unwrap();
    assert_eq!(ctx.flags, 255);
    let ctx = TraceContext::from_traceparent(&format!("00-{t}-{s}-0A")).unwrap();
    assert_eq!(ctx.flags, 10);
    assert_eq!(ctx.to_traceparent(), format!("00-{t}-{s}-0a"));
    for bad in ["1", "+1", "001", "+0f", "0g", ""] {
        assert!(TraceContext::from_traceparent(&format!("00-{t}-{s}-{bad}")).is_none(), "{bad}");
    }
}

#[test]
fn new_span_keeps_trace_and_flags() {
    let ctx =
        TraceContext::from_traceparent("00-4bf92f3577b34da6a3ce929d0e0e4736-00f067aa0ba902b7-01")
            .unwrap();
    let (child, parent) = ctx.new_span();
    assert_eq!(child.trace_id, ctx.trace_id);
    assert_eq!(child.flags, 1);
    assert_eq!(child.span_id.len(), 16);
    assert_eq!(parent, child.to_traceparent());
    let reparsed = TraceContext::from_traceparent(&parent).unwrap();
    assert_eq!(reparsed.span_id, child.span_id);
}

#[test]
fn new_root_is_sampled() {
    let (ctx, parent) = TraceContext::new_root();
    assert_eq!(ctx.flags, 1);
    assert_eq!(ctx.trace_id.len(), 32);
    assert!(parent.starts_with("00-"));
    assert!(parent.ends_with("-01"));
    let back = TraceContext::from_traceparent(&parent).unwrap();
    assert_eq!(back.trace_id, ctx.trace_id);
    assert_eq!(back.span_id, ctx.span_id);
}
