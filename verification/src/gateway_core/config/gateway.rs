//! The gateway's top-level configuration.

use vstd::prelude::*;

use crate::gateway_core::config::route::RateLimitConfig;
use crate::gateway_core::config::upstream::UpstreamConfig;

verus! {

/// The gateway's configuration.
#[derive(Debug, Clone)]
pub struct GatewayConfig {
    pub listen: String,
    pub request_timeout_ms: u64,
    pub max_body_bytes: usize,
    pub shutdown_timeout_ms: u64,
    pub logging: LoggingConfig,
    pub upstream_allowlist: UpstreamAllowlist,
    pub defaults: Defaults,
    pub upstreams: Vec<UpstreamConfig>,
}

/// Logging settings.
#[derive(Debug, Clone)]
pub struct LoggingConfig {
    pub level: String,
    pub format: String,
}

/// Hosts that upstreams may point at.
#[derive(Debug, Clone)]
pub struct UpstreamAllowlist {
    pub hosts: Vec<String>,
}

/// Defaults that routes inherit.
#[derive(Debug, Clone)]
pub struct Defaults {
    pub rate_limit: RateLimitConfig,
    pub breaker: BreakerDefaults,
}

/// Default circuit breaker settings.
#[derive(Debug, Clone)]
pub struct BreakerDefaults {
    pub failure_threshold: u32,
    pub open_duration_ms: u64,
}

} // verus!
