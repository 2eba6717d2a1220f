//! Route configuration.

use vstd::prelude::*;

use crate::gateway_core::config::upstream::UpstreamId;

verus! {

/// One route.
#[derive(Debug, Clone)]
pub struct RouteConfig {
    pub name: String,
    pub match_rule: MatchRule,
    pub upstream: UpstreamRef,
    pub auth: AuthConfig,
    pub rate_limit: Option<RateLimitConfig>,
}

/// What a request must match to take a route.
#[derive(Debug, Clone)]
pub struct MatchRule {
    pub method: String,
    pub path: String,
    pub host: Option<String>,
    pub headers: Vec<HeaderMatch>,
    pub query: Vec<QueryMatch>,
}

/// A header condition.
#[derive(Debug, Clone)]
pub struct HeaderMatch {
    pub name: String,
    pub value: String,
    pub regex: bool,
}

/// A query parameter condition.
#[derive(Debug, Clone)]
pub struct QueryMatch {
    pub name: String,
    pub value: String,
}

/// The upstream a route forwards to.
#[derive(Debug, Clone)]
pub struct UpstreamRef {
    pub id: UpstreamId,
}

/// A route's authentication.
#[derive(Debug, Clone)]
pub struct AuthConfig {
    pub kind: AuthKind,
}

/// Authentication kinds.
#[derive(Debug, Clone, PartialEq, Eq, Structural)]
pub enum AuthKind {
    NoAuth,
    Bearer,
    ApiKey,
}

impl Default for AuthKind {
    /// No authentication.
    fn default() -> (k: Self)
        ensures
            k == AuthKind::NoAuth,
    {
        AuthKind::NoAuth
    }
}

impl Default for AuthConfig {
    /// No authentication.
    fn default() -> (c: Self)
        ensures
            c.kind == AuthKind::NoAuth,
    {
        AuthConfig { kind: AuthKind::NoAuth }
    }
}

/// A rate limit (routes without one inherit `defaults.rate_limit`).
#[derive(Debug, Clone)]
pub struct RateLimitConfig {
    pub algorithm: String,
    pub rps: u32,
    pub burst: u32,
}

} // verus!
