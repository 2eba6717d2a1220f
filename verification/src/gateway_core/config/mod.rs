//! Configuration data model (loading happens outside the core).

pub mod gateway;
pub mod provider;
pub mod route;
pub mod upstream;

pub use gateway::{BreakerDefaults, Defaults, GatewayConfig, LoggingConfig, UpstreamAllowlist};
pub use provider::{ProviderConfig, ProviderKind};
pub use route::{AuthConfig, AuthKind, HeaderMatch, MatchRule, QueryMatch, RateLimitConfig, RouteConfig, UpstreamRef};
pub use upstream::{LoadBalancer, UpstreamConfig, UpstreamId};
