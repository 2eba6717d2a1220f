//! Observability: trace identifiers, trace context and exporter settings.

pub mod otel;
pub mod trace;

pub use otel::{OtelConfig, OtelError, OtelInitializer};
pub use trace::{TraceContext, TraceId};
