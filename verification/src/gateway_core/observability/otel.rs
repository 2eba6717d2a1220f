//! OpenTelemetry exporter settings and errors. Installing the exporters is
//! done by the application.

use vstd::prelude::*;

verus! {

/// OpenTelemetry settings.
#[derive(Debug, Clone)]
pub struct OtelConfig {
    /// The OTLP endpoint.
    pub endpoint: String,
    /// The service name reported.
    pub service_name: String,
    /// Whether traces are exported.
    pub enable_tracing: bool,
    /// Whether metrics are exported.
    pub enable_metrics: bool,
}

impl Default for OtelConfig {
    /// Endpoint `http://localhost:4317`, service `rapidgate`, tracing and metrics on.
    fn default() -> (c: Self)
        ensures
            c.endpoint@ == "http://localhost:4317"@,
            c.service_name@ == "rapidgate"@,
            c.enable_tracing,
            c.enable_metrics,
    {
        OtelConfig {
            endpoint: String::from_str("http://localhost:4317"),
            service_name: String::from_str("rapidgate"),
            enable_tracing: true,
            enable_metrics: true,
        }
    }
}

/// Sets up and tears down OpenTelemetry.
pub struct OtelInitializer;

impl OtelInitializer {
    /// Shuts OpenTelemetry down. The providers flush their pending data when
    /// they are dropped, so nothing is left to do here.
    pub fn shutdown() {
    }
}

/// OpenTelemetry errors.
#[derive(Debug)]
pub enum OtelError {
    /// Setting up an exporter failed.
    InitFailed(String),
}

impl OtelError {
    /// The error's display text: `otel init failed: {msg}`.
    pub fn message(&self) -> (s: String)
        ensures
            match *self {
                OtelError::InitFailed(m) => s@ == "otel init failed: "@ + m@,
            },
    {
        match self {
            OtelError::InitFailed(m) => {
                let mut s = String::from_str("otel init failed: ");
                s.append(m.as_str());
                s
            },
        }
    }
}

} // verus!
