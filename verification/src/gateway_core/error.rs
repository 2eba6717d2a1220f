//! The core error type.
//!
//! Nine variants cover configuration, routing, authentication, rate
//! limiting, circuit breaking, upstream failures, bad requests and internal
//! errors. HTTP status mapping happens outside the core.

use std::time::Duration;

use vstd::prelude::*;

verus! {

/// Errors of the gateway core.
#[derive(Debug)]
pub enum CoreError {
    Config(String),
    RouteNotFound(String),
    Auth(String),
    RateLimited,
    BreakerOpen(String),
    UpstreamUnreachable(String),
    UpstreamTimeout(Duration),
    BadRequest(String),
    Internal(String),
}

/// The text that `Debug` gives a `Duration` (such as `1.5s`).
pub uninterp spec fn duration_debug_text(d: Duration) -> Seq<char>;

/// Formats a duration with `{:?}`.
///
/// Trusted: the result is the standard library's `Debug` text for `d`,
/// named `duration_debug_text`; its exact form is not stated.
#[verifier::external_body]
fn duration_debug(d: &Duration) -> (s: String)
    ensures
        s@ == duration_debug_text(*d),
{
    format!("{:?}", d)
}

fn prefixed(prefix: &str, detail: &String) -> (s: String)
    ensures
        s@ == prefix@ + detail@,
{
    let mut s = String::from_str(prefix);
    s.append(detail.as_str());
    s
}

/// The display text of each error.
pub open spec fn error_message(e: CoreError) -> Seq<char> {
    match e {
        CoreError::Config(m) => "config error: "@ + m@,
        CoreError::RouteNotFound(m) => "route not found: "@ + m@,
        CoreError::Auth(m) => "auth failed: "@ + m@,
        CoreError::RateLimited => "rate limit exceeded"@,
        CoreError::BreakerOpen(m) => "circuit breaker open: "@ + m@,
        CoreError::UpstreamUnreachable(m) => "upstream unreachable: "@ + m@,
        CoreError::UpstreamTimeout(d) => "upstream timeout after "@ + duration_debug_text(d),
        CoreError::BadRequest(m) => "invalid request: "@ + m@,
        CoreError::Internal(m) => "internal error: "@ + m@,
    }
}

impl CoreError {
    /// The error's display text.
    pub fn message(&self) -> (s: String)
        ensures
            s@ == error_message(*self),
    {
        match self {
            CoreError::Config(m) => prefixed("config error: ", m),
            CoreError::RouteNotFound(m) => prefixed("route not found: ", m),
            CoreError::Auth(m) => prefixed("auth failed: ", m),
            CoreError::RateLimited => String::from_str("rate limit exceeded"),
            CoreError::BreakerOpen(m) => prefixed("circuit breaker open: ", m),
            CoreError::UpstreamUnreachable(m) => prefixed("upstream unreachable: ", m),
            CoreError::UpstreamTimeout(d) => prefixed("upstream timeout after ", &duration_debug(d)),
            CoreError::BadRequest(m) => prefixed("invalid request: ", m),
            CoreError::Internal(m) => prefixed("internal error: ", m),
        }
    }
}

} // verus!
