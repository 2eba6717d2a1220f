//! Rate limiting: the decision type, the limiter interface and the
//! sliding-window limiter.

pub mod sliding_window;

use vstd::prelude::*;

use crate::gateway_core::error::CoreError;

verus! {

/// A rate-limit key (a user id, an API key fingerprint or an IP).
pub type LimitKey = String;

/// The outcome of a rate-limit check.
#[derive(Debug, Clone, Copy, PartialEq, Eq, Structural)]
pub enum Decision {
    Allow,
    Deny,
}

/// A rate limiter. Time is passed in as nanoseconds of a monotonic clock.
pub trait RateLimiter {
    /// Counts a request for `key` at `now_ns` and decides whether it passes.
    fn check(&mut self, key: &LimitKey, now_ns: u64) -> Result<Decision, CoreError>;
}

} // verus!
