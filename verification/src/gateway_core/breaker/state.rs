//! Circuit breaker states.

use vstd::prelude::*;

verus! {

/// The state of a circuit breaker.
#[derive(Debug, Clone, Copy, PartialEq, Eq, Structural)]
pub enum BreakerState {
    /// Calls pass.
    Closed,
    /// Calls are refused.
    Open,
    /// One probing call is let through.
    HalfOpen,
}

} // verus!
