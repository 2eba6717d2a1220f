//! Circuit breaker.

pub mod breaker;
pub mod state;

pub use breaker::Breaker;
pub use state::BreakerState;
