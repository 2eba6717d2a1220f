//! Canary releases: traffic split by weight, header or cookie, and sticky sessions.

pub mod policy;
pub mod sticky;

pub use policy::CanaryPolicy;
pub use sticky::StickySession;
