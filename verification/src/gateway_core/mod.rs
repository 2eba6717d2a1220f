//! The I/O-free core of the gateway.

pub mod audit;
pub mod auth;
pub mod breaker;
pub mod canary;
pub mod config;
pub mod error;
pub mod observability;
pub mod plugins;
pub mod provider;
pub mod proxy;
pub mod ratelimit;
pub mod util;

pub use error::CoreError;
