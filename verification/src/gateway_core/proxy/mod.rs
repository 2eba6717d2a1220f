//! Proxying: response streaming, header filtering and WebSocket relaying.

pub mod stream;
pub mod transformer;
pub mod ws;
