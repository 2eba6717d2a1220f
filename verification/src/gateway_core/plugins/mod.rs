//! Plugins: shared types, the registry, loaders and built-in plugins.

pub mod builtin;
pub mod native;
pub mod registry;
pub mod types;
pub mod wasm;

pub use registry::PluginRegistry;
pub use types::{ErrorContext, PluginError, PluginMetadata, ProxyContext, RequestContext};
