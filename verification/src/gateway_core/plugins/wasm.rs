//! Loading plugins from WebAssembly modules.

use vstd::prelude::*;

use crate::gateway_core::plugins::types::PluginError;

verus! {

/// Loads plugins from `.wasm` files, to run them in a sandbox.
pub struct WasmPluginLoader {}

impl WasmPluginLoader {
    /// A loader; creating one does not fail.
    pub fn new() -> (r: Result<Self, PluginError>)
        ensures
            r is Ok,
    {
        Ok(WasmPluginLoader {})
    }

    /// Loads the module at the path shown as `path_display`, which exists or
    /// not as `path_exists` says. Loading modules is not available: a
    /// missing file is `NotFound`, an existing one `InitFailed`.
    pub fn load_from_wasm(&self, path_display: &str, path_exists: bool) -> (r: Result<(), PluginError>)
        ensures
            !path_exists ==> (r matches Err(PluginError::NotFound(m))
                && m@ == "WASM plugin not found: "@ + path_display@),
            path_exists ==> (r matches Err(PluginError::InitFailed(m))
                && m@ == "WASM plugin loading not yet implemented: "@ + path_display@),
    {
        if !path_exists {
            let mut m = String::from_str("WASM plugin not found: ");
            m.append(path_display);
            return Err(PluginError::NotFound(m));
        }
        let mut m = String::from_str("WASM plugin loading not yet implemented: ");
        m.append(path_display);
        Err(PluginError::InitFailed(m))
    }
}

impl Default for WasmPluginLoader {
    fn default() -> Self {
        WasmPluginLoader {}
    }
}

} // verus!
