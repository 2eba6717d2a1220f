//! Loading plugins from native dynamic libraries.

use vstd::prelude::*;

use crate::gateway_core::plugins::types::PluginError;

verus! {

/// Loads plugins from `.so`, `.dll` or `.dylib` files.
pub struct NativePluginLoader;

impl NativePluginLoader {
    /// A loader.
    pub fn new() -> Self {
        NativePluginLoader
    }

    /// Loads the plugin at the path shown as `path_display`, which exists or
    /// not as `path_exists` says. Loading native libraries is not available:
    /// a missing file is `NotFound`, an existing one `InitFailed`.
    pub fn load_from_library(&self, path_display: &str, path_exists: bool) -> (r: Result<(), PluginError>)
        ensures
            !path_exists ==> (r matches Err(PluginError::NotFound(m))
                && m@ == "plugin library not found: "@ + path_display@),
            path_exists ==> (r matches Err(PluginError::InitFailed(m))
                && m@ == "native plugin loading not yet implemented: "@ + path_display@),
    {
        if !path_exists {
            let mut m = String::from_str("plugin library not found: ");
            m.append(path_display);
            return Err(PluginError::NotFound(m));
        }
        let mut m = String::from_str("native plugin loading not yet implemented: ");
        m.append(path_display);
        Err(PluginError::InitFailed(m))
    }
}

impl Default for NativePluginLoader {
    fn default() -> Self {
        Self::new()
    }
}

} // verus!
