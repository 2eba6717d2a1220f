//! Types shared by plugins: errors, metadata and the contexts plugins see.

use std::collections::HashMap;

use vstd::prelude::*;

verus! {

/// Plugin errors.
#[derive(Debug)]
pub enum PluginError {
    InitFailed(String),
    ExecutionFailed(String),
    NotFound(String),
    PermissionDenied(String),
}

/// The display text of each plugin error.
pub open spec fn plugin_error_message(e: PluginError) -> Seq<char> {
    match e {
        PluginError::InitFailed(m) => "plugin initialization failed: "@ + m@,
        PluginError::ExecutionFailed(m) => "plugin execution failed: "@ + m@,
        PluginError::NotFound(m) => "plugin not found: "@ + m@,
        PluginError::PermissionDenied(m) => "plugin permission denied: "@ + m@,
    }
}

fn prefixed(prefix: &str, detail: &String) -> (s: String)
    ensures
        s@ == prefix@ + detail@,
{
    let mut s = String::from_str(prefix);
    s.append(detail.as_str());
    s
}

impl PluginError {
    /// The error's display text.
    pub fn message(&self) -> (s: String)
        ensures
            s@ == plugin_error_message(*self),
    {
        match self {
            PluginError::InitFailed(m) => prefixed("plugin initialization failed: ", m),
            PluginError::ExecutionFailed(m) => prefixed("plugin execution failed: ", m),
            PluginError::NotFound(m) => prefixed("plugin not found: ", m),
            PluginError::PermissionDenied(m) => prefixed("plugin permission denied: ", m),
        }
    }
}

/// What a plugin says about itself.
#[derive(Debug, Clone)]
pub struct PluginMetadata {
    pub name: String,
    pub version: String,
    pub author: Option<String>,
    pub description: Option<String>,
}

/// A request as plugins see it (they may change it).
#[derive(Debug, Clone)]
pub struct RequestContext {
    pub method: String,
    pub path: String,
    pub headers: HashMap<String, String>,
    pub query_params: HashMap<String, String>,
    pub body: Option<Vec<u8>>,
    pub metadata: HashMap<String, String>,
}

/// A proxied request as plugins see it (they may change it).
#[derive(Debug, Clone)]
pub struct ProxyContext {
    pub upstream_url: String,
    pub headers: HashMap<String, String>,
    pub body: Option<Vec<u8>>,
    pub metadata: HashMap<String, String>,
}

/// A failed request as plugins see it (read-only).
#[derive(Debug, Clone)]
pub struct ErrorContext {
    pub error_code: String,
    pub error_message: String,
    pub request_context: RequestContext,
}

} // verus!
