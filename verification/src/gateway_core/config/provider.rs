//! Provider kinds and provider configuration.

use vstd::prelude::*;

verus! {

/// The kinds of LLM provider.
#[derive(Debug, Clone, Copy, PartialEq, Eq, Hash, Structural)]
pub enum ProviderKind {
    OpenAI,
    Anthropic,
    Gemini,
    Local,
}

/// The display name of each kind.
pub open spec fn provider_kind_name(k: ProviderKind) -> Seq<char> {
    match k {
        ProviderKind::OpenAI => "openai"@,
        ProviderKind::Anthropic => "anthropic"@,
        ProviderKind::Gemini => "gemini"@,
        ProviderKind::Local => "local"@,
    }
}

impl ProviderKind {
    /// The kind's display name: `openai`, `anthropic`, `gemini` or `local`.
    pub fn as_str(&self) -> (s: &'static str)
        ensures
            s@ == provider_kind_name(*self),
    {
        match self {
            ProviderKind::OpenAI => "openai",
            ProviderKind::Anthropic => "anthropic",
            ProviderKind::Gemini => "gemini",
            ProviderKind::Local => "local",
        }
    }
}

impl Default for ProviderKind {
    /// OpenAI.
    fn default() -> (k: Self)
        ensures
            k == ProviderKind::OpenAI,
    {
        ProviderKind::OpenAI
    }
}

/// A provider's configuration, implemented by each provider's settings type.
pub trait ProviderConfig {
    /// The provider kind.
    fn kind(&self) -> ProviderKind;

    /// The API base URL.
    fn base_url(&self) -> &str;

    /// The API key.
    fn api_key(&self) -> &str;

    /// The model name.
    fn model(&self) -> &str;
}

} // verus!
