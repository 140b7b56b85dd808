//! The user's local LLM configuration.

use vstd::prelude::*;
use crate::provider::{LocalLLMProvider, spec_default_base_url};
use crate::text::opt_view;

verus! {

/// Settings for local LLM inference
#[derive(Clone, Debug)]
pub struct LocalLLMSettings {
    /// Whether local LLM inference is enabled
    pub enabled: bool,
    /// Provider (Ollama, LM Studio, or Custom)
    pub provider: LocalLLMProvider,
    /// Optional base URL override (uses provider default if None)
    pub base_url: Option<String>,
    /// Selected model name (e.g., "mistral:7b")
    pub selected_model: Option<String>,
}

/// Events that can occur on LocalLLMSettings
#[derive(Clone, Copy, Debug, PartialEq, Eq, Structural)]
pub enum LocalLLMSettingsEvent {
    /// Settings were updated
    SettingsUpdated,
}

/// The base URL in effect: the override when there is one, else the provider's default.
pub open spec fn spec_effective_base_url(provider: LocalLLMProvider, base_url: Option<Seq<char>>) -> Seq<char> {
    match base_url {
        Some(u) => u,
        None => spec_default_base_url(provider),
    }
}

/// The base URL in effect for a provider given an optional override.
pub fn resolve_base_url(provider: LocalLLMProvider, base_url: Option<&str>) -> (r: String)
    ensures
        r@ == spec_effective_base_url(
            provider,
            match base_url {
                Some(u) => Some(u@),
                None => None,
            },
        ),
{
    match base_url {
        Some(u) => String::from_str(u),
        None => String::from_str(provider.default_base_url()),
    }
}

/// The model selected on a new install.
pub open spec fn spec_default_model() -> Seq<char> {
    "gemma3:4b"@
}

/// Whether local inference is on: enabled, with a model selected.
pub open spec fn spec_is_enabled(s: LocalLLMSettings) -> bool {
    s.enabled && s.selected_model is Some
}

impl LocalLLMSettings {
    /// Create a new default instance: disabled, Ollama, no base URL override,
    /// and `gemma3:4b` as the selected model.
    pub fn new() -> (r: Self)
        ensures
            !r.enabled,
            r.provider == LocalLLMProvider::Ollama,
            r.base_url is None,
            opt_view(r.selected_model) == Some(spec_default_model()),
    {
        let model = "gemma3:4b";
        proof {
            reveal_strlit("gemma3:4b");
        }
        LocalLLMSettings {
            enabled: false,
            provider: LocalLLMProvider::Ollama,
            base_url: None,
            selected_model: Some(String::from_str(model)),
        }
    }

    /// Check if local LLM is properly configured and enabled
    pub fn is_enabled(&self) -> (r: bool)
        ensures
            r == spec_is_enabled(*self),
    {
        self.enabled && self.selected_model.is_some()
    }

    /// Get the base URL, using provider default if not overridden
    pub fn base_url(&self) -> (r: String)
        ensures
            r@ == spec_effective_base_url(self.provider, opt_view(self.base_url)),
    {
        match &self.base_url {
            Some(u) => u.clone(),
            None => String::from_str(self.provider.default_base_url()),
        }
    }

    /// Set the enabled flag
    pub fn set_enabled(&mut self, enabled: bool)
        ensures
            *final(self) == (LocalLLMSettings { enabled, ..*old(self) }),
    {
        self.enabled = enabled;
    }

    /// Set the provider
    pub fn set_provider(&mut self, provider: LocalLLMProvider)
        ensures
            *final(self) == (LocalLLMSettings { provider, ..*old(self) }),
    {
        self.provider = provider;
    }

    /// Set the base URL override
    pub fn set_base_url(&mut self, base_url: Option<String>)
        ensures
            *final(self) == (LocalLLMSettings { base_url, ..*old(self) }),
    {
        self.base_url = base_url;
    }

    /// Set the selected model
    pub fn set_selected_model(&mut self, model: Option<String>)
        ensures
            *final(self) == (LocalLLMSettings { selected_model: model, ..*old(self) }),
    {
        self.selected_model = model;
    }
}

impl Default for LocalLLMSettings {
    fn default() -> (r: Self)
        ensures
            !r.enabled,
            r.provider == LocalLLMProvider::Ollama,
            r.base_url is None,
            opt_view(r.selected_model) == Some(spec_default_model()),
    {
        Self::new()
    }
}

/// Enabling local inference and selecting a model turns it on, whatever the
/// other settings; disabling it, or clearing the model, turns it off.
pub proof fn lemma_enabled_read_back(s: LocalLLMSettings, model: String)
    ensures
        spec_is_enabled(LocalLLMSettings { enabled: true, selected_model: Some(model), ..s }),
        !spec_is_enabled(LocalLLMSettings { enabled: false, ..s }),
        !spec_is_enabled(LocalLLMSettings { selected_model: None, ..s }),
{
}

/// The base URL read after setting an override is the override; after
/// clearing it, it is the default of whatever provider is set.
pub proof fn lemma_base_url_read_back(s: LocalLLMSettings, url: Option<String>, provider: LocalLLMProvider)
    ensures
        match url {
            Some(u) => spec_effective_base_url(s.provider, opt_view(Some(u))) == u@,
            None => spec_effective_base_url(provider, opt_view(url)) == spec_default_base_url(provider),
        },
{
}

} // verus!
