//! The local LLM providers and the endpoints each one serves.

use vstd::prelude::*;
use crate::text::{trim_end_all, trim_end_matches};

verus! {

/// A local inference server.
#[derive(Clone, Copy, Debug, PartialEq, Eq, Structural)]
pub enum LocalLLMProvider {
    /// Ollama (default: http://localhost:11434)
    Ollama,
    /// LM Studio (default: http://localhost:1234)
    LMStudio,
    /// Custom OpenAI-compatible endpoint
    Custom,
}

/// The OpenAI-compatible base URL each provider listens on by default.
pub open spec fn spec_default_base_url(p: LocalLLMProvider) -> Seq<char> {
    match p {
        LocalLLMProvider::Ollama => "http://localhost:11434/v1"@,
        LocalLLMProvider::LMStudio => "http://localhost:1234/v1"@,
        LocalLLMProvider::Custom => "http://localhost:8080/v1"@,
    }
}

/// The name shown to users for each provider.
pub open spec fn spec_display_name(p: LocalLLMProvider) -> Seq<char> {
    match p {
        LocalLLMProvider::Ollama => "Ollama"@,
        LocalLLMProvider::LMStudio => "LM Studio"@,
        LocalLLMProvider::Custom => "Custom (OpenAI-compatible)"@,
    }
}

/// The path segment that marks an OpenAI-compatible API root.
pub open spec fn v1_suffix() -> Seq<char> {
    seq!['/', 'v', '1']
}

/// The URL that lists a provider's models, given the base URL in use: Ollama's
/// native `/api/tags` below the server root, the OpenAI `/models` otherwise.
pub open spec fn spec_models_endpoint(p: LocalLLMProvider, base_url: Seq<char>) -> Seq<char> {
    match p {
        LocalLLMProvider::Ollama => trim_end_all(base_url, v1_suffix()) + "/api/tags"@,
        _ => base_url + "/models"@,
    }
}

/// The URL probed to see whether a provider is up: Ollama's root page, the
/// OpenAI `/models` listing otherwise.
pub open spec fn spec_health_endpoint(p: LocalLLMProvider, base_url: Seq<char>) -> Seq<char> {
    match p {
        LocalLLMProvider::Ollama => trim_end_all(base_url, v1_suffix()) + "/"@,
        _ => base_url + "/models"@,
    }
}

impl Default for LocalLLMProvider {
    fn default() -> (r: Self)
        ensures
            r == LocalLLMProvider::Ollama,
    {
        LocalLLMProvider::Ollama
    }
}

fn v1_literal() -> (r: &'static str)
    ensures
        r@ == v1_suffix(),
{
    let r = "/v1";
    proof {
        reveal_strlit("/v1");
    }
    assert(r@ =~= v1_suffix());
    r
}

impl LocalLLMProvider {
    /// The base URL the provider serves by default.
    pub fn default_base_url(&self) -> (r: &'static str)
        ensures
            r@ == spec_default_base_url(*self),
    {
        match self {
            LocalLLMProvider::Ollama => "http://localhost:11434/v1",
            LocalLLMProvider::LMStudio => "http://localhost:1234/v1",
            LocalLLMProvider::Custom => "http://localhost:8080/v1",
        }
    }

    /// The provider's name as shown to users.
    pub fn display_name(&self) -> (r: &'static str)
        ensures
            r@ == spec_display_name(*self),
    {
        match self {
            LocalLLMProvider::Ollama => "Ollama",
            LocalLLMProvider::LMStudio => "LM Studio",
            LocalLLMProvider::Custom => "Custom (OpenAI-compatible)",
        }
    }

    /// The URL that lists the provider's models.
    pub fn models_endpoint(&self, base_url: &str) -> (r: String)
        ensures
            r@ == spec_models_endpoint(*self, base_url@),
    {
        match self {
            LocalLLMProvider::Ollama => trim_end_matches(base_url, v1_literal()).concat("/api/tags"),
            _ => String::from_str(base_url).concat("/models"),
        }
    }

    /// The URL probed by a health check.
    pub fn health_endpoint(&self, base_url: &str) -> (r: String)
        ensures
            r@ == spec_health_endpoint(*self, base_url@),
    {
        match self {
            LocalLLMProvider::Ollama => trim_end_matches(base_url, v1_literal()).concat("/"),
            _ => String::from_str(base_url).concat("/models"),
        }
    }
}

} // verus!
