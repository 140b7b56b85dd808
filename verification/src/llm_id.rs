//! Identifiers of language models.

use vstd::prelude::*;
use vstd::std_specs::convert::FromSpecImpl;
use vstd::std_specs::cmp::PartialEqSpecImpl;
use crate::text::{has_prefix, starts_with};

verus! {

/// The identifier of a language model, such as `"gpt-4o"` or a locally
/// discovered `"local-ollama-hex-6c6c616d6133"`.
#[derive(Clone, Debug, Hash)]
pub struct LLMId(String);

impl View for LLMId {
    type V = Seq<char>;

    closed spec fn view(&self) -> Seq<char> {
        self.0@
    }
}

/// The prefix shared by the identifiers of all locally discovered models.
pub open spec fn local_id_prefix() -> Seq<char> {
    "local-"@
}

impl LLMId {
    /// The identifier's text.
    pub fn as_str(&self) -> (r: &str)
        ensures
            r@ == self@,
    {
        self.0.as_str()
    }

    /// Returns `true` if this ID represents a locally-discovered model
    /// (an Ollama, LM Studio or custom-endpoint model with the `local-` prefix).
    /// Local models are discovered at runtime and may not be present in the
    /// server-provided model list, so their IDs should not be cleared during
    /// validation against the current model choices.
    pub fn is_local(&self) -> (r: bool)
        ensures
            r == has_prefix(self@, local_id_prefix()),
    {
        starts_with(self.0.as_str(), "local-")
    }

    /// The identifier as an owned string (its `Display` form).
    pub fn to_string(&self) -> (r: String)
        ensures
            r@ == self@,
    {
        self.0.clone()
    }
}

impl From<String> for LLMId {
    fn from(value: String) -> (r: Self)
        ensures
            r@ == value@,
    {
        LLMId(value)
    }
}

impl FromSpecImpl<String> for LLMId {
    open spec fn obeys_from_spec() -> bool {
        true
    }

    closed spec fn from_spec(v: String) -> Self {
        LLMId(v)
    }
}

impl From<&str> for LLMId {
    fn from(value: &str) -> (r: Self)
        ensures
            r@ == value@,
    {
        LLMId(String::from_str(value))
    }
}

impl FromSpecImpl<&str> for LLMId {
    open spec fn obeys_from_spec() -> bool {
        false
    }

    open spec fn from_spec(v: &str) -> Self {
        arbitrary()
    }
}

impl From<LLMId> for String {
    fn from(value: LLMId) -> (r: Self)
        ensures
            r@ == value@,
    {
        value.0
    }
}

impl FromSpecImpl<LLMId> for String {
    open spec fn obeys_from_spec() -> bool {
        true
    }

    closed spec fn from_spec(v: LLMId) -> Self {
        v.0
    }
}

impl PartialEq for LLMId {
    fn eq(&self, other: &Self) -> (r: bool) {
        self.0 == other.0
    }
}

impl PartialEqSpecImpl for LLMId {
    open spec fn obeys_eq_spec() -> bool {
        true
    }

    open spec fn eq_spec(&self, other: &Self) -> bool {
        self@ == other@
    }
}

impl Eq for LLMId {
}

} // verus!
