//! The configuration of a client for a local inference server, the requests it
//! sends, and the reading of the model lists servers return.

use vstd::prelude::*;
use crate::messages::ToolDefinition;
use crate::provider::{LocalLLMProvider, spec_models_endpoint, spec_health_endpoint};
use crate::messages::{ov, build_agent_tools, is_agent_tools};
use crate::settings::{resolve_base_url, spec_effective_base_url};

verus! {

/// How long a chat completion may take, in seconds.
pub const CHAT_TIMEOUT_SECS: u64 = 300;

/// How long listing the models may take, in seconds.
pub const LIST_MODELS_TIMEOUT_SECS: u64 = 10;

/// How long a health check may take, in seconds.
pub const HEALTH_CHECK_TIMEOUT_SECS: u64 = 5;

/// The most tokens a chat completion may produce.
pub const MAX_TOKENS: u32 = 4096;

/// A client for a local inference server: which provider it talks to, where,
/// and how long a chat completion may take.
#[derive(Clone, Debug)]
pub struct LocalLLMClient {
    provider: LocalLLMProvider,
    base_url: String,
    timeout_secs: u64,
}

/// A client's configuration as plain values.
pub struct LocalLLMClientView {
    pub provider: LocalLLMProvider,
    pub base_url: Seq<char>,
    pub timeout_secs: u64,
}

impl View for LocalLLMClient {
    type V = LocalLLMClientView;

    closed spec fn view(&self) -> LocalLLMClientView {
        LocalLLMClientView {
            provider: self.provider,
            base_url: self.base_url@,
            timeout_secs: self.timeout_secs,
        }
    }
}

/// A chat completion request, apart from its messages and sampling temperature.
#[derive(Clone, Debug)]
pub struct ChatRequest {
    /// Where the request is posted.
    pub url: String,
    pub model: String,
    /// Whether the answer is streamed as server-sent events.
    pub stream: bool,
    pub max_tokens: u32,
    /// The tools offered; when present the model chooses among them (`"auto"`).
    pub tools: Option<Vec<ToolDefinition>>,
    pub timeout_secs: u64,
}

/// The URL chat completions are posted to.
pub open spec fn spec_chat_url(base_url: Seq<char>) -> Seq<char> {
    base_url + "/chat/completions"@
}

impl LocalLLMClient {
    /// Create a new client for the given provider and base URL
    pub fn new(provider: LocalLLMProvider, base_url: String) -> (r: Self)
        ensures
            r@ == (LocalLLMClientView { provider, base_url: base_url@, timeout_secs: CHAT_TIMEOUT_SECS }),
    {
        LocalLLMClient { provider, base_url, timeout_secs: CHAT_TIMEOUT_SECS }
    }

    /// The provider the client talks to.
    pub fn provider(&self) -> (r: LocalLLMProvider)
        ensures
            r == self@.provider,
    {
        self.provider
    }

    /// The base URL the client talks to.
    pub fn base_url(&self) -> (r: &str)
        ensures
            r@ == self@.base_url,
    {
        self.base_url.as_str()
    }

    /// How long a chat completion may take, in seconds.
    pub fn timeout_secs(&self) -> (r: u64)
        ensures
            r == self@.timeout_secs,
    {
        self.timeout_secs
    }

    /// The URL chat completions are posted to.
    pub fn chat_completions_url(&self) -> (r: String)
        ensures
            r@ == spec_chat_url(self@.base_url),
    {
        self.base_url.clone().concat("/chat/completions")
    }

    /// The URL the model list is fetched from.
    pub fn models_url(&self) -> (r: String)
        ensures
            r@ == spec_models_endpoint(self@.provider, self@.base_url),
    {
        self.provider.models_endpoint(self.base_url.as_str())
    }

    /// The URL a health check fetches.
    pub fn health_url(&self) -> (r: String)
        ensures
            r@ == spec_health_endpoint(self@.provider, self@.base_url),
    {
        self.provider.health_endpoint(self.base_url.as_str())
    }

    /// Whether the model list comes in Ollama's own format (`/api/tags`)
    /// rather than the OpenAI one.
    pub fn lists_models_natively(&self) -> (r: bool)
        ensures
            r == (self@.provider == LocalLLMProvider::Ollama),
    {
        match self.provider {
            LocalLLMProvider::Ollama => true,
            _ => false,
        }
    }

    /// The streaming chat request for `model`; tools are not sent when streaming.
    pub fn streaming_request(&self, model: &str) -> (r: ChatRequest)
        ensures
            r.url@ == spec_chat_url(self@.base_url),
            r.model@ == model@,
            r.stream,
            r.max_tokens == MAX_TOKENS,
            r.tools is None,
            r.timeout_secs == self@.timeout_secs,
    {
        ChatRequest {
            url: self.chat_completions_url(),
            model: String::from_str(model),
            stream: true,
            max_tokens: MAX_TOKENS,
            tools: None,
            timeout_secs: self.timeout_secs,
        }
    }

    /// The non-streaming chat request for `model` used by the agent loop; the
    /// tools go with it when there are any.
    pub fn tool_request(&self, model: &str, tools: Option<Vec<ToolDefinition>>) -> (r: ChatRequest)
        ensures
            r.url@ == spec_chat_url(self@.base_url),
            r.model@ == model@,
            !r.stream,
            r.max_tokens == MAX_TOKENS,
            r.tools == (match tools {
                Some(t) => if t@.len() > 0 {
                    Some(t)
                } else {
                    None
                },
                None => None,
            }),
            r.timeout_secs == self@.timeout_secs,
    {
        let tools = match tools {
            Some(t) => if t.len() > 0 {
                Some(t)
            } else {
                None
            },
            None => None,
        };
        ChatRequest {
            url: self.chat_completions_url(),
            model: String::from_str(model),
            stream: false,
            max_tokens: MAX_TOKENS,
            tools,
            timeout_secs: self.timeout_secs,
        }
    }
}

/// A model as Ollama's `/api/tags` lists it; a missing size reads as 0 and a
/// missing date as empty.
#[derive(Clone, Debug)]
pub struct OllamaModelInfo {
    pub name: String,
    pub size: u64,
    pub modified_at: String,
}

/// A model as an OpenAI `/models` listing gives it.
#[derive(Clone, Debug)]
pub struct ModelData {
    pub id: String,
}

/// A local model as plain values.
pub struct LocalModelView {
    pub name: Seq<char>,
    pub size_bytes: Option<u64>,
    pub modified_at: Option<Seq<char>>,
}

/// The plain view of a listed model.
pub open spec fn local_model_view(m: crate::messages::LocalModel) -> LocalModelView {
    LocalModelView { name: m.name@, size_bytes: m.size_bytes, modified_at: ov(m.modified_at) }
}

/// The model an Ollama listing entry describes: a size of 0 and an empty date
/// mean unknown.
pub open spec fn spec_from_ollama(m: OllamaModelInfo) -> LocalModelView {
    LocalModelView {
        name: m.name@,
        size_bytes: if m.size > 0 {
            Some(m.size)
        } else {
            None
        },
        modified_at: if m.modified_at@.len() == 0 {
            None
        } else {
            Some(m.modified_at@)
        },
    }
}

/// The model an OpenAI listing entry describes: only its name is known.
pub open spec fn spec_from_openai(m: ModelData) -> LocalModelView {
    LocalModelView { name: m.id@, size_bytes: None, modified_at: None }
}

/// The models of an Ollama `/api/tags` listing, in order.
pub fn models_from_ollama(models: Vec<OllamaModelInfo>) -> (r: Vec<crate::messages::LocalModel>)
    ensures
        r@.len() == models@.len(),
        forall|i: int| 0 <= i < r@.len() ==> local_model_view(#[trigger] r@[i]) == spec_from_ollama(models@[i]),
{
    let mut out: Vec<crate::messages::LocalModel> = Vec::new();
    let mut i: usize = 0;
    while i < models.len()
        invariant
            i <= models@.len(),
            out@.len() == i,
            forall|j: int| 0 <= j < i ==> local_model_view(#[trigger] out@[j]) == spec_from_ollama(models@[j]),
        decreases models@.len() - i,
    {
        let m = &models[i];
        let size_bytes = if m.size > 0 {
            Some(m.size)
        } else {
            None
        };
        let modified_at = if m.modified_at.as_str().unicode_len() == 0 {
            None
        } else {
            Some(m.modified_at.clone())
        };
        out.push(crate::messages::LocalModel { name: m.name.clone(), size_bytes, modified_at });
        i = i + 1;
    }
    out
}

/// The models of an OpenAI `/models` listing, in order.
pub fn models_from_openai(data: Vec<ModelData>) -> (r: Vec<crate::messages::LocalModel>)
    ensures
        r@.len() == data@.len(),
        forall|i: int| 0 <= i < r@.len() ==> local_model_view(#[trigger] r@[i]) == spec_from_openai(data@[i]),
{
    let mut out: Vec<crate::messages::LocalModel> = Vec::new();
    let mut i: usize = 0;
    while i < data.len()
        invariant
            i <= data@.len(),
            out@.len() == i,
            forall|j: int| 0 <= j < i ==> local_model_view(#[trigger] out@[j]) == spec_from_openai(data@[j]),
        decreases data@.len() - i,
    {
        out.push(crate::messages::LocalModel { name: data[i].id.clone(), size_bytes: None, modified_at: None });
        i = i + 1;
    }
    out
}

/// The providers probed, in order, when looking for running local servers.
pub fn providers_to_discover() -> (r: Vec<LocalLLMProvider>)
    ensures
        r@ == seq![LocalLLMProvider::Ollama, LocalLLMProvider::LMStudio],
{
    let r = vec![LocalLLMProvider::Ollama, LocalLLMProvider::LMStudio];
    assert(r@ =~= seq![LocalLLMProvider::Ollama, LocalLLMProvider::LMStudio]);
    r
}

/// The providers that answered a probe, with their latency, in probing order.
pub open spec fn spec_available(probes: Seq<(LocalLLMProvider, Option<u64>)>) -> Seq<(LocalLLMProvider, u64)>
    decreases probes.len(),
{
    if probes.len() == 0 {
        Seq::empty()
    } else {
        let rest = spec_available(probes.drop_last());
        match probes.last().1 {
            Some(ms) => rest.push((probes.last().0, ms)),
            None => rest,
        }
    }
}

/// Keeps the providers whose probe succeeded, with the latency measured, in order.
pub fn available_providers(probes: Vec<(LocalLLMProvider, Option<u64>)>) -> (r: Vec<(LocalLLMProvider, u64)>)
    ensures
        r@ == spec_available(probes@),
{
    let mut out: Vec<(LocalLLMProvider, u64)> = Vec::new();
    let mut i: usize = 0;
    while i < probes.len()
        invariant
            i <= probes@.len(),
            out@ == spec_available(probes@.subrange(0, i as int)),
        decreases probes@.len() - i,
    {
        let ghost next = probes@.subrange(0, i + 1);
        assert(next.drop_last() =~= probes@.subrange(0, i as int));
        let (p, probe) = probes[i];
        match probe {
            Some(ms) => {
                out.push((p, ms));
            },
            None => {},
        }
        i = i + 1;
    }
    assert(probes@.subrange(0, probes@.len() as int) =~= probes@);
    out
}

/// The error reported when the server answers a chat request with a failure
/// status: the endpoint, the model, the status and the body of the answer.
pub open spec fn spec_status_error(endpoint: Seq<char>, model: Seq<char>, status: Seq<char>, body: Seq<char>) -> Seq<char> {
    "LLM error from "@ + endpoint + " (model: "@ + model + "): "@ + status + " - "@ + body
}

/// The error reported when the answer to a chat request is not a chat
/// completion: the endpoint, the model, the parser's message and the body.
pub open spec fn spec_parse_error(endpoint: Seq<char>, model: Seq<char>, reason: Seq<char>, body: Seq<char>) -> Seq<char> {
    "Failed to parse LLM response from "@ + endpoint + " (model: "@ + model + "): "@ + reason
        + "\nResponse body: "@ + body
}

/// The error reported when a chat request cannot be sent: the endpoint and
/// the transport's message.
pub open spec fn spec_send_error(endpoint: Seq<char>, reason: Seq<char>) -> Seq<char> {
    "Failed to send request to "@ + endpoint + ": "@ + reason
}

/// The message for a failure status from `endpoint` serving `model`.
pub fn status_error_message(endpoint: &str, model: &str, status: &str, body: &str) -> (r: String)
    ensures
        r@ == spec_status_error(endpoint@, model@, status@, body@),
{
    String::from_str("LLM error from ").concat(endpoint).concat(" (model: ").concat(model).concat(
        "): ",
    ).concat(status).concat(" - ").concat(body)
}

/// The message for an answer from `endpoint` serving `model` that does not
/// parse as a chat completion.
pub fn parse_error_message(endpoint: &str, model: &str, reason: &str, body: &str) -> (r: String)
    ensures
        r@ == spec_parse_error(endpoint@, model@, reason@, body@),
{
    String::from_str("Failed to parse LLM response from ").concat(endpoint).concat(" (model: ").concat(
        model,
    ).concat("): ").concat(reason).concat("\nResponse body: ").concat(body)
}

/// The message for a chat request to `endpoint` that could not be sent.
pub fn send_error_message(endpoint: &str, reason: &str) -> (r: String)
    ensures
        r@ == spec_send_error(endpoint@, reason@),
{
    String::from_str("Failed to send request to ").concat(endpoint).concat(": ").concat(reason)
}

/// The request each turn of an agent conversation sends: posted to the chat
/// endpoint below the base URL in effect (the override when there is one,
/// else the provider's default), for `model`, not streamed, with the agent's
/// tools.
pub fn agent_chat_request(provider: LocalLLMProvider, base_url: Option<&str>, model: &str) -> (r: ChatRequest)
    ensures
        r.url@ == spec_chat_url(
            spec_effective_base_url(
                provider,
                match base_url {
                    Some(u) => Some(u@),
                    None => None,
                },
            ),
        ),
        r.model@ == model@,
        !r.stream,
        r.max_tokens == MAX_TOKENS,
        r.tools matches Some(t) && is_agent_tools(t@),
        r.timeout_secs == CHAT_TIMEOUT_SECS,
{
    let client = LocalLLMClient::new(provider, resolve_base_url(provider, base_url));
    client.tool_request(model, Some(build_agent_tools()))
}

/// A model listed by Ollama keeps what the listing says of it: its name, its
/// size whenever the listing gives one (any non-zero size, however large), and
/// its modification date whenever that is not empty; a zero size or an empty
/// date is reported as unknown.
pub proof fn lemma_ollama_listing_kept(m: OllamaModelInfo)
    ensures
        spec_from_ollama(m).name == m.name@,
        m.size > 0 ==> spec_from_ollama(m).size_bytes == Some(m.size),
        m.size == 0 ==> spec_from_ollama(m).size_bytes is None,
        m.modified_at@.len() > 0 ==> spec_from_ollama(m).modified_at == Some(m.modified_at@),
        m.modified_at@.len() == 0 ==> spec_from_ollama(m).modified_at is None,
{
}

/// The latency a probe measured, paired with its provider, when it succeeded.
pub open spec fn probe_success(p: (LocalLLMProvider, Option<u64>)) -> Option<(LocalLLMProvider, u64)> {
    match p.1 {
        Some(ms) => Some((p.0, ms)),
        None => None,
    }
}

proof fn lemma_available_contains(probes: Seq<(LocalLLMProvider, Option<u64>)>, i: int, ms: u64)
    requires
        0 <= i < probes.len(),
        probes[i].1 == Some(ms),
    ensures
        spec_available(probes).contains((probes[i].0, ms)),
    decreases probes.len(),
{
    let rest = probes.drop_last();
    if i == probes.len() - 1 {
        let r = spec_available(rest).push((probes[i].0, ms));
        assert(r[r.len() - 1] == (probes[i].0, ms));
    } else {
        assert(rest[i] == probes[i]);
        lemma_available_contains(rest, i, ms);
        let k = choose|k: int| 0 <= k < spec_available(rest).len() && spec_available(rest)[k] == (probes[i].0, ms);
        match probes.last().1 {
            Some(m2) => {
                assert(spec_available(probes)[k] == spec_available(rest).push((probes.last().0, m2))[k]);
            },
            None => {},
        }
    }
}

/// The providers reported as available are exactly those whose probe
/// succeeded, in probing order, each with the latency its probe measured:
/// every successful probe is reported, there are as many entries as successful
/// probes, and nothing else is reported.
pub proof fn lemma_available_providers(probes: Seq<(LocalLLMProvider, Option<u64>)>)
    ensures
        spec_available(probes) == probes.filter_map(|p: (LocalLLMProvider, Option<u64>)| probe_success(p)),
        spec_available(probes).len() == probes.filter(|p: (LocalLLMProvider, Option<u64>)| p.1 is Some).len(),
        forall|i: int, ms: u64|
            0 <= i < probes.len() && probes[i].1 == Some(ms) ==> #[trigger] spec_available(probes).contains(
                (probes[i].0, ms),
            ),
    decreases probes.len(),
{
    reveal(Seq::filter);
    if probes.len() > 0 {
        lemma_available_providers(probes.drop_last());
        assert(seq![(probes.last().0, probes.last().1->0)] + Seq::<(LocalLLMProvider, u64)>::empty()
            =~= seq![(probes.last().0, probes.last().1->0)]);
        match probes.last().1 {
            Some(ms) => {
                assert(spec_available(probes.drop_last()).push((probes.last().0, ms)) =~= spec_available(
                    probes.drop_last(),
                ) + seq![(probes.last().0, ms)]);
            },
            None => {},
        }
    }
    assert forall|i: int, ms: u64| 0 <= i < probes.len() && probes[i].1 == Some(ms) implies #[trigger] spec_available(
        probes,
    ).contains((probes[i].0, ms)) by {
        lemma_available_contains(probes, i, ms);
    }
}

} // verus!
