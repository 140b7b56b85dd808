//! Chat messages exchanged with OpenAI-compatible servers, and the messages an
//! agent conversation starts from.

use vstd::prelude::*;
use crate::text::{is_blank, trim_is_empty};

verus! {

/// A message of the streaming chat API.
#[derive(Clone, Debug)]
pub struct ChatMessage {
    pub role: String,
    pub content: String,
}

/// The function a tool call names, with its JSON-encoded arguments.
#[derive(Clone, Debug)]
pub struct ToolCallFunction {
    pub name: String,
    pub arguments: String,
}

/// A tool call requested by the model.
#[derive(Clone, Debug)]
pub struct ToolCallInfo {
    pub id: String,
    /// The call's kind (the `type` field on the wire).
    pub tool_type: String,
    pub function: ToolCallFunction,
}

/// Flexible message type for the agentic loop (all roles + tool calls/results)
#[derive(Clone, Debug)]
pub struct AgentMessage {
    pub role: String,
    pub content: Option<String>,
    pub tool_calls: Option<Vec<ToolCallInfo>>,
    pub tool_call_id: Option<String>,
    pub name: Option<String>,
}

/// A complete (non-streaming) chat completion.
#[derive(Debug)]
pub struct NonStreamingResponse {
    pub choices: Vec<NonStreamingChoice>,
}

/// One choice of a complete chat completion.
#[derive(Debug)]
pub struct NonStreamingChoice {
    pub message: NonStreamingMessage,
    pub finish_reason: Option<String>,
}

/// The message of a complete chat completion.
#[derive(Debug)]
pub struct NonStreamingMessage {
    pub role: String,
    pub content: Option<String>,
    pub tool_calls: Option<Vec<ToolCallInfo>>,
}

/// One server-sent event of a streaming chat completion.
#[derive(Clone, Debug)]
pub struct OpenAIChunk {
    pub choices: Vec<ChoiceDelta>,
}

/// One choice of a streamed chat completion event.
#[derive(Clone, Debug)]
pub struct ChoiceDelta {
    pub delta: Delta,
    pub finish_reason: Option<String>,
}

/// The new text a streamed event carries.
#[derive(Clone, Debug)]
pub struct Delta {
    pub content: Option<String>,
}

/// What the stream yields for each piece of the response.
#[derive(Clone, Debug)]
pub struct ChatChunk {
    pub content: Option<String>,
    pub finish_reason: Option<String>,
}

/// A model a provider serves.
#[derive(Clone, Debug)]
pub struct LocalModel {
    pub name: String,
    pub size_bytes: Option<u64>,
    pub modified_at: Option<String>,
}

/// The input of an agent request, as far as local models read it.
#[derive(Clone, Debug)]
pub enum AIAgentInput {
    UserQuery { query: String },
    AutoCodeDiffQuery { query: String },
    CreateNewProject { query: String },
    SummarizeConversation { prompt: Option<String> },
    /// Inputs that carry no text for a local model.
    Other,
}

/// A tool offered to the model, with its single string parameter.
#[derive(Clone, Debug)]
pub struct ToolDefinition {
    pub name: String,
    pub description: String,
    pub parameter: String,
    pub parameter_description: String,
}

/// A tool call as plain text: id, kind, function name and arguments.
pub struct ToolCallView {
    pub id: Seq<char>,
    pub tool_type: Seq<char>,
    pub name: Seq<char>,
    pub arguments: Seq<char>,
}

impl View for ToolCallInfo {
    type V = ToolCallView;

    open spec fn view(&self) -> ToolCallView {
        ToolCallView {
            id: self.id@,
            tool_type: self.tool_type@,
            name: self.function.name@,
            arguments: self.function.arguments@,
        }
    }
}

/// The plain-text view of a list of tool calls.
pub open spec fn tool_calls_view(v: Seq<ToolCallInfo>) -> Seq<ToolCallView> {
    v.map_values(|t: ToolCallInfo| t@)
}

/// An agent message as plain text.
pub struct AgentMessageView {
    pub role: Seq<char>,
    pub content: Option<Seq<char>>,
    pub tool_calls: Option<Seq<ToolCallView>>,
    pub tool_call_id: Option<Seq<char>>,
    pub name: Option<Seq<char>>,
}

/// The view of an optional string.
pub open spec fn ov(o: Option<String>) -> Option<Seq<char>> {
    match o {
        Some(s) => Some(s@),
        None => None,
    }
}

impl View for AgentMessage {
    type V = AgentMessageView;

    open spec fn view(&self) -> AgentMessageView {
        AgentMessageView {
            role: self.role@,
            content: ov(self.content),
            tool_calls: match self.tool_calls {
                Some(v) => Some(tool_calls_view(v@)),
                None => None,
            },
            tool_call_id: ov(self.tool_call_id),
            name: ov(self.name),
        }
    }
}

/// The plain-text view of a list of agent messages.
pub open spec fn agent_messages_view(v: Seq<AgentMessage>) -> Seq<AgentMessageView> {
    v.map_values(|m: AgentMessage| m@)
}

/// The plain-text view of a list of chat messages, as (role, content) pairs.
pub open spec fn chat_messages_view(v: Seq<ChatMessage>) -> Seq<(Seq<char>, Seq<char>)> {
    v.map_values(|m: ChatMessage| (m.role@, m.content@))
}

/// The text a local model reads from an input: the query of a query, or the
/// prompt of a summary request, unless it is blank.
pub open spec fn input_user_text(i: AIAgentInput) -> Option<Seq<char>> {
    match i {
        AIAgentInput::UserQuery { query } => if is_blank(query@) { None } else { Some(query@) },
        AIAgentInput::AutoCodeDiffQuery { query } => if is_blank(query@) {
            None
        } else {
            Some(query@)
        },
        AIAgentInput::CreateNewProject { query } => if is_blank(query@) {
            None
        } else {
            Some(query@)
        },
        AIAgentInput::SummarizeConversation { prompt: Some(p) } => if is_blank(p@) {
            None
        } else {
            Some(p@)
        },
        _ => None,
    }
}

/// The texts of the inputs that carry one, in order.
pub open spec fn user_texts(inputs: Seq<AIAgentInput>) -> Seq<Seq<char>>
    decreases inputs.len(),
{
    if inputs.len() == 0 {
        Seq::empty()
    } else {
        let rest = user_texts(inputs.drop_last());
        match input_user_text(inputs.last()) {
            Some(t) => rest.push(t),
            None => rest,
        }
    }
}

fn user_text(input: &AIAgentInput) -> (r: Option<String>)
    ensures
        ov(r) == input_user_text(*input),
{
    match input {
        AIAgentInput::UserQuery { query } | AIAgentInput::AutoCodeDiffQuery { query }
        | AIAgentInput::CreateNewProject { query } => {
            if trim_is_empty(query.as_str()) {
                None
            } else {
                Some(query.clone())
            }
        },
        AIAgentInput::SummarizeConversation { prompt: Some(prompt) } => {
            if trim_is_empty(prompt.as_str()) {
                None
            } else {
                Some(prompt.clone())
            }
        },
        _ => None,
    }
}

/// The user's messages of an agent request as (role, content) pairs: one
/// `user` message per input that carries non-blank text, in order.
pub open spec fn chat_user_messages(inputs: Seq<AIAgentInput>) -> Seq<(Seq<char>, Seq<char>)> {
    user_texts(inputs).map_values(|t: Seq<char>| ("user"@, t))
}

/// The user's messages of an agent request, for the streaming chat API: one
/// `user` message per input that carries non-blank text, in order.
pub fn extract_local_chat_messages(inputs: &[AIAgentInput]) -> (r: Vec<ChatMessage>)
    ensures
        chat_messages_view(r@) == chat_user_messages(inputs@),
{
    let mut messages: Vec<ChatMessage> = Vec::new();
    let mut i: usize = 0;
    while i < inputs.len()
        invariant
            i <= inputs@.len(),
            chat_messages_view(messages@) == user_texts(inputs@.subrange(0, i as int)).map_values(
                |t: Seq<char>| ("user"@, t),
            ),
        decreases inputs@.len() - i,
    {
        let ghost prefix = inputs@.subrange(0, i as int);
        let ghost next = inputs@.subrange(0, i + 1);
        assert(next.drop_last() =~= prefix);
        assert(next.last() == inputs@[i as int]);
        let ghost old_msgs = messages@;
        match user_text(&inputs[i]) {
            Some(t) => {
                messages.push(ChatMessage { role: String::from_str("user"), content: t });
                assert(chat_messages_view(messages@) =~= chat_messages_view(old_msgs).push(
                    ("user"@, t@),
                ));
            },
            None => {},
        }
        assert(chat_messages_view(messages@) =~= user_texts(next).map_values(
            |t: Seq<char>| ("user"@, t),
        ));
        i = i + 1;
    }
    assert(inputs@.subrange(0, inputs@.len() as int) =~= inputs@);
    messages
}

/// The system prompt of an agent conversation in the given working directory.
pub open spec fn system_prompt(cwd: Seq<char>) -> Seq<char> {
    "You are a helpful terminal assistant running inside a terminal application. The user's current working directory is: "@
        + cwd
        + "\nYou have access to tools to run shell commands and read files. Use them freely to explore the filesystem and answer questions accurately.\nWhen running commands on Windows, use PowerShell or cmd syntax."@
}

/// A message with only a role and a text.
pub open spec fn plain_message(role: Seq<char>, text: Seq<char>) -> AgentMessageView {
    AgentMessageView {
        role,
        content: Some(text),
        tool_calls: None,
        tool_call_id: None,
        name: None,
    }
}

/// The messages an agent conversation starts from: the system prompt, then
/// one user message per input with text.
pub open spec fn initial_messages(inputs: Seq<AIAgentInput>, cwd: Seq<char>) -> Seq<AgentMessageView> {
    seq![plain_message("system"@, system_prompt(cwd))] + user_texts(inputs).map_values(
        |t: Seq<char>| plain_message("user"@, t),
    )
}

fn text_message(role: &str, text: String) -> (r: AgentMessage)
    ensures
        r@ == plain_message(role@, text@),
{
    AgentMessage {
        role: String::from_str(role),
        content: Some(text),
        tool_calls: None,
        tool_call_id: None,
        name: None,
    }
}

/// Builds the messages an agent conversation starts from.
pub fn build_initial_messages(inputs: &[AIAgentInput], cwd: &str) -> (r: Vec<AgentMessage>)
    ensures
        agent_messages_view(r@) == initial_messages(inputs@, cwd@),
{
    let system_content = String::from_str(
        "You are a helpful terminal assistant running inside a terminal application. The user's current working directory is: ",
    ).concat(cwd).concat(
        "\nYou have access to tools to run shell commands and read files. Use them freely to explore the filesystem and answer questions accurately.\nWhen running commands on Windows, use PowerShell or cmd syntax.",
    );
    let mut messages: Vec<AgentMessage> = Vec::new();
    messages.push(text_message("system", system_content));
    let ghost head = seq![plain_message("system"@, system_prompt(cwd@))];
    assert(agent_messages_view(messages@) =~= head);
    assert(user_texts(inputs@.subrange(0, 0)) =~= Seq::<Seq<char>>::empty());
    let mut i: usize = 0;
    while i < inputs.len()
        invariant
            i <= inputs@.len(),
            head == seq![plain_message("system"@, system_prompt(cwd@))],
            agent_messages_view(messages@) == head + user_texts(
                inputs@.subrange(0, i as int),
            ).map_values(|t: Seq<char>| plain_message("user"@, t)),
        decreases inputs@.len() - i,
    {
        let ghost prefix = inputs@.subrange(0, i as int);
        let ghost next = inputs@.subrange(0, i + 1);
        assert(next.drop_last() =~= prefix);
        assert(next.last() == inputs@[i as int]);
        let ghost old_msgs = messages@;
        match user_text(&inputs[i]) {
            Some(t) => {
                messages.push(text_message("user", t));
                assert(agent_messages_view(messages@) =~= agent_messages_view(old_msgs).push(
                    plain_message("user"@, t@),
                ));
            },
            None => {},
        }
        assert(agent_messages_view(messages@) =~= head + user_texts(next).map_values(
            |t: Seq<char>| plain_message("user"@, t),
        ));
        i = i + 1;
    }
    assert(inputs@.subrange(0, inputs@.len() as int) =~= inputs@);
    messages
}

fn tool_definition(name: &str, description: &str, parameter: &str, parameter_description: &str) -> (r: ToolDefinition)
    ensures
        r.name@ == name@,
        r.description@ == description@,
        r.parameter@ == parameter@,
        r.parameter_description@ == parameter_description@,
{
    ToolDefinition {
        name: String::from_str(name),
        description: String::from_str(description),
        parameter: String::from_str(parameter),
        parameter_description: String::from_str(parameter_description),
    }
}

/// Whether `v` is the tools an agent conversation offers: `run_shell_command`,
/// taking a `command`, and `read_file`, taking a `path`, in that order.
pub open spec fn is_agent_tools(v: Seq<ToolDefinition>) -> bool {
    &&& v.len() == 2
    &&& v[0].name@ == "run_shell_command"@
    &&& v[0].description@
        == "Run a shell command in the current working directory and return its output. Use this to explore the filesystem, run programs, check git status, etc."@
    &&& v[0].parameter@ == "command"@
    &&& v[0].parameter_description@ == "The shell command to execute"@
    &&& v[1].name@ == "read_file"@
    &&& v[1].description@
        == "Read the contents of a file. Path can be absolute or relative to the current working directory."@
    &&& v[1].parameter@ == "path"@
    &&& v[1].parameter_description@ == "Path to the file to read"@
}

/// The tools an agent conversation offers: `run_shell_command`, taking a
/// `command`, and `read_file`, taking a `path`, in that order.
pub fn build_agent_tools() -> (r: Vec<ToolDefinition>)
    ensures
        is_agent_tools(r@),
{
    let mut tools: Vec<ToolDefinition> = Vec::new();
    tools.push(
        tool_definition(
            "run_shell_command",
            "Run a shell command in the current working directory and return its output. Use this to explore the filesystem, run programs, check git status, etc.",
            "command",
            "The shell command to execute",
        ),
    );
    tools.push(
        tool_definition(
            "read_file",
            "Read the contents of a file. Path can be absolute or relative to the current working directory.",
            "path",
            "Path to the file to read",
        ),
    );
    tools
}

impl ToolCallInfo {
    /// A copy of the tool call.
    pub fn duplicate(&self) -> (r: Self)
        ensures
            r@ == self@,
    {
        ToolCallInfo {
            id: self.id.clone(),
            tool_type: self.tool_type.clone(),
            function: ToolCallFunction {
                name: self.function.name.clone(),
                arguments: self.function.arguments.clone(),
            },
        }
    }
}

/// A copy of a list of tool calls.
pub fn duplicate_tool_calls(v: &Vec<ToolCallInfo>) -> (r: Vec<ToolCallInfo>)
    ensures
        tool_calls_view(r@) == tool_calls_view(v@),
{
    let mut r: Vec<ToolCallInfo> = Vec::new();
    let mut i: usize = 0;
    while i < v.len()
        invariant
            i <= v@.len(),
            tool_calls_view(r@) == tool_calls_view(v@.subrange(0, i as int)),
        decreases v@.len() - i,
    {
        let ghost old_r = r@;
        let d = v[i].duplicate();
        r.push(d);
        assert(v@.subrange(0, i + 1) =~= v@.subrange(0, i as int).push(v@[i as int]));
        assert(tool_calls_view(r@) =~= tool_calls_view(old_r).push(d@));
        assert(tool_calls_view(v@.subrange(0, i + 1)) =~= tool_calls_view(v@.subrange(0, i as int)).push(v@[i as int]@));
        i = i + 1;
    }
    assert(v@.subrange(0, v@.len() as int) =~= v@);
    r
}

/// The two ways of turning an agent request's inputs into messages agree: the
/// messages an agent conversation starts from are the system prompt followed,
/// one for one, by the chat API's messages, with the same role and text.
pub proof fn lemma_message_builders_agree(inputs: Seq<AIAgentInput>, cwd: Seq<char>)
    ensures
        initial_messages(inputs, cwd).len() == chat_user_messages(inputs).len() + 1,
        initial_messages(inputs, cwd)[0] == plain_message("system"@, system_prompt(cwd)),
        forall|k: int|
            0 <= k < chat_user_messages(inputs).len() ==> #[trigger] initial_messages(inputs, cwd)[k + 1]
                == plain_message(chat_user_messages(inputs)[k].0, chat_user_messages(inputs)[k].1),
{
}

} // verus!
