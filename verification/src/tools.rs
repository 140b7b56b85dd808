//! The tools an agent request offers, chosen from the session and the enabled
//! features.

use vstd::prelude::*;

verus! {

/// A tool the agent may call.
#[derive(Clone, Copy, Debug, PartialEq, Eq, Structural)]
pub enum ToolType {
    Grep,
    FileGlob,
    FileGlobV2,
    ReadMcpResource,
    CallMcpTool,
    InitProject,
    OpenCodeReview,
    RunShellCommand,
    SuggestNewConversation,
    Subagent,
    WriteToLongRunningShellCommand,
    ReadShellCommandOutput,
    ReadDocuments,
    CreateDocuments,
    EditDocuments,
    SuggestPrompt,
    FetchConversation,
    ReadFiles,
    ApplyFileDiffs,
    SearchCodebase,
    UploadFileArtifact,
    UseComputer,
    RequestComputerUse,
    InsertReviewComments,
    ReadSkill,
    StartAgent,
    StartAgentV2,
    SendMessageToAgent,
    AskUserQuestion,
    TransferShellCommandControlToUser,
}

/// The kind of terminal session a request comes from.
#[derive(Clone, Debug)]
pub enum SessionType {
    Local,
    /// A remote session; `host_id` is known once the connection handshake succeeded.
    WarpifiedRemote { host_id: Option<String> },
}

/// The feature flags that decide which tools are offered.
#[derive(Clone, Copy, Debug)]
pub struct ToolFeatureFlags {
    pub conversations_as_context: bool,
    pub artifact_command: bool,
    pub agent_mode_computer_use: bool,
    pub pr_comments_slash_command: bool,
    pub list_skills: bool,
    pub orchestration_v2: bool,
    pub ask_user_question: bool,
    pub transfer_control_tool: bool,
}

/// The parts of an agent request that decide which tools are offered.
#[derive(Clone, Debug)]
pub struct ToolRequestParams {
    pub session_type: Option<SessionType>,
    pub computer_use_enabled: bool,
    pub orchestration_enabled: bool,
    pub ask_user_question_enabled: bool,
}

/// How far a session can reach the files of its host.
pub open spec fn session_is_local(s: Option<SessionType>) -> bool {
    match s {
        None => true,
        Some(SessionType::Local) => true,
        _ => false,
    }
}

/// Whether the session is remote with a connected host.
pub open spec fn session_is_connected_remote(s: Option<SessionType>) -> bool {
    match s {
        Some(SessionType::WarpifiedRemote { host_id: Some(_) }) => true,
        _ => false,
    }
}

/// The tools every agent request offers.
pub open spec fn base_tools() -> Seq<ToolType> {
    seq![
        ToolType::Grep,
        ToolType::FileGlob,
        ToolType::FileGlobV2,
        ToolType::ReadMcpResource,
        ToolType::CallMcpTool,
        ToolType::InitProject,
        ToolType::OpenCodeReview,
        ToolType::RunShellCommand,
        ToolType::SuggestNewConversation,
        ToolType::Subagent,
        ToolType::WriteToLongRunningShellCommand,
        ToolType::ReadShellCommandOutput,
        ToolType::ReadDocuments,
        ToolType::CreateDocuments,
        ToolType::EditDocuments,
        ToolType::SuggestPrompt,
    ]
}

/// `s` when `b` holds, else nothing.
pub open spec fn when(b: bool, s: Seq<ToolType>) -> Seq<ToolType> {
    if b {
        s
    } else {
        Seq::empty()
    }
}

/// The tools that reach the session's files.
pub open spec fn session_tools(s: Option<SessionType>, f: ToolFeatureFlags) -> Seq<ToolType> {
    if session_is_local(s) {
        seq![ToolType::ReadFiles, ToolType::ApplyFileDiffs, ToolType::SearchCodebase] + when(
            f.artifact_command,
            seq![ToolType::UploadFileArtifact],
        )
    } else if session_is_connected_remote(s) {
        seq![ToolType::ReadFiles, ToolType::ApplyFileDiffs]
    } else {
        Seq::empty()
    }
}

/// The tools that operate the user's computer, when enabled.
pub open spec fn computer_use_tools(p: ToolRequestParams, f: ToolFeatureFlags) -> Seq<ToolType> {
    when(
        f.agent_mode_computer_use && p.computer_use_enabled,
        seq![ToolType::UseComputer, ToolType::RequestComputerUse],
    )
}

/// The tools that start and message other agents, when orchestration is on.
pub open spec fn orchestration_tools(p: ToolRequestParams, f: ToolFeatureFlags) -> Seq<ToolType> {
    when(
        p.orchestration_enabled,
        seq![
            if f.orchestration_v2 {
                ToolType::StartAgentV2
            } else {
                ToolType::StartAgent
            },
            ToolType::SendMessageToAgent,
        ],
    )
}

/// The tools an agent request offers, in the order the server receives them.
pub open spec fn spec_supported_tools(p: ToolRequestParams, f: ToolFeatureFlags) -> Seq<ToolType> {
    base_tools() + when(f.conversations_as_context, seq![ToolType::FetchConversation])
        + session_tools(p.session_type, f) + computer_use_tools(p, f) + when(
        f.pr_comments_slash_command,
        seq![ToolType::InsertReviewComments],
    ) + when(f.list_skills, seq![ToolType::ReadSkill]) + orchestration_tools(p, f) + when(
        f.ask_user_question && p.ask_user_question_enabled,
        seq![ToolType::AskUserQuestion],
    )
}

/// The tools a CLI agent request offers, in order.
pub open spec fn spec_supported_cli_agent_tools(p: ToolRequestParams, f: ToolFeatureFlags) -> Seq<
    ToolType,
> {
    seq![
        ToolType::WriteToLongRunningShellCommand,
        ToolType::ReadShellCommandOutput,
        ToolType::Grep,
        ToolType::FileGlob,
        ToolType::FileGlobV2,
    ] + when(f.transfer_control_tool, seq![ToolType::TransferShellCommandControlToUser]) + if session_is_local(
        p.session_type,
    ) {
        seq![ToolType::ReadFiles, ToolType::SearchCodebase]
    } else if session_is_connected_remote(p.session_type) {
        seq![ToolType::ReadFiles]
    } else {
        Seq::empty()
    }
}

fn session_kind(s: &Option<SessionType>) -> (r: u8)
    ensures
        r == 0 <==> session_is_local(*s),
        r == 1 <==> session_is_connected_remote(*s),
        r <= 2,
{
    match s {
        None => 0,
        Some(SessionType::Local) => 0,
        Some(SessionType::WarpifiedRemote { host_id: Some(_) }) => 1,
        Some(SessionType::WarpifiedRemote { host_id: None }) => 2,
    }
}

fn append(t: &mut Vec<ToolType>, items: Vec<ToolType>)
    ensures
        final(t)@ == old(t)@ + items@,
{
    let mut items = items;
    t.append(&mut items);
}

fn base_tool_list() -> (r: Vec<ToolType>)
    ensures
        r@ == base_tools(),
{
    let r = vec![
        ToolType::Grep,
        ToolType::FileGlob,
        ToolType::FileGlobV2,
        ToolType::ReadMcpResource,
        ToolType::CallMcpTool,
        ToolType::InitProject,
        ToolType::OpenCodeReview,
        ToolType::RunShellCommand,
        ToolType::SuggestNewConversation,
        ToolType::Subagent,
        ToolType::WriteToLongRunningShellCommand,
        ToolType::ReadShellCommandOutput,
        ToolType::ReadDocuments,
        ToolType::CreateDocuments,
        ToolType::EditDocuments,
        ToolType::SuggestPrompt,
    ];
    assert(r@ =~= base_tools());
    r
}

fn session_tool_list(s: &Option<SessionType>, f: &ToolFeatureFlags) -> (r: Vec<ToolType>)
    ensures
        r@ == session_tools(*s, *f),
{
    let kind = session_kind(s);
    if kind == 0 {
        let mut r = vec![ToolType::ReadFiles, ToolType::ApplyFileDiffs, ToolType::SearchCodebase];
        if f.artifact_command {
            r.push(ToolType::UploadFileArtifact);
        }
        assert(r@ =~= session_tools(*s, *f));
        r
    } else if kind == 1 {
        let r = vec![ToolType::ReadFiles, ToolType::ApplyFileDiffs];
        assert(r@ =~= session_tools(*s, *f));
        r
    } else {
        let r: Vec<ToolType> = Vec::new();
        assert(r@ =~= session_tools(*s, *f));
        r
    }
}

fn when_one(b: bool, item: ToolType) -> (r: Vec<ToolType>)
    ensures
        r@ == when(b, seq![item]),
{
    let mut r: Vec<ToolType> = Vec::new();
    if b {
        r.push(item);
    }
    assert(r@ =~= when(b, seq![item]));
    r
}

fn when_two(b: bool, a: ToolType, c: ToolType) -> (r: Vec<ToolType>)
    ensures
        r@ == when(b, seq![a, c]),
{
    let mut r: Vec<ToolType> = Vec::new();
    if b {
        r.push(a);
        r.push(c);
    }
    assert(r@ =~= when(b, seq![a, c]));
    r
}

/// The tools an agent request offers.
pub fn get_supported_tools(params: &ToolRequestParams, flags: &ToolFeatureFlags) -> (r: Vec<ToolType>)
    ensures
        r@ == spec_supported_tools(*params, *flags),
{
    let mut t = base_tool_list();
    append(&mut t, when_one(flags.conversations_as_context, ToolType::FetchConversation));
    append(&mut t, session_tool_list(&params.session_type, flags));
    append(
        &mut t,
        when_two(
            flags.agent_mode_computer_use && params.computer_use_enabled,
            ToolType::UseComputer,
            ToolType::RequestComputerUse,
        ),
    );
    append(&mut t, when_one(flags.pr_comments_slash_command, ToolType::InsertReviewComments));
    append(&mut t, when_one(flags.list_skills, ToolType::ReadSkill));
    let start = if flags.orchestration_v2 {
        ToolType::StartAgentV2
    } else {
        ToolType::StartAgent
    };
    append(&mut t, when_two(params.orchestration_enabled, start, ToolType::SendMessageToAgent));
    append(
        &mut t,
        when_one(flags.ask_user_question && params.ask_user_question_enabled, ToolType::AskUserQuestion),
    );
    t
}

/// The tools a CLI agent request offers.
pub fn get_supported_cli_agent_tools(params: &ToolRequestParams, flags: &ToolFeatureFlags) -> (r: Vec<
    ToolType,
>)
    ensures
        r@ == spec_supported_cli_agent_tools(*params, *flags),
{
    let mut t: Vec<ToolType> = Vec::new();
    t.push(ToolType::WriteToLongRunningShellCommand);
    t.push(ToolType::ReadShellCommandOutput);
    t.push(ToolType::Grep);
    t.push(ToolType::FileGlob);
    t.push(ToolType::FileGlobV2);
    if flags.transfer_control_tool {
        t.push(ToolType::TransferShellCommandControlToUser);
    }
    let ghost s1 = t@;
    let kind = session_kind(&params.session_type);
    if kind == 0 {
        t.push(ToolType::ReadFiles);
        t.push(ToolType::SearchCodebase);
    } else if kind == 1 {
        t.push(ToolType::ReadFiles);
    }
    assert(t@ =~= spec_supported_cli_agent_tools(*params, *flags));
    t
}

proof fn lemma_concat_contains(a: Seq<ToolType>, b: Seq<ToolType>, x: ToolType)
    ensures
        (a + b).contains(x) <==> (a.contains(x) || b.contains(x)),
{
    if a.contains(x) {
        let i = choose|i: int| 0 <= i < a.len() && a[i] == x;
        assert((a + b)[i] == x);
    }
    if b.contains(x) {
        let j = choose|j: int| 0 <= j < b.len() && b[j] == x;
        assert((a + b)[a.len() + j] == x);
    }
    if (a + b).contains(x) {
        let k = choose|k: int| 0 <= k < (a + b).len() && (a + b)[k] == x;
        if k < a.len() {
            assert(a[k] == x);
        } else {
            assert(b[k - a.len()] == x);
        }
    }
}

proof fn lemma_when_contains(b: bool, s: Seq<ToolType>, x: ToolType)
    ensures
        (when(b, s)).contains(x) <==> (b && s.contains(x)),
{
}

/// The tools a request offers that are not gated on the request's consent.
spec fn ungated_tools(p: ToolRequestParams, f: ToolFeatureFlags) -> (Seq<ToolType>, Seq<ToolType>) {
    (
        base_tools() + when(f.conversations_as_context, seq![ToolType::FetchConversation]) + session_tools(
            p.session_type,
            f,
        ),
        when(f.pr_comments_slash_command, seq![ToolType::InsertReviewComments]) + when(
            f.list_skills,
            seq![ToolType::ReadSkill],
        ) + orchestration_tools(p, f),
    )
}

proof fn lemma_ungated_lack_gated(p: ToolRequestParams, f: ToolFeatureFlags, x: ToolType)
    requires
        x == ToolType::UseComputer || x == ToolType::RequestComputerUse || x == ToolType::AskUserQuestion,
    ensures
        !ungated_tools(p, f).0.contains(x),
        !ungated_tools(p, f).1.contains(x),
{
    let b = base_tools();
    assert forall|i: int| 0 <= i < b.len() implies b[i] != x by {}
    let fc = when(f.conversations_as_context, seq![ToolType::FetchConversation]);
    assert forall|i: int| 0 <= i < fc.len() implies fc[i] != x by {}
    let st = session_tools(p.session_type, f);
    let art = when(f.artifact_command, seq![ToolType::UploadFileArtifact]);
    assert forall|i: int| 0 <= i < art.len() implies art[i] != x by {}
    lemma_concat_contains(seq![ToolType::ReadFiles, ToolType::ApplyFileDiffs, ToolType::SearchCodebase], art, x);
    assert(!seq![ToolType::ReadFiles, ToolType::ApplyFileDiffs, ToolType::SearchCodebase].contains(x));
    assert(!seq![ToolType::ReadFiles, ToolType::ApplyFileDiffs].contains(x));
    assert(!st.contains(x));
    lemma_concat_contains(b, fc, x);
    lemma_concat_contains(b + fc, st, x);
    let rv = when(f.pr_comments_slash_command, seq![ToolType::InsertReviewComments]);
    let sk = when(f.list_skills, seq![ToolType::ReadSkill]);
    let orch = orchestration_tools(p, f);
    assert forall|i: int| 0 <= i < rv.len() implies rv[i] != x by {}
    assert forall|i: int| 0 <= i < sk.len() implies sk[i] != x by {}
    assert forall|i: int| 0 <= i < orch.len() implies orch[i] != x by {}
    lemma_concat_contains(rv, sk, x);
    lemma_concat_contains(rv + sk, orch, x);
}

proof fn lemma_gated_membership(p: ToolRequestParams, f: ToolFeatureFlags, x: ToolType)
    requires
        x == ToolType::UseComputer || x == ToolType::RequestComputerUse || x == ToolType::AskUserQuestion,
    ensures
        spec_supported_tools(p, f).contains(x) <==> (computer_use_tools(p, f).contains(x) || (when(
            f.ask_user_question && p.ask_user_question_enabled,
            seq![ToolType::AskUserQuestion],
        )).contains(x)),
{
    let (a, b) = ungated_tools(p, f);
    let c = computer_use_tools(p, f);
    let q = when(f.ask_user_question && p.ask_user_question_enabled, seq![ToolType::AskUserQuestion]);
    assert(spec_supported_tools(p, f) =~= ((a + c) + b) + q);
    lemma_ungated_lack_gated(p, f, x);
    lemma_concat_contains((a + c) + b, q, x);
    lemma_concat_contains(a + c, b, x);
    lemma_concat_contains(a, c, x);
}

/// Computer use is offered only with consent on both sides: the tools that
/// operate the user's computer (`UseComputer`, `RequestComputerUse`) are among
/// the tools a request offers exactly when the feature flag is on and the
/// request enables computer use. Likewise `AskUserQuestion` is offered exactly
/// when its flag is on and the request enables it.
pub proof fn lemma_consent_gated_tools(p: ToolRequestParams, f: ToolFeatureFlags)
    ensures
        spec_supported_tools(p, f).contains(ToolType::UseComputer) <==> (f.agent_mode_computer_use
            && p.computer_use_enabled),
        spec_supported_tools(p, f).contains(ToolType::RequestComputerUse) <==> (
        f.agent_mode_computer_use && p.computer_use_enabled),
        spec_supported_tools(p, f).contains(ToolType::AskUserQuestion) <==> (f.ask_user_question
            && p.ask_user_question_enabled),
{
    let on = f.agent_mode_computer_use && p.computer_use_enabled;
    let ask = f.ask_user_question && p.ask_user_question_enabled;
    let cs = seq![ToolType::UseComputer, ToolType::RequestComputerUse];
    let qs = seq![ToolType::AskUserQuestion];
    assert(cs[0] == ToolType::UseComputer && cs[1] == ToolType::RequestComputerUse);
    assert(qs[0] == ToolType::AskUserQuestion);
    assert(cs.contains(ToolType::UseComputer) && cs.contains(ToolType::RequestComputerUse));
    assert(!cs.contains(ToolType::AskUserQuestion));
    assert(qs.contains(ToolType::AskUserQuestion));
    assert(!qs.contains(ToolType::UseComputer) && !qs.contains(ToolType::RequestComputerUse));
    lemma_when_contains(on, cs, ToolType::UseComputer);
    lemma_when_contains(on, cs, ToolType::RequestComputerUse);
    lemma_when_contains(on, cs, ToolType::AskUserQuestion);
    lemma_when_contains(ask, qs, ToolType::UseComputer);
    lemma_when_contains(ask, qs, ToolType::RequestComputerUse);
    lemma_when_contains(ask, qs, ToolType::AskUserQuestion);
    lemma_gated_membership(p, f, ToolType::UseComputer);
    lemma_gated_membership(p, f, ToolType::RequestComputerUse);
    lemma_gated_membership(p, f, ToolType::AskUserQuestion);
}

} // verus!
