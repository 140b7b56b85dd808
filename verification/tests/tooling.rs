use zterm_llm::messages::{ToolCallFunction, ToolCallInfo};
use zterm_llm::tool_calls::{action_for_arg, join_command_output, plan_tool_call, report_command_output, report_file_contents, resolve_tool_path, ToolAction};
use zterm_llm::tools::{get_supported_cli_agent_tools, get_supported_tools, SessionType, ToolFeatureFlags, ToolRequestParams, ToolType};

fn flags(on: bool) -> ToolFeatureFlags {
    ToolFeatureFlags {
        conversations_as_context: on,
        artifact_command: on,
        agent_mode_computer_use: on,
        pr_comments_slash_command: on,
        list_skills: on,
        orchestration_v2: on,
        ask_user_question: on,
        transfer_control_tool: on,
    }
}

fn params(session: Option<SessionType>, on: bool) -> ToolRequestParams {
    ToolRequestParams {
        session_type: session,
        computer_use_enabled: on,
        orchestration_enabled: on,
        ask_user_question_enabled: on,
    }
}

#[test]
fn local_session_tools_without_features() {
    let t = get_supported_tools(&params(None, false), &flags(false));
    assert_eq!(t.len(), 19);
    assert_eq!(t[0], ToolType::Grep);
    assert_eq!(&t[16..], &[ToolType::ReadFiles, ToolType::ApplyFileDiffs, ToolType::SearchCodebase]);
}

#[test]
fn all_features_on_local_session() {
    let t = get_supported_tools(&params(Some(SessionType::Local), true), &flags(true));
    assert_eq!(
        &t[16..],
        &[
            ToolType::FetchConversation,
            ToolType::ReadFiles,
            ToolType::ApplyFileDiffs,
            ToolType::SearchCodebase,
            ToolType::UploadFileArtifact,
            ToolType::UseComputer,
            ToolType::RequestComputerUse,
            ToolType::InsertReviewComments,
            ToolType::ReadSkill,
            ToolType::StartAgentV2,
            ToolType::SendMessageToAgent,
            ToolType::AskUserQuestion,
        ]
    );
}

#[test]
fn remote_sessions() {
    let connected = Some(SessionType::WarpifiedRemote { host_id: Some("h".to_string()) });
    let t = get_supported_tools(&params(connected.clone(), false), &flags(false));
    assert_eq!(&t[16..], &[ToolType::ReadFiles, ToolType::ApplyFileDiffs]);
    let t = get_supported_tools(&params(Some(SessionType::WarpifiedRemote { host_id: None }), false), &flags(false));
    assert_eq!(t.len(), 16);
    let mut f = flags(false);
    f.orchestration_v2 = false;
    let mut p = params(Some(SessionType::WarpifiedRemote { host_id: None }), false);
    p.orchestration_enabled = true;
    let t = get_supported_tools(&p, &f);
    assert_eq!(&t[16..], &[ToolType::StartAgent, ToolType::SendMessageToAgent]);
    let c = get_supported_cli_agent_tools(&params(connected, false), &flags(true));
    assert_eq!(
        c,
        vec![
            ToolType::WriteToLongRunningShellCommand,
            ToolType::ReadShellCommandOutput,
            ToolType::Grep,
            ToolType::FileGlob,
            ToolType::FileGlobV2,
            ToolType::TransferShellCommandControlToUser,
            ToolType::ReadFiles,
        ]
    );
    let c = get_supported_cli_agent_tools(&params(None, false), &flags(false));
    assert_eq!(&c[5..], &[ToolType::ReadFiles, ToolType::SearchCodebase]);
}

fn tc(name: &str, args: &str) -> ToolCallInfo {
    ToolCallInfo {
        id: "1".to_string(),
        tool_type: "function".to_string(),
        function: ToolCallFunction { name: name.to_string(), arguments: args.to_string() },
    }
}

#[test]
fn plans_tool_calls() {
    match plan_tool_call(&tc("run_shell_command", "{\"command\":\"git status\"}"), "/w") {
        ToolAction::RunShellCommand { command } => assert_eq!(command, "git status"),
        other => panic!("{:?}", other),
    }
    match plan_tool_call(&tc("run_shell_command", "not json"), "/w") {
        ToolAction::Respond { text } => assert_eq!(text, "Error: missing 'command' argument"),
        other => panic!("{:?}", other),
    }
    match plan_tool_call(&tc("read_file", "{\"path\":\"src/main.rs\"}"), "/w") {
        ToolAction::ReadFile { path } => assert_eq!(path, "/w/src/main.rs"),
        other => panic!("{:?}", other),
    }
    match plan_tool_call(&tc("read_file", "{\"path\":\"/etc/hosts\"}"), "/w") {
        ToolAction::ReadFile { path } => assert_eq!(path, "/etc/hosts"),
        other => panic!("{:?}", other),
    }
    match plan_tool_call(&tc("read_file", "{\"path\":3}"), "/w") {
        ToolAction::Respond { text } => assert_eq!(text, "Error: missing 'path' argument"),
        other => panic!("{:?}", other),
    }
    match plan_tool_call(&tc("delete_all", "{}"), "/w") {
        ToolAction::Respond { text } => assert_eq!(text, "Unknown tool: delete_all"),
        other => panic!("{:?}", other),
    }
}

#[test]
fn actions_from_read_arguments() {
    match action_for_arg("run_shell_command", Some("ls".to_string()), "/w", false) {
        ToolAction::RunShellCommand { command } => assert_eq!(command, "ls"),
        other => panic!("{:?}", other),
    }
    match action_for_arg("run_shell_command", None, "/w", false) {
        ToolAction::Respond { text } => assert_eq!(text, "Error: missing 'command' argument"),
        other => panic!("{:?}", other),
    }
    match action_for_arg("read_file", Some("b.txt".to_string()), "/w", false) {
        ToolAction::ReadFile { path } => assert_eq!(path, "/w/b.txt"),
        other => panic!("{:?}", other),
    }
    match action_for_arg("read_file", Some("/b.txt".to_string()), "/w", true) {
        ToolAction::ReadFile { path } => assert_eq!(path, "/b.txt"),
        other => panic!("{:?}", other),
    }
    match action_for_arg("read_file", None, "/w", false) {
        ToolAction::Respond { text } => assert_eq!(text, "Error: missing 'path' argument"),
        other => panic!("{:?}", other),
    }
    match action_for_arg("grep", Some("x".to_string()), "/w", false) {
        ToolAction::Respond { text } => assert_eq!(text, "Unknown tool: grep"),
        other => panic!("{:?}", other),
    }
}

#[test]
fn resolves_paths() {
    assert_eq!(resolve_tool_path("a".to_string(), "/w", false), "/w/a");
    assert_eq!(resolve_tool_path("/a".to_string(), "/w", true), "/a");
}

#[test]
fn file_reports() {
    assert_eq!(report_file_contents("short".to_string()), "short");
    let long = "x".repeat(9000);
    let r = report_file_contents(long);
    assert!(r.starts_with("[truncated to 8192 chars]\n"));
    assert_eq!(r.len(), "[truncated to 8192 chars]\n".len() + 8192);
    assert_eq!(report_file_contents("y".repeat(8192)).len(), 8192);
}

#[test]
fn joins_command_output() {
    assert_eq!(join_command_output("out".to_string(), String::new()), "out");
    assert_eq!(join_command_output("out".to_string(), "err".to_string()), "out\n[stderr] err");
    assert_eq!(join_command_output(String::new(), "err".to_string()), "[stderr] err");
    assert_eq!(join_command_output(String::new(), String::new()), "(no output)");
}

#[test]
fn command_reports() {
    assert_eq!(report_command_output(b"hello\n", b""), Some("hello\n".to_string()));
    assert_eq!(report_command_output(&[0x66, 0xff], b""), Some("f\u{fffd}".to_string()));
    let long = vec![b'a'; 9000];
    let r = report_command_output(&long, b"").unwrap();
    assert_eq!(r.len(), 8192 + "\n[output truncated]".len());
    assert!(r.ends_with("\n[output truncated]"));
    let mut split = vec![b'a'; 8191];
    split.extend_from_slice("é".as_bytes());
    split.extend_from_slice(b"tail");
    assert_eq!(report_command_output(&split, b""), None);
}
