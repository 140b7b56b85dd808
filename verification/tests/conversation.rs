use zterm_llm::text::char_is_whitespace;
use zterm_llm::agent_loop::{AgentAction, AgentError, AgentLoop, MAX_ITERATIONS};
use zterm_llm::messages::{
    build_agent_tools, build_initial_messages, extract_local_chat_messages, AIAgentInput,
    NonStreamingChoice, NonStreamingMessage, NonStreamingResponse, ToolCallFunction, ToolCallInfo,
};
use zterm_llm::response::{forked_from_conversation_id, logging_metadata, plan_local_response, working_directory, MetadataValue};

fn q(s: &str) -> AIAgentInput {
    AIAgentInput::UserQuery { query: s.to_string() }
}

fn call(id: &str, name: &str, args: &str) -> ToolCallInfo {
    ToolCallInfo {
        id: id.to_string(),
        tool_type: "function".to_string(),
        function: ToolCallFunction { name: name.to_string(), arguments: args.to_string() },
    }
}

fn reply(content: Option<&str>, calls: Option<Vec<ToolCallInfo>>) -> NonStreamingResponse {
    NonStreamingResponse {
        choices: vec![NonStreamingChoice {
            message: NonStreamingMessage {
                role: "assistant".to_string(),
                content: content.map(|c| c.to_string()),
                tool_calls: calls,
            },
            finish_reason: Some("stop".to_string()),
        }],
    }
}

#[test]
fn chat_messages_skip_blank_inputs() {
    let inputs = vec![
        q("hello dude"),
        q("   \n\t"),
        AIAgentInput::AutoCodeDiffQuery { query: "fix it".to_string() },
        AIAgentInput::CreateNewProject { query: "new app".to_string() },
        AIAgentInput::SummarizeConversation { prompt: Some("sum up".to_string()) },
        AIAgentInput::SummarizeConversation { prompt: Some("\u{3000}".to_string()) },
        AIAgentInput::SummarizeConversation { prompt: None },
        AIAgentInput::Other,
    ];
    let msgs = extract_local_chat_messages(&inputs);
    let texts: Vec<(String, String)> = msgs.into_iter().map(|m| (m.role, m.content)).collect();
    assert_eq!(
        texts,
        vec![
            ("user".to_string(), "hello dude".to_string()),
            ("user".to_string(), "fix it".to_string()),
            ("user".to_string(), "new app".to_string()),
            ("user".to_string(), "sum up".to_string()),
        ]
    );
}

#[test]
fn initial_messages_start_with_system_prompt() {
    let msgs = build_initial_messages(&[q("what is this repo?"), q(" ")], "/home/me/proj");
    assert_eq!(msgs.len(), 2);
    assert_eq!(msgs[0].role, "system");
    assert_eq!(
        msgs[0].content.as_deref(),
        Some("You are a helpful terminal assistant running inside a terminal application. The user's current working directory is: /home/me/proj\nYou have access to tools to run shell commands and read files. Use them freely to explore the filesystem and answer questions accurately.\nWhen running commands on Windows, use PowerShell or cmd syntax.")
    );
    assert_eq!(msgs[1].role, "user");
    assert_eq!(msgs[1].content.as_deref(), Some("what is this repo?"));
    assert!(msgs[1].tool_calls.is_none() && msgs[1].tool_call_id.is_none() && msgs[1].name.is_none());
}

#[test]
fn agent_offers_two_tools() {
    let tools = build_agent_tools();
    assert_eq!(tools.len(), 2);
    assert_eq!(tools[0].name, "run_shell_command");
    assert_eq!(tools[0].parameter, "command");
    assert_eq!(tools[1].name, "read_file");
    assert_eq!(tools[1].parameter, "path");
}

#[test]
fn tool_round_then_answer() {
    let mut lp = AgentLoop::start(&[q("list files")], ".");
    assert!(matches!(lp.next_action(), AgentAction::Request));
    assert_eq!(lp.messages().len(), 2);
    lp.on_response(reply(None, Some(vec![call("c1", "run_shell_command", "{\"command\":\"ls\"}"), call("c2", "read_file", "{\"path\":\"a\"}")]))).unwrap();
    assert_eq!(lp.messages().len(), 3);
    assert_eq!(lp.messages()[2].role, "assistant");
    match lp.next_action() {
        AgentAction::RunTool(tc) => assert_eq!(tc.id, "c1"),
        other => panic!("unexpected {:?}", other),
    }
    lp.on_tool_result("a.txt".to_string());
    match lp.next_action() {
        AgentAction::RunTool(tc) => assert_eq!(tc.id, "c2"),
        other => panic!("unexpected {:?}", other),
    }
    lp.on_tool_result("contents".to_string());
    let m = &lp.messages()[3];
    assert_eq!(m.role, "tool");
    assert_eq!(m.tool_call_id.as_deref(), Some("c1"));
    assert_eq!(m.name.as_deref(), Some("run_shell_command"));
    assert_eq!(m.content.as_deref(), Some("a.txt"));
    assert!(matches!(lp.next_action(), AgentAction::Request));
    lp.on_response(reply(Some("There is a.txt"), Some(vec![]))).unwrap();
    match lp.next_action() {
        AgentAction::Finish(t) => assert_eq!(t, "There is a.txt"),
        other => panic!("unexpected {:?}", other),
    }
}

#[test]
fn each_request_extends_the_previous_one() {
    let mut lp = AgentLoop::start(&[q("look around")], "/p");
    let first: Vec<(String, Option<String>)> =
        lp.messages().iter().map(|m| (m.role.clone(), m.content.clone())).collect();
    lp.on_response(reply(Some("checking"), Some(vec![call("a", "run_shell_command", "{\"command\":\"pwd\"}")]))).unwrap();
    lp.on_tool_result("/p".to_string());
    lp.on_response(reply(None, Some(vec![call("b", "read_file", "{\"path\":\"x\"}"), call("c", "read_file", "{\"path\":\"y\"}")]))).unwrap();
    lp.on_tool_result("X".to_string());
    lp.on_tool_result("Y".to_string());
    assert!(matches!(lp.next_action(), AgentAction::Request));
    let msgs = lp.messages();
    assert_eq!(msgs.len(), first.len() + 2 + 3);
    for (i, (role, content)) in first.iter().enumerate() {
        assert_eq!(&msgs[i].role, role);
        assert_eq!(&msgs[i].content, content);
    }
    let n = first.len();
    assert_eq!(msgs[n].role, "assistant");
    assert_eq!(msgs[n].content.as_deref(), Some("checking"));
    assert_eq!(msgs[n].tool_calls.as_ref().map(|c| c.len()), Some(1));
    assert_eq!(msgs[n + 1].tool_call_id.as_deref(), Some("a"));
    assert_eq!(msgs[n + 1].content.as_deref(), Some("/p"));
    assert_eq!(msgs[n + 2].role, "assistant");
    assert!(msgs[n + 2].content.is_none());
    assert_eq!(msgs[n + 3].tool_call_id.as_deref(), Some("b"));
    assert_eq!(msgs[n + 3].name.as_deref(), Some("read_file"));
    assert_eq!(msgs[n + 3].content.as_deref(), Some("X"));
    assert_eq!(msgs[n + 4].tool_call_id.as_deref(), Some("c"));
    assert_eq!(msgs[n + 4].content.as_deref(), Some("Y"));
}

#[test]
fn blank_answer_becomes_notice() {
    let mut lp = AgentLoop::start(&[q("hi")], ".");
    lp.on_response(reply(Some("  "), None)).unwrap();
    match lp.next_action() {
        AgentAction::Finish(t) => assert_eq!(t, "The local model did not return any content."),
        other => panic!("unexpected {:?}", other),
    }
}

#[test]
fn reply_without_choices_is_an_error() {
    let mut lp = AgentLoop::start(&[q("hi")], ".");
    let r = lp.on_response(NonStreamingResponse { choices: vec![] });
    assert_eq!(r, Err(AgentError::NoChoices));
    assert_eq!(AgentError::NoChoices.message(), "LLM returned no choices");
    assert!(matches!(lp.next_action(), AgentAction::Request));
}

#[test]
fn at_most_ten_requests() {
    let mut lp = AgentLoop::start(&[q("loop")], ".");
    let mut requests = 0;
    loop {
        match lp.next_action() {
            AgentAction::Request => {
                requests += 1;
                lp.on_response(reply(None, Some(vec![call("x", "read_file", "{}")]))).unwrap();
            }
            AgentAction::RunTool(_) => lp.on_tool_result("out".to_string()),
            AgentAction::Finish(t) => {
                assert_eq!(t, "The local model did not return any content.");
                break;
            }
        }
    }
    assert_eq!(requests, MAX_ITERATIONS);
    assert_eq!(lp.messages().len(), 2 + 2 * MAX_ITERATIONS);
}

#[test]
fn response_plan_joins_existing_task() {
    let p = plan_local_response("r1".to_string(), Some("conv".to_string()), Some("t1".to_string()), "new".to_string(), "answer".to_string());
    assert_eq!(p.conversation_id, "conv");
    assert_eq!(p.task_id, "t1");
    assert!(!p.create_task);
    assert_eq!(p.message_id, "local-message-r1");
    assert_eq!(p.text, "answer");
    let p = plan_local_response("r2".to_string(), None, None, "new".to_string(), "x".to_string());
    assert_eq!(p.conversation_id, "");
    assert_eq!(p.task_id, "new");
    assert!(p.create_task);
}

#[test]
fn request_metadata() {
    assert_eq!(working_directory(None), ".");
    assert_eq!(working_directory(Some("/tmp".to_string())), "/tmp");
    assert_eq!(forked_from_conversation_id(&None, Some("old".to_string())), "old");
    assert_eq!(forked_from_conversation_id(&None, None), "");
    assert_eq!(forked_from_conversation_id(&Some("c".to_string()), Some("old".to_string())), "");
    let m = logging_metadata(true, "slash".to_string(), false);
    assert_eq!(m.len(), 3);
    assert_eq!(m[0].0, "is_autodetected_user_query");
    assert!(matches!(m[0].1, MetadataValue::Bool(true)));
    assert!(matches!(&m[1].1, MetadataValue::Text(t) if t == "slash"));
    assert!(matches!(m[2].1, MetadataValue::Bool(false)));
}

#[test]
fn blank_test_agrees_with_trim() {
    let samples = ["", " ", "\t\n\r", "\u{a0}", "\u{200b}", "\u{2009}x", "\u{3000}", "\u{85}", "\u{1680}\u{205f}", "a", "\u{feff}"];
    for s in samples {
        let kept = !extract_local_chat_messages(&[q(s)]).is_empty();
        assert_eq!(kept, !s.trim().is_empty(), "input {:?}", s);
    }
}

#[test]
fn whitespace_test_agrees_with_std_on_every_char() {
    for c in (0u32..=0x10FFFF).filter_map(char::from_u32) {
        assert_eq!(char_is_whitespace(c), c.is_whitespace(), "char {:?}", c);
    }
}

#[test]
fn conversation_starts_with_the_chat_messages() {
    let inputs = vec![q("one"), q("  "), AIAgentInput::CreateNewProject { query: "two".to_string() }, AIAgentInput::Other];
    let chat = extract_local_chat_messages(&inputs);
    let conv = build_initial_messages(&inputs, "/d");
    assert_eq!(conv.len(), chat.len() + 1);
    assert_eq!(conv[0].role, "system");
    for (k, m) in chat.iter().enumerate() {
        assert_eq!(conv[k + 1].role, m.role);
        assert_eq!(conv[k + 1].content.as_deref(), Some(m.content.as_str()));
    }
}
