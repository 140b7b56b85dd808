use zterm_llm::client::{agent_chat_request, available_providers, parse_error_message, send_error_message, status_error_message, models_from_ollama, models_from_openai, providers_to_discover, LocalLLMClient, ModelData, OllamaModelInfo, CHAT_TIMEOUT_SECS};
use zterm_llm::messages::{ChoiceDelta, Delta, OpenAIChunk, ToolDefinition};
use zterm_llm::provider::LocalLLMProvider;
use zterm_llm::sse::{fold_sse_events, split_after_last_newline, split_lines, sse_payloads, SseBuffer, StreamStep};

fn chunk(content: Option<&str>, finish: Option<&str>) -> OpenAIChunk {
    OpenAIChunk {
        choices: vec![ChoiceDelta {
            delta: Delta { content: content.map(|s| s.to_string()) },
            finish_reason: finish.map(|s| s.to_string()),
        }],
    }
}

#[test]
fn lines_like_str_lines() {
    let text = "a\r\nb\n\nc\r";
    let expect: Vec<String> = text.lines().map(|s| s.to_string()).collect();
    assert_eq!(split_lines(text), expect);
    assert_eq!(split_lines("x\n"), vec!["x".to_string()]);
    assert!(split_lines("").is_empty());
}

#[test]
fn payloads_stop_at_done() {
    let text = "data: {\"a\":1}\r\n: comment\ndata: {\"b\":2}\ndata: [DONE]\ndata: {\"c\":3}\n";
    let (p, done) = sse_payloads(text);
    assert_eq!(p, vec!["{\"a\":1}".to_string(), "{\"b\":2}".to_string()]);
    assert!(done);
    let (p, done) = sse_payloads("event: x\ndata: 1\n");
    assert_eq!(p, vec!["1".to_string()]);
    assert!(!done);
}

#[test]
fn folds_events() {
    let evs = vec![Some(chunk(Some("Hel"), None)), None, Some(chunk(Some("lo"), Some("length"))), Some(OpenAIChunk { choices: vec![] })];
    let c = fold_sse_events(&evs, false);
    assert_eq!(c.content.as_deref(), Some("Hello"));
    assert_eq!(c.finish_reason.as_deref(), Some("length"));
    let c = fold_sse_events(&evs, true);
    assert_eq!(c.finish_reason.as_deref(), Some("stop"));
    let c = fold_sse_events(&vec![Some(chunk(None, None))], false);
    assert!(c.content.is_none() && c.finish_reason.is_none());
}

#[test]
fn splits_after_last_newline() {
    assert_eq!(split_after_last_newline("a\nb\ncd"), Some(("a\nb\n".to_string(), 2)));
    assert_eq!(split_after_last_newline("a\né"), Some(("a\n".to_string(), 2)));
    assert_eq!(split_after_last_newline("abc"), None);
}

#[test]
fn buffer_keeps_partial_lines() {
    let mut b = SseBuffer::new();
    assert_eq!(b.buffered_len(), 0);
    assert!(matches!(b.push_chunk(b"data: {\"x\""), StreamStep::Pending));
    assert_eq!(b.buffered_len(), 10);
    match b.push_chunk(b":1}\ndata: par") {
        StreamStep::Complete(t) => assert_eq!(t, "data: {\"x\":1}\n"),
        other => panic!("{:?}", other),
    }
    assert_eq!(b.buffered_len(), "data: par".len());
    match b.push_chunk(b"tial\n") {
        StreamStep::Complete(t) => assert_eq!(t, "data: partial\n"),
        other => panic!("{:?}", other),
    }
    let bytes = "é\n".as_bytes();
    assert!(matches!(b.push_chunk(&bytes[..1]), StreamStep::Pending));
    match b.push_chunk(&bytes[1..]) {
        StreamStep::Complete(t) => assert_eq!(t, "é\n"),
        other => panic!("{:?}", other),
    }
}

#[test]
fn buffer_overrun_on_invalid_tail() {
    let mut b = SseBuffer::new();
    assert!(matches!(b.push_chunk(&[b'\n', 0xff]), StreamStep::Overrun));
}

#[test]
fn client_urls_and_requests() {
    let c = LocalLLMClient::new(LocalLLMProvider::Ollama, "http://localhost:11434/v1".to_string());
    assert_eq!(c.timeout_secs(), CHAT_TIMEOUT_SECS);
    assert_eq!(CHAT_TIMEOUT_SECS, 300);
    assert_eq!(c.provider(), LocalLLMProvider::Ollama);
    assert_eq!(c.base_url(), "http://localhost:11434/v1");
    assert_eq!(c.chat_completions_url(), "http://localhost:11434/v1/chat/completions");
    assert_eq!(c.models_url(), "http://localhost:11434/api/tags");
    assert_eq!(c.health_url(), "http://localhost:11434/");
    assert!(c.lists_models_natively());
    let s = c.streaming_request("llama3");
    assert!(s.stream && s.tools.is_none() && s.max_tokens == 4096 && s.model == "llama3");
    let t = c.tool_request("llama3", Some(vec![]));
    assert!(!t.stream && t.tools.is_none());
    let tool = ToolDefinition { name: "n".into(), description: "d".into(), parameter: "p".into(), parameter_description: "pd".into() };
    let t = c.tool_request("llama3", Some(vec![tool]));
    assert_eq!(t.tools.map(|v| v.len()), Some(1));
    let lm = LocalLLMClient::new(LocalLLMProvider::LMStudio, "http://localhost:1234/v1".to_string());
    assert!(!lm.lists_models_natively());
    assert_eq!(lm.models_url(), "http://localhost:1234/v1/models");
}

#[test]
fn model_lists() {
    let m = models_from_ollama(vec![
        OllamaModelInfo { name: "gemma3:4b".into(), size: 2500000000, modified_at: "2024-05-01".into() },
        OllamaModelInfo { name: "tiny".into(), size: 0, modified_at: String::new() },
    ]);
    assert_eq!(m[0].name, "gemma3:4b");
    assert_eq!(m[0].size_bytes, Some(2500000000));
    assert_eq!(m[0].modified_at.as_deref(), Some("2024-05-01"));
    assert_eq!(m[1].size_bytes, None);
    assert_eq!(m[1].modified_at, None);
    let o = models_from_openai(vec![ModelData { id: "qwen".into() }]);
    assert_eq!(o.len(), 1);
    assert_eq!(o[0].name, "qwen");
    assert!(o[0].size_bytes.is_none() && o[0].modified_at.is_none());
}

#[test]
fn discovery_order_and_results() {
    assert_eq!(providers_to_discover(), vec![LocalLLMProvider::Ollama, LocalLLMProvider::LMStudio]);
    let r = available_providers(vec![(LocalLLMProvider::Ollama, None), (LocalLLMProvider::LMStudio, Some(42))]);
    assert_eq!(r, vec![(LocalLLMProvider::LMStudio, 42)]);
}

fn stream_pieces(chunks: &[&[u8]]) -> (String, usize) {
    let mut buf = SseBuffer::new();
    let mut text = String::new();
    for c in chunks {
        match buf.push_chunk(c) {
            StreamStep::Complete(t) => text.push_str(&t),
            StreamStep::Pending => {}
            StreamStep::Overrun => panic!("overrun on valid UTF-8"),
        }
    }
    (text, buf.buffered_len())
}

#[test]
fn chunking_does_not_change_what_is_yielded() {
    let body = "data: {\"x\":\"h\u{e9}llo\"}\n\ndata: {\"x\":\"w\u{1f600}\"}\ndata: [DONE]\n";
    let bytes = body.as_bytes();
    let whole = stream_pieces(&[bytes]);
    let cut_a = stream_pieces(&[&bytes[..7], &bytes[7..20], &bytes[20..21], &bytes[21..]]);
    let cut_b = stream_pieces(&[&bytes[..1], &bytes[1..30], &bytes[30..], &[]]);
    assert_eq!(whole, (body.to_string(), 0));
    assert_eq!(cut_a, whole);
    assert_eq!(cut_b, whole);
    let (payloads, done) = sse_payloads(&whole.0);
    assert!(done);
    assert_eq!(payloads, vec!["{\"x\":\"h\u{e9}llo\"}".to_string(), "{\"x\":\"w\u{1f600}\"}".to_string()]);
}

#[test]
fn text_after_the_last_line_end_waits() {
    let body = "data: a\ndata: b";
    let bytes = body.as_bytes();
    assert_eq!(stream_pieces(&[bytes]), ("data: a\n".to_string(), 7));
    assert_eq!(stream_pieces(&[&bytes[..3], &bytes[3..9], &bytes[9..]]), ("data: a\n".to_string(), 7));
}

#[test]
fn errors_name_the_endpoint_and_model() {
    assert_eq!(
        status_error_message(
            "http://localhost:11434/v1/chat/completions",
            "llama2",
            "404 Not Found",
            "{\"error\":\"model 'llama2' not found\"}"
        ),
        "LLM error from http://localhost:11434/v1/chat/completions (model: llama2): 404 Not Found - {\"error\":\"model 'llama2' not found\"}"
    );
    assert_eq!(
        parse_error_message("http://h/v1/chat/completions", "m", "expected value", "oops"),
        "Failed to parse LLM response from http://h/v1/chat/completions (model: m): expected value\nResponse body: oops"
    );
    assert_eq!(
        send_error_message("http://localhost:9999/v1/chat/completions", "connection refused"),
        "Failed to send request to http://localhost:9999/v1/chat/completions: connection refused"
    );
}

#[test]
fn agent_requests_carry_the_tools() {
    let r = agent_chat_request(LocalLLMProvider::LMStudio, None, "qwen2.5:7b");
    assert_eq!(r.url, "http://localhost:1234/v1/chat/completions");
    assert_eq!(r.model, "qwen2.5:7b");
    assert!(!r.stream);
    assert_eq!(r.max_tokens, 4096);
    assert_eq!(r.timeout_secs, CHAT_TIMEOUT_SECS);
    let tools = r.tools.expect("tools");
    assert_eq!(tools.len(), 2);
    assert_eq!(tools[0].name, "run_shell_command");
    assert_eq!(tools[1].name, "read_file");
    let o = agent_chat_request(LocalLLMProvider::Ollama, Some("http://gpu:11434/v1"), "m");
    assert_eq!(o.url, "http://gpu:11434/v1/chat/completions");
}
