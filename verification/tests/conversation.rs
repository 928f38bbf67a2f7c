use rustagent::agent::{
    model_watchdog, tool_watchdog, truncate, Agent, AgentEvent, Turn, TurnStep, SYSTEM_PROMPT,
};
use rustagent::config::LlmConfig;
use rustagent::history::{
    auto_save_target, latest, list, renderable_messages, restore, session_of, sessions_dir, SavedFile,
    snapshot_path,
};
use rustagent::json::{parse_json, render_json, Json};
use rustagent::llm::{
    endpoint, extend, is_event_stream, parse_thinking, read_line, read_usage, request_body,
    service_error, single_reply, split_thinking_entries, upsert, ChatResult, FunctionCall, Message,
    StreamState, ToolCall, ToolDef, Usage,
};

fn llm() -> LlmConfig {
    LlmConfig {
        base_url: "http://x/v1".to_string(),
        api_key: "k".to_string(),
        model: "m".to_string(),
        context_length: 32768,
        price_input_per_m: "0.0".to_string(),
        price_output_per_m: "0.0".to_string(),
        token_budget: 0,
        max_tool_iterations: 3,
        thinking: None,
    }
}

fn call(id: &str, name: &str) -> ToolCall {
    ToolCall {
        id: id.to_string(),
        call_type: "function".to_string(),
        function: FunctionCall { name: name.to_string(), arguments: "{}".to_string() },
    }
}

fn asks(calls: Vec<ToolCall>) -> ChatResult {
    ChatResult {
        message: Message {
            role: "assistant".to_string(),
            content: None,
            tool_calls: Some(calls),
            tool_call_id: None,
        },
        usage: Usage { prompt_tokens: 10, completion_tokens: 2, total_tokens: 12 },
    }
}

fn says(text: &str) -> ChatResult {
    ChatResult {
        message: Message::assistant(text),
        usage: Usage { prompt_tokens: 1, completion_tokens: 1, total_tokens: 2 },
    }
}

/// Each tool call is answered once, in its place, before anything else is said.
fn is_paired(messages: &[Message]) -> bool {
    let mut waiting: Vec<String> = Vec::new();
    for m in messages {
        if m.role == "tool" {
            let id = m.tool_call_id.clone().unwrap_or_default();
            if waiting.first() != Some(&id) {
                return false;
            }
            waiting.remove(0);
        } else {
            if !waiting.is_empty() {
                return false;
            }
            if let Some(calls) = &m.tool_calls {
                waiting = calls.iter().map(|c| c.id.clone()).collect();
            }
        }
    }
    waiting.is_empty()
}

fn roles(agent: &Agent) -> Vec<&str> {
    agent.messages.iter().map(|m| m.role.as_str()).collect()
}

#[test]
fn tool_call_fragments_are_combined_by_index() {
    let mut parts: Vec<(usize, String)> = Vec::new();
    upsert(&mut parts, 1, "second".into());
    upsert(&mut parts, 1, "updated".into());
    upsert(&mut parts, 0, "first".into());
    assert_eq!(parts, vec![(1, "updated".into()), (0, "first".into())]);
}

#[test]
fn thinking_spec_parses_into_request_extras() {
    let m = parse_thinking("enable_thinking=false, reasoning_effort=medium");
    assert!(matches!(m.get("enable_thinking"), Some(Json::Bool(false))));
    assert_eq!(
        m.get("reasoning_effort").and_then(|v| v.as_str()).map(|s| s.as_str()),
        Some("medium")
    );

    let obj = parse_thinking(r#"thinking={"type":"enabled","budget_tokens":4096}"#);
    assert_eq!(
        obj.get("thinking").and_then(|v| v.get("budget_tokens")).and_then(|v| v.as_u64()),
        Some(4096)
    );

    assert!(parse_thinking("auto").names().is_empty());
    assert!(parse_thinking("").names().is_empty());
    assert_eq!(parse_thinking("  , broken , x=1").names().len(), 1);
}

#[test]
fn thinking_entries_keep_commas_inside_json() {
    let entries = split_thinking_entries(r#"a={"x":[1,2],"y":"b,\"c"},d=1"#);
    assert_eq!(entries, vec![r#"a={"x":[1,2],"y":"b,\"c"}"#, "d=1"]);
    assert_eq!(entries.join(","), r#"a={"x":[1,2],"y":"b,\"c"},d=1"#);
    assert_eq!(split_thinking_entries(""), vec![""]);
}

#[test]
fn fragments_are_appended_by_index() {
    let mut parts: Vec<(usize, String)> = Vec::new();
    extend(&mut parts, 2, "{\"a\"");
    extend(&mut parts, 0, "x");
    extend(&mut parts, 2, ":1}");
    assert_eq!(parts, vec![(2, "{\"a\":1}".to_string()), (0, "x".to_string())]);
}

fn stream() -> String {
    let mut s = String::new();
    s.push_str("data: {\"choices\":[{\"delta\":{\"content\":\"你\"}}]}\n\n");
    s.push_str(": keep-alive\n");
    s.push_str("data: {\"choices\":[{\"delta\":{\"content\":\"好\"}}]}\r\n");
    s.push_str("data: {\"choices\":[{\"delta\":{\"tool_calls\":[{\"index\":0,\"id\":\"c1\",\"function\":{\"name\":\"search_mods\",\"arguments\":\"{\\\"query\\\":\"}}]}}]}\n");
    s.push_str("data: {\"choices\":[{\"delta\":{\"tool_calls\":[{\"index\":0,\"function\":{\"arguments\":\"\\\"sodium\\\"}\"}}]}}]}\n");
    s.push_str("data: {\"choices\":[],\"usage\":{\"prompt_tokens\":7,\"completion_tokens\":5,\"total_tokens\":12}}\n");
    s.push_str("data: [DONE]\n");
    s
}

#[test]
fn a_stream_is_put_together() {
    let mut st = StreamState::new();
    let deltas = st.push_text(&stream());
    assert_eq!(deltas, vec!["你", "好"]);
    let r = st.finish();
    assert_eq!(r.message.role, "assistant");
    assert_eq!(r.message.content.as_deref(), Some("你好"));
    let calls = r.message.tool_calls.unwrap();
    assert_eq!(calls.len(), 1);
    assert_eq!(calls[0].id, "c1");
    assert_eq!(calls[0].call_type, "function");
    assert_eq!(calls[0].function.name, "search_mods");
    assert_eq!(calls[0].function.arguments, "{\"query\":\"sodium\"}");
    assert_eq!(r.usage.total_tokens, 12);
    assert_eq!(r.usage.prompt_tokens, 7);
}

#[test]
fn it_does_not_matter_where_a_stream_is_cut() {
    let text: Vec<char> = stream().chars().collect();
    for cut in [1, 20, 57, 58, 100, text.len() - 3] {
        let mut st = StreamState::new();
        let a: String = text[..cut].iter().collect();
        let b: String = text[cut..].iter().collect();
        let mut deltas = st.push_text(&a);
        deltas.extend(st.push_text(&b));
        assert_eq!(deltas.concat(), "你好");
        let r = st.finish();
        assert_eq!(r.message.content.as_deref(), Some("你好"));
        assert_eq!(r.message.tool_calls.unwrap()[0].function.arguments, "{\"query\":\"sodium\"}");
    }
}

#[test]
fn bytes_of_a_stream_are_read_as_text() {
    let mut st = StreamState::new();
    let deltas = st.feed("data: {\"choices\":[{\"delta\":{\"content\":\"é\"}}]}\n".as_bytes());
    assert_eq!(deltas, vec!["é"]);
    let mut st = StreamState::new();
    st.feed(b"data: {\"choices\":[{\"delta\":{\"content\":\"\xff\"}}]}\n");
    assert_eq!(st.finish().message.content.as_deref(), Some("\u{fffd}"));
}

#[test]
fn an_empty_stream_is_an_empty_reply() {
    let r = StreamState::new().finish();
    assert_eq!(r.message.content.as_deref(), Some(""));
    assert!(r.message.tool_calls.is_none());
    assert_eq!(r.usage.total_tokens, 0);
}

#[test]
fn lines_that_are_no_data_are_skipped() {
    assert!(read_line(": comment").is_none());
    assert!(read_line("data: [DONE]").is_none());
    assert!(read_line("data: {broken").is_none());
    assert!(read_line("data: {\"a\":1}").is_some());
}

#[test]
fn usage_defaults_to_zero() {
    let u = read_usage(&parse_json("{\"prompt_tokens\":3,\"total_tokens\":4}").unwrap());
    assert_eq!((u.prompt_tokens, u.completion_tokens, u.total_tokens), (3, 0, 4));
}

#[test]
fn a_reply_without_streaming() {
    let (r, deltas) = match single_reply(vec![Message::assistant("hi")], None) {
        Ok(p) => p,
        Err(e) => panic!("{e}"),
    };
    assert_eq!(deltas, vec!["hi"]);
    assert_eq!(r.message.content.as_deref(), Some("hi"));
    assert_eq!(r.usage.total_tokens, 0);
    match single_reply(Vec::new(), None) {
        Ok(_) => panic!("no reply expected"),
        Err(e) => assert_eq!(e, "LLM 返回为空"),
    }
}

#[test]
fn request_names_model_tools_and_extras() {
    let tools = vec![ToolDef::function("f", "d", parse_json("{\"type\":\"object\"}").unwrap())];
    let thinking = "enable_thinking=false".to_string();
    let body = request_body("m", &vec![Message::user("u")], Some(tools), Some(&thinking));
    assert_eq!(
        body,
        "{\"enable_thinking\":false,\"messages\":[{\"content\":\"u\",\"role\":\"user\"}],\"model\":\"m\",\"stream\":true,\"stream_options\":{\"include_usage\":true},\"tool_choice\":\"auto\",\"tools\":[{\"function\":{\"description\":\"d\",\"name\":\"f\",\"parameters\":{\"type\":\"object\"}},\"type\":\"function\"}]}"
    );
    let bare = request_body("m", &Vec::new(), None, None);
    assert_eq!(
        bare,
        "{\"messages\":[],\"model\":\"m\",\"stream\":true,\"stream_options\":{\"include_usage\":true}}"
    );
}

#[test]
fn addresses_and_errors_of_the_service() {
    assert_eq!(endpoint("http://x/v1//"), "http://x/v1/chat/completions");
    assert!(is_event_stream(Some(&"text/event-stream; charset=utf-8".to_string())));
    assert!(!is_event_stream(Some(&"application/json".to_string())));
    assert!(!is_event_stream(None));
    assert_eq!(service_error("401 Unauthorized", "no"), "LLM API 错误 401 Unauthorized: no");
}

#[test]
fn a_name_that_is_set_twice_is_written_twice() {
    let thinking = "stream=false,x=1".to_string();
    assert_eq!(
        request_body("m", &Vec::new(), None, Some(&thinking)),
        "{\"messages\":[],\"model\":\"m\",\"stream\":true,\"stream_options\":{\"include_usage\":true},\"stream\":false,\"x\":1}"
    );
}

#[test]
fn each_call_is_run_under_its_own_name() {
    let mut agent = Agent::new(llm());
    let mut turn = agent.start_turn("hello");
    assert!(agent.prepare_call(&mut turn).is_ok());
    let mut calls = vec![call("a", "search_mods"), call("b", "repair_pack")];
    calls[0].function.arguments = "{\"query\":\"x\"}".to_string();
    calls[1].function.arguments = "{\"pack_name\":\"p\"}".to_string();
    agent.on_reply(&mut turn, asks(calls));
    for (wanted, given) in
        [("search_mods", "{\"query\":\"x\"}"), ("repair_pack", "{\"pack_name\":\"p\"}")]
    {
        let (step, events) = agent.next_step(&mut turn, false);
        match step {
            TurnStep::RunTool { name, args } => assert_eq!((&name[..], &args[..]), (wanted, given)),
            _ => panic!("a tool call was expected"),
        }
        assert!(matches!(&events[0],
            AgentEvent::ToolCall { name, args } if name == wanted && args == given));
        let events = agent.on_tool(&mut turn, Ok("{}".to_string()));
        assert!(matches!(&events[0], AgentEvent::ToolResult { name, ok: true } if name == wanted));
    }
    assert!(matches!(agent.next_step(&mut turn, false).0, TurnStep::CallModel));
}

fn run_tools(agent: &mut Agent, turn: &mut Turn, outcomes: Vec<(&str, Result<String, String>)>) {
    for (wanted, o) in outcomes {
        match agent.next_step(turn, false).0 {
            TurnStep::RunTool { name, args } => {
                assert_eq!((&name[..], &args[..]), (wanted, "{}"));
            }
            _ => panic!("a tool call was expected"),
        }
        agent.on_tool(turn, o);
    }
}

#[test]
fn a_turn_runs_tools_and_ends_with_a_reply() {
    let mut agent = Agent::new(llm());
    assert_eq!(agent.messages[0].content.as_deref(), Some(SYSTEM_PROMPT));
    let mut turn = agent.start_turn("hello");
    assert!(matches!(agent.next_step(&mut turn, false).0, TurnStep::CallModel));
    assert!(agent.prepare_call(&mut turn).is_ok());
    agent.on_reply(&mut turn, asks(vec![call("a", "search_mods"), call("b", "repair_pack")]));
    run_tools(&mut agent, &mut turn, vec![("search_mods", Ok("{}".to_string())), ("repair_pack", Err("boom".to_string()))]);
    assert!(agent.prepare_call(&mut turn).is_ok());
    let events = agent.on_reply(&mut turn, says("done"));
    assert!(matches!(&events[1], AgentEvent::Reply { text } if text == "done"));
    assert!(matches!(agent.next_step(&mut turn, false).0, TurnStep::Finished));
    assert_eq!(roles(&agent), ["system", "user", "assistant", "tool", "tool", "assistant"]);
    assert_eq!(agent.messages[4].content.as_deref(), Some("{\"error\":\"boom\"}"));
    assert!(is_paired(&agent.messages));
    assert_eq!(agent.calls, 2);
    assert_eq!(agent.usage.total_tokens, 14);
}

#[test]
fn an_interrupted_turn_answers_every_call() {
    let mut agent = Agent::new(llm());
    let mut turn = agent.start_turn("hello");
    assert!(agent.prepare_call(&mut turn).is_ok());
    agent.on_reply(
        &mut turn,
        asks(vec![call("a", "search_mods"), call("b", "search_mods"), call("c", "search_mods")]),
    );
    run_tools(&mut agent, &mut turn, vec![("search_mods", Ok("{}".to_string()))]);
    let (step, events) = agent.next_step(&mut turn, true);
    assert!(matches!(step, TurnStep::Finished));
    assert!(matches!(&events[0], AgentEvent::Reply { text } if text == "⏸ 已打断当前任务"));
    assert_eq!(
        roles(&agent),
        ["system", "user", "assistant", "tool", "tool", "tool", "assistant"]
    );
    assert_eq!(agent.messages[5].content.as_deref(), Some("（用户已打断）"));
    assert!(is_paired(&agent.messages));
}

#[test]
fn a_tool_that_was_interrupted_ends_the_turn() {
    let mut agent = Agent::new(llm());
    let mut turn = agent.start_turn("hello");
    assert!(agent.prepare_call(&mut turn).is_ok());
    agent.on_reply(&mut turn, asks(vec![call("a", "build_modpack"), call("b", "search_mods")]));
    let events = agent.on_tool(&mut turn, Err("用户已打断".to_string()));
    assert_eq!(events.len(), 2);
    assert!(turn.done);
    assert!(is_paired(&agent.messages));
}

#[test]
fn calls_and_tokens_are_limited() {
    let mut agent = Agent::new(llm());
    let mut turn = agent.start_turn("hello");
    for _ in 0..3 {
        assert!(agent.prepare_call(&mut turn).is_ok());
        agent.on_reply(&mut turn, asks(vec![call("a", "search_mods")]));
        agent.on_tool(&mut turn, Ok("{}".to_string()));
    }
    assert_eq!(
        agent.prepare_call(&mut turn).unwrap_err(),
        "工具调用次数超过上限 3 (可在 config.toml 的 [llm] max_tool_iterations 调整), 本轮中止"
    );
    let mut cfg = llm();
    cfg.token_budget = 30;
    agent.update_llm(cfg);
    assert_eq!(
        agent.check_budget().unwrap_err(),
        "已达到 token 预算 (30), 为避免超支本轮中止。可在 config.toml 调整 token_budget"
    );
}

#[test]
fn old_messages_leave_a_full_context() {
    let mut cfg = llm();
    cfg.context_length = 300;
    let mut agent = Agent::new(cfg);
    for i in 0..10 {
        let mut turn = agent.start_turn(&format!("question {i} {}", "x".repeat(100)));
        agent.on_reply(&mut turn, asks(vec![call("a", "search_mods")]));
        agent.on_tool(&mut turn, Ok("{}".to_string()));
        agent.on_reply(&mut turn, says("answer"));
    }
    let before = agent.messages.len();
    let last = agent.messages.last().unwrap().content.clone();
    agent.trim_context();
    assert!(agent.messages.len() < before);
    assert_eq!(agent.messages[0].role, "system");
    assert_eq!(agent.messages.last().unwrap().content, last);
    assert!(is_paired(&agent.messages));
}

#[test]
fn usage_is_summed_up() {
    let mut agent = Agent::new(llm());
    let mut turn = agent.start_turn("x");
    agent.on_reply(&mut turn, says("y"));
    assert_eq!(
        agent.usage_summary("0.0012"),
        "调用 1 次 | 输入 1 tok | 输出 1 tok | 合计 2 tok | 费用 $0.0012 (预算 不限 tok)"
    );
}

#[test]
fn long_waits_are_reported() {
    assert!(model_watchdog(1000).is_none());
    assert!(matches!(
        model_watchdog(61_900),
        Some(AgentEvent::Progress { text, current: None, total: None }) if text == "模型思考中… (61s)"
    ));
    assert!(tool_watchdog("search_mods", 1000, 1000).is_none());
    assert!(matches!(
        tool_watchdog("search_mods", 60_000, 60_000),
        Some(AgentEvent::Progress { .. })
    ));
    assert!(tool_watchdog("search_mods", 60_000, 0).is_none());
}

#[test]
fn texts_are_cut_between_characters() {
    assert_eq!(truncate("abcdef", 4), "abcd");
    assert_eq!(truncate("你好", 4), "你");
    assert_eq!(truncate("你好", 6), "你好");
    assert_eq!(truncate("", 0), "");
}

#[test]
fn a_saved_conversation_is_loaded_as_it_was() {
    let mut agent = Agent::new(llm());
    let mut turn = agent.start_turn("hello");
    agent.on_reply(&mut turn, asks(vec![call("a", "search_mods")]));
    agent.on_tool(&mut turn, Ok("{}".to_string()));
    agent.on_reply(&mut turn, says("done"));
    let session = session_of(&agent, "now");
    assert_eq!(session.saved_at, "now");
    let mut other = Agent::new(llm());
    restore(&mut other, session);
    assert_eq!(roles(&other), roles(&agent));
    assert_eq!(other.messages[2].tool_calls.as_ref().unwrap()[0].id, "a");
    assert_eq!(other.calls, 2);
    assert_eq!(other.usage.total_tokens, 14);
}

#[test]
fn conversations_are_saved_under_one_name() {
    let mut agent = Agent::new(llm());
    assert_eq!(auto_save_target(&mut agent, "userdata", "t"), None);
    agent.start_turn("hello");
    let first = auto_save_target(&mut agent, "userdata", "20260102-030405").unwrap();
    assert_eq!(first, "userdata/sessions/auto-20260102-030405.json");
    assert_eq!(snapshot_path("userdata", "x"), "userdata/sessions/session-x.json");
    assert_eq!(auto_save_target(&mut agent, "userdata", "later").unwrap(), first);
    assert!(first.starts_with(&sessions_dir("userdata")));
}

#[test]
fn the_latest_conversation_is_found() {
    let names: Vec<String> = ["session-1.json", "notes.txt", "session-3.json", "session-2.json"]
        .iter()
        .map(|s| s.to_string())
        .collect();
    let saved = |files: &[(&str, u64)]| {
        let files = files
            .iter()
            .map(|f| SavedFile { name: f.0.to_string(), saved: f.1 })
            .collect();
        latest(&files)
    };
    let two = [("session-20260901-100000.json", 100), ("auto-20260902-100000.json", 200)];
    assert_eq!(saved(&two).unwrap(), "auto-20260902-100000.json");
    let same = [("session-1.json", 5), ("notes.txt", 9), ("session-3.json", 5)];
    assert_eq!(saved(&same).unwrap(), "session-3.json");
    assert_eq!(list(&names), vec!["session-3.json", "session-2.json", "session-1.json"]);
    assert_eq!(saved(&[("notes.txt", 1)]).unwrap_err(), "没有可加载的历史会话");
}

#[test]
fn conversations_are_shown_again() {
    let mut agent = Agent::new(llm());
    let mut turn = agent.start_turn("hello");
    agent.on_reply(&mut turn, asks(vec![call("a", "search_mods")]));
    agent.on_tool(&mut turn, Ok("{}".to_string()));
    agent.on_reply(&mut turn, says("done"));
    let shown = renderable_messages(&agent);
    let texts: Vec<String> = shown.iter().map(render_json).collect();
    assert_eq!(texts.len(), 3);
    assert!(texts[0].contains("hello"));
    assert!(texts[1].contains("search_mods"));
    assert!(texts[2].contains("done"));
}
