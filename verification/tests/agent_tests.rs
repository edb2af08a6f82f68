use opsk::agent::{
    append_output_line, build_args, build_stream_input, ends_run, exit_failure_event, format_tool_input,
    image_write_error_event, is_blank_line, is_session_not_found, parse_stream_line, read_error_event, resume_events,
    timeout_event, BlockContent, ClaudeAgent, ClaudeContentBlock, ClaudeEvent, ClaudeMessage, ImageData, ResultValue,
};
use opsk::claude::{build_provider_env_vars, provider_env_of, AgentEvent, AgentPermission, StreamChunk};

fn agent() -> ClaudeAgent {
    ClaudeAgent { bin_path: "/usr/local/bin/helper".to_string(), work_dir: "/work".to_string(), timeout_ms: 1000 }
}

fn message_of(msg: &AgentEvent) -> String {
    match msg {
        AgentEvent::Error { message } => message.clone(),
        _ => panic!("not an error event"),
    }
}

#[test]
fn cli_names_follow_the_binary() {
    let a = agent();
    assert_eq!(a.command(), "helper");
    assert_eq!(a.name(), "helper-code");
    assert_eq!(a.cli_title(), "Helper");
    assert_eq!(a.project_dir(), ".helper");
    assert_eq!(a.instructions_file(), "HELPER.md");
}

#[test]
fn failure_events_name_the_cli() {
    assert_eq!(message_of(&timeout_event("Helper")), "Helper CLI timeout");
    assert_eq!(message_of(&exit_failure_event("Helper", "", "exit status: 2")), "Helper CLI exited with exit status: 2");
    assert_eq!(message_of(&exit_failure_event("Helper", "boom", "exit status: 2")), "Helper CLI error: boom");
    assert_eq!(
        message_of(&exit_failure_event("Helper", "No conversation found with session ID abc", "1")),
        "SESSION_EXPIRED"
    );
    let long = "e".repeat(600);
    assert_eq!(message_of(&exit_failure_event("H", &long, "1")), format!("H CLI error: {}", "e".repeat(500)));
    assert_eq!(message_of(&read_error_event("eof")), "Read error: eof");
    assert_eq!(message_of(&image_write_error_event("pipe")), "Failed to send images: pipe");
}

#[test]
fn args_of_a_new_session() {
    let args = build_args(
        "hi",
        None,
        Some("be brief"),
        false,
        "default",
        &vec!["Write".to_string(), "Edit".to_string()],
        &vec!["Bash".to_string()],
        Some("/tmp/mcp.json"),
        "m1",
        25,
    );
    let expected: Vec<String> = [
        "-p", "hi", "--output-format", "stream-json", "--verbose", "--max-turns", "25", "--model", "m1",
        "--permission-mode", "default", "--disallowedTools", "Write,Edit", "--allowedTools", "Bash", "--mcp-config",
        "/tmp/mcp.json", "--system-prompt", "be brief",
    ]
    .iter()
    .map(|s| s.to_string())
    .collect();
    assert_eq!(args, expected);
}

#[test]
fn args_of_a_resumed_session_with_stream_input() {
    let args = build_args("hi", Some("s1"), Some("ignored"), true, "bypassPermissions", &vec![], &vec![], None, "m", 3);
    let expected: Vec<String> = [
        "-p", "--output-format", "text", "--max-turns", "3", "--model", "m", "--permission-mode", "bypassPermissions",
        "--input-format", "stream-json", "--resume", "s1",
    ]
    .iter()
    .map(|s| s.to_string())
    .collect();
    assert_eq!(args, expected);
}

#[test]
fn stream_input_carries_images_then_text() {
    let imgs = vec![ImageData { data: "QUJD".to_string(), media_type: "image/png".to_string() }];
    let s = build_stream_input("look", &imgs);
    let v: serde_json::Value = serde_json::from_str(&s).unwrap();
    assert_eq!(v["type"], "user");
    assert_eq!(v["message"]["role"], "user");
    assert_eq!(v["message"]["content"][0]["type"], "image");
    assert_eq!(v["message"]["content"][0]["source"]["data"], "QUJD");
    assert_eq!(v["message"]["content"][1]["type"], "text");
    assert_eq!(v["message"]["content"][1]["text"], "look");
}

#[test]
fn tool_inputs_are_summarised() {
    assert_eq!(format_tool_input("Bash", r#"{"command":"ls -l"}"#), "ls -l");
    assert_eq!(format_tool_input("Read", r#"{"file_path":"/a/b.txt"}"#), "/a/b.txt");
    assert_eq!(format_tool_input("Grep", r#"{"pattern":"err"}"#), "err in .");
    assert_eq!(format_tool_input("Glob", r#"{"pattern":"*.rs","path":"src"}"#), "*.rs in src");
    let pretty = format_tool_input("Other", r#"{"a":1}"#);
    assert_eq!(pretty, "{\n  \"a\": 1\n}");
}

fn block(kind: &str) -> ClaudeContentBlock {
    ClaudeContentBlock {
        block_type: kind.to_string(),
        text: None,
        thinking: None,
        name: None,
        input: None,
        content: None,
        tool_name: None,
    }
}

#[test]
fn stream_lines_become_events() {
    assert!(parse_stream_line(None).is_empty());
    let init = ClaudeEvent {
        event_type: "system".to_string(),
        subtype: Some("init".to_string()),
        session_id: Some("s9".to_string()),
        message: None,
        result: None,
        duration_ms: None,
    };
    let ev = parse_stream_line(Some(&init));
    assert_eq!(ev.len(), 1);
    assert!(matches!(&ev[0], AgentEvent::Init { session_id: Some(s) } if s == "s9"));

    let mut think = block("thinking");
    think.thinking = Some("hmm".to_string());
    let mut text = block("text");
    text.text = Some("answer".to_string());
    let mut tool = block("tool_use");
    tool.name = Some("Bash".to_string());
    tool.input = Some(r#"{"command":"pwd"}"#.to_string());
    let assistant = ClaudeEvent {
        event_type: "assistant".to_string(),
        subtype: None,
        session_id: None,
        message: Some(ClaudeMessage { content: vec![text, tool, think] }),
        result: None,
        duration_ms: None,
    };
    let ev = parse_stream_line(Some(&assistant));
    assert_eq!(ev.len(), 3);
    assert!(matches!(&ev[0], AgentEvent::Thinking { content } if content == "hmm"));
    assert!(matches!(&ev[1], AgentEvent::Text { content } if content == "answer"));
    assert!(matches!(&ev[2], AgentEvent::ToolUse { tool_name, content } if tool_name == "Bash" && content == "pwd"));

    let result = ClaudeEvent {
        event_type: "result".to_string(),
        subtype: None,
        session_id: Some("s9".to_string()),
        message: None,
        result: Some(ResultValue::Text("fin".to_string())),
        duration_ms: Some(1200),
    };
    let ev = parse_stream_line(Some(&result));
    assert!(ends_run(&ev));
    assert!(matches!(&ev[0], AgentEvent::Done { content, session_id: Some(s), duration_ms: 1200 } if content == "fin" && s == "s9"));

    let mut res_block = block("tool_result");
    res_block.content = Some(BlockContent::Items(vec![Some("a".to_string()), None, Some("b".to_string())]));
    let user = ClaudeEvent {
        event_type: "user".to_string(),
        subtype: None,
        session_id: None,
        message: Some(ClaudeMessage { content: vec![res_block] }),
        result: None,
        duration_ms: None,
    };
    let ev = parse_stream_line(Some(&user));
    assert_eq!(ev.len(), 1);
    assert!(matches!(&ev[0], AgentEvent::ToolResult { content, .. } if content == "a\nb"));
    assert!(!ends_run(&ev));
}

#[test]
fn resumed_output_is_collected() {
    let mut full = String::new();
    append_output_line(&mut full, "one");
    append_output_line(&mut full, "two");
    assert_eq!(full, "one\ntwo");
    let ev = resume_events("  one\ntwo \n", Some("s".to_string()), 5);
    assert_eq!(ev.len(), 2);
    assert!(matches!(&ev[0], AgentEvent::Text { content } if content == "one\ntwo"));
    assert!(matches!(&ev[1], AgentEvent::Done { duration_ms: 5, .. }));
    let gone = resume_events("No conversation found with session ID x", None, 1);
    assert_eq!(gone.len(), 1);
    assert_eq!(message_of(&gone[0]), "SESSION_EXPIRED");
    assert!(is_session_not_found("Error: No conversation found with session ID abc"));
    assert!(is_blank_line("   "));
    assert!(!is_blank_line(" x "));
}

#[test]
fn run_plan_for_a_new_session() {
    let a = agent();
    let cfg = opsk::agent::AgentSessionConfig {
        session_id: None,
        message: "hello".to_string(),
        system_prompt: None,
        model: "m".to_string(),
        max_turns: 4,
        permission_mode: "default".to_string(),
        allowed_tools: vec![],
        disallowed_tools: vec![],
        env_vars: vec![("K".to_string(), "V".to_string())],
        mcp_config_path: None,
        images: vec![],
    };
    let plan = a.plan(&cfg);
    assert_eq!(plan.program, "/usr/local/bin/helper");
    assert_eq!(plan.work_dir, "/work");
    assert!(plan.stdin.is_none());
    assert!(!plan.resume);
    assert_eq!(plan.env, vec![("HOME".to_string(), "/work".to_string()), ("K".to_string(), "V".to_string())]);
    assert!(plan.args.contains(&"hello".to_string()));
}

#[test]
fn permission_modes() {
    assert_eq!(AgentPermission::from_config("bypassPermissions"), AgentPermission::Bypass);
    assert_eq!(AgentPermission::from_config("readwrite"), AgentPermission::ReadWrite);
    assert_eq!(AgentPermission::from_config("other"), AgentPermission::Readonly);
    assert_eq!(AgentPermission::Bypass.cli_flag(), "bypassPermissions");
    assert_eq!(AgentPermission::ReadWrite.cli_flag(), "default");
}

#[test]
fn provider_environment() {
    let env = build_provider_env_vars("bedrock", "{}");
    assert_eq!(env[1], ("AWS_REGION".to_string(), "us-west-2".to_string()));
    assert_eq!(env.len(), 2);
    let env = build_provider_env_vars("gateway", r#"{"base_url":"https://gw.example/v1/","api_key":"k"}"#);
    assert_eq!(
        env,
        vec![
            ("ANTHROPIC_BASE_URL".to_string(), "https://gw.example".to_string()),
            ("ANTHROPIC_API_KEY".to_string(), "k".to_string())
        ]
    );
    assert!(build_provider_env_vars("gateway", r#"{"base_url":"","api_key":""}"#).is_empty());
    assert!(build_provider_env_vars("other", "{}").is_empty());
    let pe = provider_env_of(Some(("gateway", r#"{"model":"x"}"#)));
    assert_eq!(pe.model, Some("x".to_string()));
    assert!(pe.env_vars.is_empty());
    assert!(provider_env_of(None).model.is_none());
}

#[test]
fn events_stream_unchanged() {
    let c = StreamChunk::from_agent_event(&AgentEvent::Text { content: "t".to_string() });
    assert!(matches!(c, StreamChunk::Text { content } if content == "t"));
}
