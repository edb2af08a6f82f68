use opsk::chat::{
    agent_tools, attachment_header, chat_aws_env, chat_system_prompt, claude_md, content_type_for, download_name,
    fmt_regions, listed_entry, make_session_title, oversized_image, provider_settings, resolve_session,
    scan_listing_name, split_disabled_entry, workspace_area, workspace_listing, ChatLog, ClaudeMdInput, Persist,
    WorkspaceArea, WorkspaceFile,
};
use opsk::claude::{AgentEvent, StreamChunk};

fn md_input() -> ClaudeMdInput {
    ClaudeMdInput {
        workspace: "/ws/u1".to_string(),
        project_dir: ".tool".to_string(),
        instructions_file: "TOOL.md".to_string(),
        servers: vec![],
        has_jira: false,
        glossary: vec![],
        accounts: vec![],
        clusters: vec![],
    }
}

#[test]
fn instructions_name_the_helper_and_workspace() {
    let md = claude_md(&md_input());
    assert!(md.starts_with("# Ops Agent Instructions"));
    assert!(md.contains("- **Workspace**: All output files MUST be saved to `/ws/u1`"));
    assert!(md.contains(".tool/bin/ops-api GET /api/accounts"));
    assert!(md.contains("defined in the project TOOL.md."));
    assert!(!md.contains("{{ops-api}}"));
    assert!(!md.contains("{{instructions}}"));
    assert!(!md.contains("MCP Tools Reference"));
    assert!(!md.contains("Jira ticket"));
}

#[test]
fn instructions_mention_jira_when_configured() {
    let mut inp = md_input();
    inp.has_jira = true;
    assert!(claude_md(&inp).contains("- Jira ticket: `<jira_key field>` (auto-created by the system)"));
}

#[test]
fn regions_text() {
    assert_eq!(fmt_regions(&vec![]), "ALL");
    assert_eq!(fmt_regions(&vec!["us-east-1".to_string(), "eu-west-1".to_string()]), "us-east-1, eu-west-1");
}

#[test]
fn settings_without_provider_are_read_only() {
    let s = provider_settings(None, "dm", 60000);
    assert_eq!(s.model, "dm");
    assert_eq!(s.timeout_ms, 60000);
    assert_eq!(s.max_turns, 25);
    assert_eq!(s.permission_mode, "default");
    assert_eq!(s.disallowed_tools, vec!["Write".to_string(), "Edit".to_string(), "NotebookEdit".to_string()]);
    assert_eq!(s.allowed_tools, vec!["Bash".to_string()]);
    assert!(s.env_vars.is_empty());
}

#[test]
fn settings_from_provider_config() {
    let cfg = r#"{"model":"m2","timeout":5,"max_turns":7,"permission_mode":"readwrite"}"#;
    let s = provider_settings(Some(("gateway", cfg)), "dm", 60000);
    assert_eq!(s.model, "m2");
    assert_eq!(s.timeout_ms, 5);
    assert_eq!(s.max_turns, 7);
    assert_eq!(s.permission_mode, "default");
    assert!(s.disallowed_tools.is_empty());
    assert_eq!(s.allowed_tools.len(), 9);
    let b = provider_settings(Some(("bedrock", r#"{"permission_mode":"bypassPermissions"}"#)), "dm", 1);
    assert_eq!(b.permission_mode, "bypassPermissions");
    assert!(b.allowed_tools.is_empty());
    assert_eq!(b.env_vars[0].0, "CLAUDE_CODE_USE_BEDROCK");
}

#[test]
fn tools_of_mcp_servers() {
    let (allowed, disallowed) = agent_tools(
        &vec!["Bash".to_string()],
        &vec![],
        "default",
        &vec!["kb".to_string()],
        &vec![("kb".to_string(), "search".to_string())],
    );
    assert_eq!(allowed, vec!["Bash".to_string(), "mcp__kb__*".to_string()]);
    assert_eq!(disallowed, vec!["mcp__kb__search".to_string()]);
    let (allowed, _) = agent_tools(&vec![], &vec![], "bypassPermissions", &vec!["kb".to_string()], &vec![]);
    assert!(allowed.is_empty());
    assert_eq!(split_disabled_entry("kb:search:x"), Some(("kb".to_string(), "search:x".to_string())));
    assert_eq!(split_disabled_entry("nocolon"), None);
}

#[test]
fn session_titles_and_choice() {
    assert_eq!(make_session_title("short"), "short");
    let long = "x".repeat(60);
    assert_eq!(make_session_title(&long), format!("{}...", "x".repeat(50)));
    assert_eq!(resolve_session(true, Some("a".to_string()), Some("b".to_string())), None);
    assert_eq!(resolve_session(false, Some("a".to_string()), Some("b".to_string())), Some("a".to_string()));
    assert_eq!(resolve_session(false, None, Some("b".to_string())), Some("b".to_string()));
}

#[test]
fn system_prompt_points_at_instructions() {
    assert_eq!(
        chat_system_prompt(None, "TOOL.md"),
        "You are Ops AI, a multi-cloud infrastructure operations assistant.\nAnswer in the user's language. Be concise and actionable.\nFollow all instructions in TOOL.md carefully."
    );
    assert!(chat_system_prompt(Some("extra"), "TOOL.md").ends_with("carefully.\n\nextra"));
}

#[test]
fn image_size_limit() {
    assert_eq!(oversized_image(&vec![10, 7 * 1024 * 1024, 7 * 1024 * 1024 + 1, 8 * 1024 * 1024]), Some(2));
    assert_eq!(oversized_image(&vec![1, 2]), None);
}

#[test]
fn aws_environment_of_a_chat() {
    let env = chat_aws_env(Some("arn:r".to_string()), Some("".to_string()), &vec!["eu-west-1".to_string()]);
    assert_eq!(
        env,
        vec![
            ("AWS_ROLE_ARN".to_string(), "arn:r".to_string()),
            ("AWS_ROLE_SESSION_NAME".to_string(), "opsk-chat".to_string()),
            ("AWS_DEFAULT_REGION".to_string(), "eu-west-1".to_string()),
        ]
    );
    assert_eq!(chat_aws_env(None, Some("p".to_string()), &vec![]), vec![("AWS_PROFILE".to_string(), "p".to_string())]);
}

#[test]
fn chat_log_numbers_messages() {
    let (mut log, user_seq) = ChatLog::start(4, false);
    assert_eq!(user_seq, 5);
    let step = log.on_event(&AgentEvent::Text { content: "early".to_string() }, "hello");
    assert!(step.chunk.is_none());
    assert!(step.actions.is_empty());
    let step = log.on_event(&AgentEvent::Init { session_id: Some("s1".to_string()) }, "hello");
    assert!(matches!(step.chunk, Some(StreamChunk::Init { .. })));
    assert_eq!(step.actions.len(), 2);
    assert!(matches!(&step.actions[0], Persist::SaveSession { session_id, title: Some(t) } if session_id == "s1" && t == "hello"));
    let step = log.on_event(&AgentEvent::Text { content: "a".to_string() }, "hello");
    assert!(matches!(&step.actions[0], Persist::CreateText { seq: 6, content } if content == "a"));
    let step = log.on_event(&AgentEvent::Text { content: "b".to_string() }, "hello");
    assert!(matches!(&step.actions[0], Persist::AppendText { content } if content == "b"));
    let step = log.on_event(&AgentEvent::ToolUse { tool_name: "Bash".to_string(), content: "ls".to_string() }, "hello");
    assert!(matches!(&step.actions[0], Persist::SaveMessage { seq: 7, .. }));
    let step = log.on_event(
        &AgentEvent::Done { content: "".to_string(), session_id: None, duration_ms: 9 },
        "hello",
    );
    assert!(matches!(&step.actions[0], Persist::SetDuration { duration_ms: 9 }));
    assert!(!log.text_started);
    assert_eq!(log.seq, 7);
}

#[test]
fn workspace_paths() {
    assert!(matches!(workspace_area("scans/r.json"), Ok(WorkspaceArea::Scans)));
    assert!(matches!(workspace_area("out/r.csv"), Ok(WorkspaceArea::User)));
    match workspace_area("../etc/passwd") {
        Err(e) => assert_eq!(e.message(), "Invalid filename"),
        Ok(_) => panic!("accepted"),
    }
    assert!(workspace_area("a\\b").is_err());
    assert!(listed_entry("report.csv", "TOOL.md"));
    assert!(!listed_entry(".hidden", "TOOL.md"));
    assert!(!listed_entry("TOOL.md", "TOOL.md"));
    assert!(!listed_entry("ops-api", "TOOL.md"));
    assert_eq!(content_type_for("a.csv"), "text/csv");
    assert_eq!(content_type_for("a.bin"), "application/octet-stream");
    assert_eq!(download_name("dir/sub/r.xlsx"), "r.xlsx");
    assert_eq!(attachment_header("dir/r.pdf"), "attachment; filename=\"r.pdf\"");
    assert_eq!(scan_listing_name("x.json"), "scans/x.json");
}

fn file(name: &str, modified: &str) -> WorkspaceFile {
    WorkspaceFile { name: name.to_string(), size: 1, modified: modified.to_string(), is_dir: false }
}

#[test]
fn listing_is_newest_first() {
    let out = workspace_listing(
        vec![file("a", "2024-01-01 10:00"), file("b", "2024-03-01 10:00")],
        vec![file("s", "2024-02-01 10:00")],
    );
    let names: Vec<&str> = out.iter().map(|f| f.name.as_str()).collect();
    assert_eq!(names, vec!["b", "scans/s", "a"]);
}
