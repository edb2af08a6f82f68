use opsk::approval::jira_ticket_text;
use opsk::auth::{agent_claims, claims_json, rca_claims, security_headers, sign_token, AuthUser};
use opsk::rca::StepRecord;
use opsk::setup::{
    approval_hook_script, approval_hook_settings, mcp_config, mcp_server_entry, ops_api_script, rca_hook_scripts,
    rca_hook_settings, rca_initial_state, rca_issue_context, rca_mcp_config, select_servers, McpServerRow,
};
use opsk::skill::{clone_failure, update_source};

fn parse(s: &str) -> serde_json::Value {
    serde_json::from_str(s).unwrap()
}

#[test]
fn helper_script_holds_base_and_token() {
    let s = ops_api_script("http://localhost:8080", "tok123");
    assert!(s.starts_with("#!/usr/bin/env bash\n"));
    assert!(s.contains("BASE=\"http://localhost:8080\"\nTOKEN=\"tok123\"\n"));
    assert!(s.contains("METHOD=\"${1:?Usage: ops-api METHOD PATH [BODY]}\""));
    assert!(s.ends_with("exec curl \"${ARGS[@]}\" \"$BASE$PATH_ARG\"\n"));
}

#[test]
fn approval_hook_points_at_the_flow() {
    let s = approval_hook_script(".tool", "TOOL.md");
    assert!(s.contains("Follow the steps in TOOL.md:"));
    assert!(s.contains("1. .tool/bin/ops-api POST /api/approvals"));
    assert!(s.contains("Use the Approval Flow in TOOL.md."));
    assert!(!s.contains("{{"));
    let settings = parse(&approval_hook_settings("/w/.tool/hooks/enforce-approval.sh"));
    assert_eq!(settings["hooks"]["PreToolUse"][0]["matcher"], "Bash");
    assert_eq!(settings["hooks"]["PreToolUse"][0]["hooks"][0]["type"], "command");
    assert_eq!(settings["hooks"]["PreToolUse"][0]["hooks"][0]["command"], "/w/.tool/hooks/enforce-approval.sh");
    assert!(approval_hook_settings("x").contains("\n  \"hooks\""));
}

#[test]
fn investigation_hooks() {
    let scripts = rca_hook_scripts(".tool");
    let names: Vec<&str> = scripts.iter().map(|s| s.0.as_str()).collect();
    assert_eq!(names, vec!["post-search-logs.sh", "post-search-traces.sh", "validate-stop.sh"]);
    assert!(scripts[0].1.contains("STATE=\".tool/rca-state.json\""));
    assert!(scripts[2].1.contains("\".tool/issue-context.json\""));
    assert!(!scripts[1].1.contains("{{project}}"));
    let settings = parse(&rca_hook_settings("/w/.tool/hooks"));
    assert_eq!(settings["hooks"]["PostToolUse"][0]["matcher"], "mcp__opsk-rca__search_logs");
    assert_eq!(settings["hooks"]["PostToolUse"][1]["hooks"][0]["command"], "/w/.tool/hooks/post-search-traces.sh");
    assert_eq!(settings["hooks"]["Stop"][0]["hooks"][0]["command"], "/w/.tool/hooks/validate-stop.sh");
}

#[test]
fn investigation_state_files() {
    let ctx = parse(&rca_issue_context("OOM \"x\"", None, "high", "grafana", &vec!["OOM".to_string()]));
    assert_eq!(ctx["title"], "OOM \"x\"");
    assert!(ctx["description"].is_null());
    assert_eq!(ctx["error_keywords_in_title"], true);
    assert_eq!(ctx["extracted_keywords"], parse("[\"OOM\"]"));
    let st = parse(&rca_initial_state(&vec![]));
    assert_eq!(st["error_keywords_in_title"], false);
    assert_eq!(st["extracted_keywords"], parse("[]"));
    assert_eq!(st["logs_retry_count"], 0);
    assert_eq!(st["stop_blocked_count"], 0);
    assert_eq!(st["logs_found"], false);
}

fn row(id: u128, name: &str, transport: &str) -> McpServerRow {
    McpServerRow {
        id,
        name: name.to_string(),
        transport_type: transport.to_string(),
        url: Some("/api/mcp/rollouts".to_string()),
        command: Some("npx".to_string()),
        args: "[\"-y\",\"srv\"]".to_string(),
        headers: "{}".to_string(),
        env: "{}".to_string(),
    }
}

#[test]
fn mcp_entries() {
    let e = parse(&mcp_server_entry(&row(1, "opsk-rollouts", "http"), "http://localhost:8080/", Some("tk")));
    assert_eq!(e["type"], "http");
    assert_eq!(e["url"], "http://localhost:8080/api/mcp/rollouts");
    assert_eq!(e["headers"]["Authorization"], "Bearer tk");
    assert!(e.get("env").is_none());
    let e = parse(&mcp_server_entry(&row(2, "other", "sse"), "http://b", Some("tk")));
    assert!(e.get("headers").is_none());
    let e = parse(&mcp_server_entry(&row(3, "local", "stdio"), "http://b", None));
    assert_eq!(e["command"], "npx");
    assert_eq!(e["args"], parse("[\"-y\",\"srv\"]"));
    assert!(e.get("env").is_none());
}

#[test]
fn mcp_configuration_file() {
    let all = vec![row(1, "a", "http"), row(2, "b", "stdio")];
    assert_eq!(select_servers(&all, None).len(), 2);
    assert_eq!(select_servers(&all, Some(&vec![])).len(), 2);
    let only = select_servers(&all, Some(&vec![2]));
    assert_eq!(only.len(), 1);
    assert_eq!(only[0].name, "b");
    let (text, names) = mcp_config(&all, "http://b", None);
    assert_eq!(names, vec!["a".to_string(), "b".to_string()]);
    let v = parse(&text.unwrap());
    assert_eq!(v["mcpServers"]["b"]["command"], "npx");
    let (none, names) = mcp_config(&vec![], "http://b", None);
    assert!(none.is_none());
    assert!(names.is_empty());
    let r = parse(&rca_mcp_config("http://h/", "2024-01-01T00:00:00+00:00", Some("t")));
    assert_eq!(r["mcpServers"]["opsk-rca"]["url"], "http://h/api/mcp/rca?issue_time=2024-01-01T00%3A00%3A00%2B00%3A00");
    assert_eq!(r["mcpServers"]["opsk-rca"]["headers"]["Authorization"], "Bearer t");
    assert_eq!(r["mcpServers"]["opsk-rca"]["headers"]["X-Issue-Time"], "2024-01-01T00:00:00+00:00");
}

#[test]
fn token_claims() {
    let u = AuthUser { user_id: 42, role: "member".to_string(), tenant_id: Some(3), username: "m".to_string() };
    let c = agent_claims(&u, 1000);
    assert_eq!(c.sub, 42);
    assert_eq!(c.exp, 8200);
    assert_eq!(c.token_type, "access");
    let r = rca_claims(Some(3), 10);
    assert_eq!(r.sub, 0);
    assert_eq!(r.role, "tenant_admin");
    assert_eq!(r.username, "rca-agent");
    assert_eq!(r.exp, 7210);
}

fn base64url_decode(s: &str) -> Vec<u8> {
    let alphabet = "ABCDEFGHIJKLMNOPQRSTUVWXYZabcdefghijklmnopqrstuvwxyz0123456789-_";
    let mut bits: u32 = 0;
    let mut n = 0;
    let mut out = Vec::new();
    for ch in s.chars() {
        bits = (bits << 6) | alphabet.find(ch).unwrap() as u32;
        n += 6;
        if n >= 8 {
            n -= 8;
            out.push((bits >> n) as u8);
            bits &= (1 << n) - 1;
        }
    }
    out
}

#[test]
fn signed_tokens_carry_the_claims() {
    let u = AuthUser {
        user_id: 0x0123_4567_89ab_cdef_0011_2233_4455_6677,
        role: "member".to_string(),
        tenant_id: None,
        username: "m\"x".to_string(),
    };
    let c = agent_claims(&u, 1000);
    assert_eq!(
        claims_json(&c),
        r#"{"sub":"01234567-89ab-cdef-0011-223344556677","role":"member","tenant_id":null,"username":"m\"x","token_type":"access","iat":1000,"exp":8200}"#
    );
    let r = rca_claims(Some(3), 10);
    assert!(claims_json(&r).contains(r#""tenant_id":"00000000-0000-0000-0000-000000000003""#));
    let token = sign_token(&c, "s3cret").unwrap();
    assert_eq!(token.split('.').count(), 3);
    let payload = base64url_decode(token.split('.').nth(1).unwrap());
    assert_eq!(String::from_utf8(payload).unwrap(), claims_json(&c));
    let mut validation = jsonwebtoken::Validation::new(jsonwebtoken::Algorithm::HS256);
    validation.validate_exp = false;
    validation.required_spec_claims.clear();
    let data = jsonwebtoken::decode::<serde_json::Value>(
        &token,
        &jsonwebtoken::DecodingKey::from_secret(b"s3cret"),
        &validation,
    )
    .unwrap();
    assert_eq!(data.claims["sub"], "01234567-89ab-cdef-0011-223344556677");
    assert_eq!(data.claims["username"], "m\"x");
    assert_eq!(data.claims["exp"], 8200);
    assert!(jsonwebtoken::decode::<serde_json::Value>(
        &token,
        &jsonwebtoken::DecodingKey::from_secret(b"other"),
        &validation,
    )
    .is_err());
}

#[test]
fn response_headers() {
    let h = security_headers();
    assert_eq!(h.len(), 6);
    assert_eq!(h[0], ("X-Content-Type-Options", "nosniff"));
    assert_eq!(h[4], ("Strict-Transport-Security", "max-age=31536000; includeSubDomains"));
}

#[test]
fn saved_steps_and_small_texts() {
    let rec = StepRecord {
        step_id: "step_1".to_string(),
        tool_name: "search_logs".to_string(),
        reasoning: "r".to_string(),
        label: "l".to_string(),
        analysis: "a".to_string(),
        data_text: "d\"".to_string(),
    };
    assert_eq!(
        rec.to_json(12),
        "{\"stepId\":\"step_1\",\"toolName\":\"search_logs\",\"reasoning\":\"r\",\"label\":\"l\",\"status\":\"complete\",\"analysis\":\"a\",\"dataText\":\"d\\\"\",\"durationMs\":12}"
    );
    assert_eq!(jira_ticket_text("scale web", None), ("[Ops] scale web".to_string(), "scale web".to_string()));
    assert_eq!(jira_ticket_text("c", Some("why")).1, "why");
    assert_eq!(clone_failure("  fatal: nope \n").message(), "Git clone failed: fatal: nope");
    let (dir, url, sub) = update_source(&Some("/s/x".to_string()), &Some("https://g/r#skills/x".to_string())).unwrap();
    assert_eq!(dir, "/s/x");
    assert_eq!(url, "https://g/r");
    assert_eq!(sub, Some("skills/x".to_string()));
    assert!(update_source(&None, &Some("u".to_string())).is_err());
}
