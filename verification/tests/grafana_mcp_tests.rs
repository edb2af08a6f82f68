use opsk::auth::AppError;
use opsk::grafana::{
    fallback_log_query, format_loki_results, format_mimir_result, format_tempo_results, log_query, loki_errors_query,
    query_base, summarize_container_resources, summarize_loki, summarize_mimir, summarize_node_resources,
    summarize_tempo, tempo_errors_query, trace_query, MimirPoint, MimirSeries,
};
use opsk::mcp::{
    call_arguments, called_tool, discovery_text, initialize_response, issue_time, method_not_found, plan_tool_call,
    rpc_method, telemetry_missing, tool_call_response, tool_kind, tools_list, McpRcaQuery, RpcMethod, ToolCall,
    ToolKind,
};

#[test]
fn summaries_of_answers() {
    assert_eq!(summarize_loki("Found 3 error log entries:\n\na\nb"), "Found 3 error log entries:");
    assert_eq!(summarize_loki("(No error logs found in the last query window)"), "(No error logs found in the last query window)");
    assert_eq!(summarize_tempo(&"x".repeat(80)), "x".repeat(60));
    assert_eq!(summarize_container_resources("### a\n1\n### b\n2"), "2 container metrics collected");
    assert_eq!(summarize_node_resources("(Mimir not configured)"), "(Mimir not configured)");
    assert_eq!(summarize_mimir("### error_rate\nRecent values:\n  10:00:00 → 0.5 \n"), "Latest error_rate: 0.5");
    assert_eq!(summarize_mimir("no arrows"), "no arrows");
    assert_eq!(summarize_mimir(""), "Metrics fetched");
    assert_eq!(
        summarize_mimir("### error_rate\nRecent values:\n  12:00:00 → 0.1\n  12:00:30 → 0.2"),
        "Latest error_rate: 0.2"
    );
    assert_eq!(
        summarize_mimir("### error_rate\n  12:00:00 → 0.3\n  12:00:30 → 0.4\n### latency\n  12:00:30 → 9.9"),
        "Latest error_rate: 0.4"
    );
}

#[test]
fn query_bases() {
    assert_eq!(
        query_base("https://prometheus-prod.grafana.net/api/prom/push", "/api/prom"),
        "https://prometheus-prod.grafana.net/api/prom"
    );
    assert_eq!(query_base("http://mimir:9009/api/v1/push/", "/api/prom"), "http://mimir:9009/api/v1");
}

#[test]
fn log_and_trace_queries() {
    assert_eq!(loki_errors_query("shop"), "{service=\"shop\"} |= \"error\" | json | level=\"error\"");
    assert_eq!(tempo_errors_query("shop"), "{status=error && resource.service.name=\"shop\"}");
    assert_eq!(
        log_query("shop", "prod", "timeout, ,db", "error"),
        "{service_name=~\".*shop.*\", namespace=\"prod\"} |= \"timeout\" |= \"db\" | json | level=~\"(?i)error\""
    );
    assert_eq!(log_query("", "", "", ""), "{service_name=~\".+\"}");
    assert_eq!(fallback_log_query("", "ns", "", "warn"), "{namespace=\"ns\"} |~ \"(?i)warn\"");
    assert_eq!(trace_query("", "", None), "{}");
    assert_eq!(
        trace_query("api", "error", Some(250)),
        "{resource.service.name=~\".*api.*\" && status=error && duration>250ms}"
    );
}

#[test]
fn log_answers_newest_first() {
    let streams = vec![vec![Some("old".to_string()), None, Some("new".to_string())]];
    assert_eq!(format_loki_results(&streams), "Found 2 error log entries:\n\nnew\nold");
    assert_eq!(format_loki_results(&vec![]), "(No error logs found in the last query window)");
}

#[test]
fn metric_answers_with_time_of_day() {
    let series = vec![MimirSeries {
        labels: "".to_string(),
        points: vec![Some(MimirPoint { secs: 3661, ts_text: "3661".to_string(), value: "5".to_string() })],
    }];
    assert_eq!(format_mimir_result("m", &series), "### m\nRecent values:\n  01:01:01 → 5");
    assert_eq!(format_mimir_result("m", &vec![]), "### m");
    let edge = |secs: i64| {
        vec![MimirSeries {
            labels: "".to_string(),
            points: vec![Some(MimirPoint { secs, ts_text: "raw".to_string(), value: "1".to_string() })],
        }]
    };
    assert_eq!(format_mimir_result("m", &edge(-1)), "### m\nRecent values:\n  23:59:59 → 1");
    assert_eq!(format_mimir_result("m", &edge(8210266876799)), "### m\nRecent values:\n  23:59:59 → 1");
    assert_eq!(format_mimir_result("m", &edge(8210266876800)), "### m\nRecent values:\n  raw → 1");
    assert_eq!(format_mimir_result("m", &edge(-8334601228800)), "### m\nRecent values:\n  00:00:00 → 1");
    assert_eq!(format_mimir_result("m", &edge(-8334601228801)), "### m\nRecent values:\n  raw → 1");
}

#[test]
fn trace_answers() {
    assert_eq!(format_tempo_results(None), "(No error traces found in the last query window)");
    assert_eq!(format_tempo_results(Some(&vec![])), "(No error traces found in the last query window)");
}

#[test]
fn rpc_dispatch() {
    assert_eq!(rpc_method("tools/list"), RpcMethod::ToolsList);
    assert_eq!(rpc_method("tools/call"), RpcMethod::ToolsCall);
    assert_eq!(rpc_method("initialize"), RpcMethod::Initialize);
    assert_eq!(rpc_method("other"), RpcMethod::Unknown);
    let nf = method_not_found(Some("1".to_string()), "foo");
    let e = nf.error.unwrap();
    assert_eq!(e.code, -32601);
    assert_eq!(e.message, "Method not found: foo");
    let init = initialize_response(None);
    assert!(init.result.unwrap().contains("protocolVersion"));
    let ok = tool_call_response(Some("2".to_string()), Ok("hi \"x\"".to_string()));
    assert_eq!(ok.result.unwrap(), "{\"content\":[{\"text\":\"hi \\\"x\\\"\",\"type\":\"text\"}]}");
    let bad = tool_call_response(None, Err(AppError::BadRequest("nope".to_string())));
    let e = bad.error.unwrap();
    assert_eq!(e.code, -32000);
    assert_eq!(e.message, "nope");
}

#[test]
fn tool_catalogue_and_arguments() {
    let tools = tools_list();
    let names: Vec<&str> = tools.iter().map(|t| t.name.as_str()).collect();
    assert_eq!(
        names,
        vec!["discover_data_sources", "check_service_health", "search_logs", "query_metrics", "search_traces", "fetch_source_code"]
    );
    assert_eq!(called_tool(r#"{"name":"search_logs","arguments":{"service":"a"}}"#), "search_logs");
    assert_eq!(called_tool("{}"), "");
    assert_eq!(call_arguments(r#"{"name":"x"}"#), "{}");
    assert_eq!(call_arguments(r#"{"arguments":{"a":1}}"#), "{\"a\":1}");
    assert_eq!(issue_time(None, McpRcaQuery { issue_time: Some("t".to_string()) }), Some("t".to_string()));
    assert_eq!(issue_time(Some("h".to_string()), McpRcaQuery { issue_time: Some("t".to_string()) }), Some("h".to_string()));
    assert_eq!(telemetry_missing().message(), "Telemetry (Grafana Cloud) not configured. Please set up telemetry in Settings.");
    assert_eq!(discovery_text(&vec!["a".to_string(), "b".to_string()]), "a\n\nb");
}

#[test]
fn tool_calls_are_planned() {
    assert_eq!(tool_kind("search_logs").unwrap(), ToolKind::SearchLogs);
    assert!(!ToolKind::FetchSourceCode.needs_telemetry());
    assert!(ToolKind::QueryMetrics.needs_telemetry());
    match tool_kind("nope") {
        Err(e) => assert_eq!(e.message(), "Unknown tool: nope"),
        Ok(_) => panic!("accepted"),
    }
    match plan_tool_call(ToolKind::CheckServiceHealth, "{}") {
        Err(e) => assert_eq!(e.message(), "service is required"),
        Ok(_) => panic!("accepted"),
    }
    assert!(matches!(
        plan_tool_call(ToolKind::CheckServiceHealth, r#"{"service":"s"}"#),
        Ok(ToolCall::CheckServiceHealth { minutes: 30, .. })
    ));
    assert!(matches!(
        plan_tool_call(ToolKind::SearchLogs, r#"{"minutes":5}"#),
        Ok(ToolCall::SearchLogs { minutes: 5, .. })
    ));
    match plan_tool_call(ToolKind::QueryMetrics, r#"{"queries":[{"name":"a","promql":"up"},{"name":"b"}]}"#) {
        Ok(ToolCall::QueryMetrics { queries, minutes }) => {
            assert_eq!(queries, vec![("a".to_string(), "up".to_string())]);
            assert_eq!(minutes, 30);
        }
        _ => panic!("unexpected plan"),
    }
    match plan_tool_call(ToolKind::SearchTraces, r#"{"service":"api"}"#) {
        Ok(ToolCall::SearchTraces { traceql, .. }) => {
            assert_eq!(traceql, "{resource.service.name=~\".*api.*\" && status=error}")
        }
        _ => panic!("unexpected plan"),
    }
    assert!(matches!(
        plan_tool_call(ToolKind::FetchSourceCode, r#"{"file_path":"a.py","start_line":3}"#),
        Ok(ToolCall::FetchSourceCode { start_line: 3, end_line: 0, .. })
    ));
    assert!(matches!(
        plan_tool_call(ToolKind::DiscoverDataSources, r#"{"label":"job"}"#),
        Ok(ToolCall::DiscoverDataSources { with_metrics: false, .. })
    ));
}
