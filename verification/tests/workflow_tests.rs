use opsk::approval::{
    execution_comment, execution_outcome, execution_prompt, jira_base_url, marked_follow_up, raw_prompt,
    review_follow_up, submitted_notice, ApprovalStore, Audience, UpdateApprovalRequest,
};
use opsk::auth::{AppError, AuthUser};
use opsk::claude::{AgentEvent, StreamChunk};
use opsk::rca::{
    build_system_prompt, extract_error_keywords, extract_target_service, initial_message, rca_mcp_url, spawn_failure,
    tool_label, IssueFacts, RcaTracker,
};
use opsk::rollout::{
    action_notice, compute_changes, plan_watchers, retry_delay, snapshot_of_json, RolloutSnapshot, WatchAction, WatchEvent,
    WatchState,
};
use opsk::topology::{
    build_topology, cluster_not_found, is_excluded_ns, merge_topologies, topology_scope, ClusterCtx, ClusterResources,
    DeploymentInfo, NodeInfo, RolloutInfo, ServiceInfo, TopologyQuery, TopologyScope,
};

fn user(id: u128, role: &str, tenant: Option<u128>) -> AuthUser {
    AuthUser { user_id: id, role: role.to_string(), tenant_id: tenant, username: format!("u{}", id) }
}

#[test]
fn approval_lifecycle() {
    let requester = user(1, "member", Some(7));
    let admin = user(2, "tenant_admin", Some(7));
    let other_admin = user(3, "tenant_admin", Some(8));
    let mut store = ApprovalStore::new();
    let a = store.create(&requester, 100, "scale web", Some("load"), Some(r#"{"prompt":"kubectl scale"}"#), 1_000).unwrap();
    assert_eq!(a.status, "pending");
    assert_eq!((a.created_at, a.reviewed_at, a.executed_at, a.withdrawn_at), (1_000, None, None, None));
    assert!(matches!(store.create(&requester, 100, "again", None, None, 1_001), Err(AppError::Conflict(m)) if m == "Approval already exists"));
    assert_eq!(store.count_pending(&admin), 1);
    assert_eq!(store.count_pending(&requester), 0);
    assert!(matches!(store.approve(&requester, 100, 2_000), Err(AppError::Forbidden(m)) if m == "Only admins can approv requests"));
    assert!(matches!(store.approve(&other_admin, 100, 2_000), Err(AppError::Forbidden(m)) if m == "Access denied"));
    let done = store.approve(&admin, 100, 2_000).unwrap();
    assert_eq!(done.status, "approved");
    assert_eq!(done.reviewed_by, Some(2));
    assert_eq!(done.reviewed_at, Some(2_000));
    assert_eq!(done.created_at, 1_000);
    assert!(matches!(store.reject(&admin, 100, 2_001), Err(AppError::BadRequest(m)) if m == "Approval is already approved"));
    let f = review_follow_up(&done, "boss");
    assert!(f.execute);
    assert_eq!(f.notice.message, "approved by boss");
    assert!(matches!(f.notice.audience, Audience::User(1)));
    assert_eq!(raw_prompt(&done), "kubectl scale");
    store.set_execution(100, "executing", None, Some(2_100));
    store.set_execution(100, "executed", Some(r#"{"output":"ok"}"#.to_string()), None);
    let marked = store.mark_result(&admin, 100, false).unwrap();
    assert_eq!(marked.status, "failed");
    assert_eq!(marked.execution_result.as_deref(), Some(r#"{"error":"ok"}"#));
    assert_eq!(marked.marked_by, Some(2));
    assert_eq!((marked.reviewed_at, marked.executed_at, marked.withdrawn_at), (Some(2_000), Some(2_100), None));
    let (n, _) = marked_follow_up(&marked, "boss", false);
    assert_eq!(n.title, "Result marked as failure by boss");
}

#[test]
fn marked_results_keep_the_earlier_text() {
    let requester = user(1, "member", Some(7));
    let admin = user(2, "tenant_admin", Some(7));
    let mut store = ApprovalStore::new();
    for (id, record, success, kept) in [
        (10, Some(r#"{"error":"disk full"}"#), true, r#"{"output":"disk full"}"#),
        (11, Some(r#"{"output":5,"error":"x"}"#), true, r#"{"output":"Manually marked by admin"}"#),
        (12, None, false, r#"{"error":"Manually marked by admin"}"#),
        (13, Some("not json"), false, r#"{"error":"Manually marked by admin"}"#),
    ] {
        store.create(&requester, id, "cmd", None, None, 50).unwrap();
        store.approve(&admin, id, 2_000).unwrap();
        store.set_execution(id, "executed", record.map(|r| r.to_string()), None);
        let m = store.mark_result(&admin, id, success).unwrap();
        assert_eq!(m.execution_result.as_deref(), Some(kept));
    }
}

#[test]
fn approvals_are_listed_newest_first() {
    let requester = user(1, "member", Some(7));
    let mut store = ApprovalStore::new();
    store.create(&requester, 1, "a", None, None, 300).unwrap();
    store.create(&requester, 2, "b", None, None, 100).unwrap();
    store.create(&requester, 3, "c", None, None, 200).unwrap();
    let ids: Vec<u128> = store.list(&requester, None).iter().map(|a| a.id).collect();
    assert_eq!(ids, vec![1, 3, 2]);
}

#[test]
fn own_requests_and_withdrawal() {
    let requester = user(1, "tenant_admin", Some(7));
    let mut store = ApprovalStore::new();
    store.create(&requester, 5, "cmd", None, None, 70).unwrap();
    assert!(matches!(store.approve(&requester, 5, 2_000), Err(AppError::Forbidden(m)) if m == "Cannot approve or reject your own request"));
    assert!(store.withdraw(&user(9, "member", Some(7)), 5, 80).is_err());
    let w = store.withdraw(&requester, 5, 81).unwrap();
    assert_eq!(w.status, "withdrawn");
    assert_eq!((w.withdrawn_at, w.reviewed_at, w.created_at), (Some(81), None, 70));
    assert!(matches!(store.approve(&user(4, "super_admin", None), 77, 2_000), Err(AppError::NotFound(_))));
    let n = submitted_notice(&w, "alice");
    assert_eq!(n.title, "New approval request from alice");
    assert_eq!(n.event, "approval_submitted");
}

#[test]
fn execution_texts() {
    let (status, text, result) = execution_outcome(Err("boom".to_string()));
    assert_eq!(status, "failed");
    assert_eq!(text, "boom");
    assert_eq!(result, r#"{"error":"boom"}"#);
    let (status, _, result) = execution_outcome(Ok("line \"1\"\n".to_string()));
    assert_eq!(status, "executed");
    assert_eq!(result, r#"{"output":"line \"1\"\n"}"#);
    assert!(execution_prompt("", "do it").ends_with("## Approved Operation\ndo it"));
    let long = "x".repeat(9000);
    let c = execution_comment(&long);
    assert!(c.starts_with("⚙️ Execution completed — awaiting admin review\n\n"));
    assert!(c.ends_with(&format!("{}...", "x".repeat(10))));
    assert_eq!(c.chars().count(), "⚙️ Execution completed — awaiting admin review\n\n".chars().count() + 2003);
    assert_eq!(jira_base_url(r#"{"base_url":"https://j.example/"}"#), Some("https://j.example".to_string()));
    assert_eq!(jira_base_url("{}"), None);
    let req = UpdateApprovalRequest { jira_key: None };
    assert!(matches!(req.jira_key_to_set(), Err(AppError::BadRequest(m)) if m == "No fields to update"));
}

fn snap(phase: &str, step: i64, ready: i64, image: &str) -> RolloutSnapshot {
    RolloutSnapshot { phase: phase.to_string(), current_step: step, replicas: 3, ready_replicas: ready, image: image.to_string() }
}

#[test]
fn a_watch_reports_only_changes_after_the_listing() {
    let web = |s: RolloutSnapshot| WatchEvent::Apply { namespace: Some("shop".to_string()), name: Some("web".to_string()), snapshot: s };
    let mut w = WatchState::new();
    let reported: Vec<bool> = vec![
        WatchEvent::Init,
        WatchEvent::InitApply { namespace: Some("shop".to_string()), name: Some("web".to_string()), snapshot: snap("Healthy", 1, 3, "a:1") },
        web(snap("Paused", 1, 3, "a:1")),
        WatchEvent::InitDone,
        web(snap("Paused", 1, 3, "a:1")),
        web(snap("Healthy", 1, 3, "a:2")),
        web_other(),
        WatchEvent::Init,
        web(snap("Degraded", 0, 0, "a:3")),
        WatchEvent::InitDone,
        WatchEvent::Delete { namespace: Some("shop".to_string()), name: Some("web".to_string()) },
        WatchEvent::Delete { namespace: Some("shop".to_string()), name: Some("web".to_string()) },
    ]
    .into_iter()
    .map(|e| w.on_event(e).is_some())
    .collect();
    assert_eq!(reported, vec![false, false, false, false, false, true, false, false, false, false, true, false]);
}

fn web_other() -> WatchEvent {
    WatchEvent::Apply { namespace: None, name: Some("api".to_string()), snapshot: snap("Healthy", 0, 1, "b") }
}

#[test]
fn an_investigation_run_keeps_others_apart() {
    let mut reg = opsk::rca::RcaRegistry::new();
    reg.register(2);
    reg.register(1);
    assert!(reg.is_running(1));
    reg.register(3);
    reg.remove(2);
    assert!(reg.is_running(1));
    reg.remove(1);
    assert!(!reg.is_running(1));
    assert!(reg.is_running(3) && !reg.is_running(2));
}

#[test]
fn rollout_changes_are_described() {
    let (lines, kind) = compute_changes(&snap("Progressing", 1, 2, "a:1"), &snap("Healthy", 2, 3, "a:1"));
    assert_eq!(lines, vec!["phase: Progressing → Healthy".to_string(), "step: 1 → 2".to_string(), "replicas: 2/3 → 3/3".to_string()]);
    assert_eq!(kind, "phase_change");
    let (_, kind) = compute_changes(&snap("Healthy", 1, 3, "a:1"), &snap("Healthy", 1, 3, "a:2"));
    assert_eq!(kind, "image_update");
    let s = RolloutSnapshot::from_fields(None, None, Some(2), None, None);
    assert_eq!(s.phase, "Unknown");
    assert_eq!(s.replicas, 2);
}

#[test]
fn rollout_watch_reports_after_initial_listing() {
    let mut w = WatchState::new();
    assert!(w.on_event(WatchEvent::Init).is_none());
    assert!(w
        .on_event(WatchEvent::InitApply { namespace: Some("shop".to_string()), name: Some("web".to_string()), snapshot: snap("Healthy", 1, 3, "a:1") })
        .is_none());
    assert!(w.on_event(WatchEvent::InitDone).is_none());
    let same = w.on_event(WatchEvent::Apply { namespace: Some("shop".to_string()), name: Some("web".to_string()), snapshot: snap("Healthy", 1, 3, "a:1") });
    assert!(same.is_none());
    let changed = w.on_event(WatchEvent::Apply { namespace: Some("shop".to_string()), name: Some("web".to_string()), snapshot: snap("Paused", 1, 3, "a:1") });
    match &changed {
        Some(a @ WatchAction::Changed { action, .. }) => {
            assert_eq!(action, "phase_change");
            let (title, body) = action_notice("prod", a);
            assert_eq!(title, "shop/web — phase change");
            assert_eq!(body, "Cluster: prod | phase: Healthy → Paused");
        }
        _ => panic!("expected a change"),
    }
    let new_one = w.on_event(WatchEvent::Apply { namespace: None, name: Some("api".to_string()), snapshot: snap("Healthy", 0, 1, "b") });
    assert!(new_one.is_none());
    let gone = w.on_event(WatchEvent::Delete { namespace: None, name: Some("api".to_string()) });
    match &gone {
        Some(a @ WatchAction::Deleted { namespace, name }) => {
            assert_eq!(namespace, "default");
            assert_eq!(name, "api");
            assert_eq!(action_notice("prod", a), ("default/api — deleted".to_string(), "Cluster: prod".to_string()));
        }
        _ => panic!("expected a deletion"),
    }
}

#[test]
fn watcher_manager_plan() {
    let p = plan_watchers(&vec![(1, false), (2, true), (3, false)], &vec![1, 2, 4]);
    assert_eq!(p.abort, vec![3]);
    assert_eq!(p.drop_finished, vec![2]);
    let mut spawn = p.spawn.clone();
    spawn.sort();
    assert_eq!(spawn, vec![2, 4]);
    assert_eq!(retry_delay(40, true), (5, 10));
    assert_eq!(retry_delay(200, false), (200, 300));
}

fn ctx() -> ClusterCtx {
    ClusterCtx { cluster_name: "prod".to_string(), cluster_id: "c1".to_string() }
}

fn empty_resources() -> ClusterResources {
    ClusterResources {
        nodes: vec![],
        deployments: vec![],
        replica_sets: vec![],
        rollouts: vec![],
        pods: vec![],
        services: vec![],
        ingresses: vec![],
    }
}

#[test]
fn topology_of_a_cluster() {
    let mut res = empty_resources();
    res.nodes.push(NodeInfo {
        name: Some("n1".to_string()),
        ready_status: Some("True".to_string()),
        cpu: Some("4".to_string()),
        memory: None,
        instance_type: Some("m5.large".to_string()),
        zone: Some("a".to_string()),
    });
    res.deployments.push(DeploymentInfo {
        namespace: Some("shop".to_string()),
        name: Some("web".to_string()),
        replicas: Some(2),
        ready_replicas: Some(1),
        available_replicas: Some(1),
        template_labels: Some(vec![("app".to_string(), "web".to_string())]),
    });
    res.deployments.push(DeploymentInfo {
        namespace: Some("kube-system".to_string()),
        name: Some("dns".to_string()),
        replicas: Some(1),
        ready_replicas: Some(1),
        available_replicas: Some(1),
        template_labels: None,
    });
    res.services.push(ServiceInfo {
        namespace: Some("shop".to_string()),
        name: Some("web".to_string()),
        service_type: Some("ClusterIP".to_string()),
        ports: vec![80],
        selector: Some(vec![("app".to_string(), "web".to_string())]),
    });
    let (nodes, edges) = build_topology(&ctx(), &res);
    let ids: Vec<&str> = nodes.iter().map(|n| n.id.as_str()).collect();
    assert_eq!(ids, vec!["c1/node/n1", "c1/deploy/shop/web", "c1/svc/shop/web"]);
    assert_eq!(nodes[0].status, "healthy");
    assert_eq!(nodes[0].subtitle, Some("m5.large · a".to_string()));
    assert_eq!(nodes[1].status, "warning");
    assert_eq!(nodes[1].replicas, Some("1/2".to_string()));
    assert!(edges.iter().any(|e| e.source == "c1/svc/shop/web" && e.target == "c1/deploy/shop/web"));
    assert!(is_excluded_ns("kube-system"));
    assert!(!is_excluded_ns("shop"));
    let merged = merge_topologies(vec![Some((nodes, edges)), None]);
    assert_eq!(merged.nodes.len(), 3);
}

#[test]
fn topology_requests() {
    assert!(matches!(topology_scope(&TopologyQuery { force_refresh: None, cluster_id: None }), Ok(TopologyScope::AllClusters { refresh: false })));
    match topology_scope(&TopologyQuery { force_refresh: Some(true), cluster_id: Some("67e55044-10b1-426f-9247-bb680e5fe0c8".to_string()) }) {
        Ok(TopologyScope::OneCluster { id, key, refresh }) => {
            assert_eq!(id, 0x67e5504410b1426f9247bb680e5fe0c8);
            assert_eq!(key, "67e55044-10b1-426f-9247-bb680e5fe0c8");
            assert!(refresh);
        }
        _ => panic!("unexpected scope"),
    }
    assert!(matches!(topology_scope(&TopologyQuery { force_refresh: None, cluster_id: Some("nope".to_string()) }), Err(AppError::BadRequest(m)) if m == "Invalid cluster_id"));
    assert_eq!(cluster_not_found().message(), "Cluster not found");
    for (text, ok) in [
        ("67E55044-10B1-426F-9247-BB680E5FE0C8", true),
        ("{67e55044-10b1-426f-9247-bb680e5fe0c8}", true),
        ("URN:uuid:67e55044-10b1-426f-9247-bb680e5fe0c8", true),
        ("67e5504410b1426f9247bb680e5fe0c8", true),
        ("67e55044-10b1-426f-9247-bb680e5fe0cg", false),
        ("67e5504410b1-426f-9247-bb680e5fe0c8", false),
        ("67e55044-10b1-426f-9247-bb680e5fe0c", false),
    ] {
        match topology_scope(&TopologyQuery { force_refresh: None, cluster_id: Some(text.to_string()) }) {
            Ok(TopologyScope::OneCluster { id, .. }) => {
                assert!(ok, "{text}");
                assert_eq!(id, 0x67e5504410b1426f9247bb680e5fe0c8);
            }
            Err(_) => assert!(!ok, "{text}"),
            _ => panic!("unexpected scope"),
        }
    }
}

#[test]
fn rca_inputs() {
    assert_eq!(extract_target_service(Some(r#"{"labels":{"service":"pay"},"service":"x"}"#)), Some("pay".to_string()));
    assert_eq!(extract_target_service(Some(r#"{"service_name":"api"}"#)), Some("api".to_string()));
    assert_eq!(extract_target_service(None), None);
    assert_eq!(
        rca_mcp_url("https://ops.example/", "2024-01-01T00:00:00+08:00"),
        "https://ops.example/api/mcp/rca?issue_time=2024-01-01T00%3A00%3A00%2B08%3A00"
    );
    assert_eq!(
        extract_error_keywords("OOMKilled in payment: ConnectionError timeout", Some("Timeout again, HTTP 503")),
        vec!["OOMKilled".to_string(), "ConnectionError".to_string(), "timeout".to_string(), "503".to_string()]
    );
    assert_eq!(tool_label("mcp__rca__search_logs", r#"{"service":"pay"}"#), "搜索日志 — pay");
    assert_eq!(tool_label("other", "{}"), "调查中");
    assert!(initial_message(Some("pay")).contains("`pay`"));
    let facts = IssueFacts {
        title: "CPU high".to_string(),
        severity: "high".to_string(),
        source: "grafana".to_string(),
        issue_type: "alert".to_string(),
        description: None,
        rca_result: None,
        created_at: "2024-01-01".to_string(),
    };
    let p = build_system_prompt(&facts, Some("pay"));
    assert!(p.contains("CPU high"));
    let (chunks, msg) = spawn_failure("Helper", "not found");
    assert_eq!(msg, "Failed to spawn Helper CLI for RCA: not found");
    assert_eq!(chunks.len(), 2);
    assert!(matches!(&chunks[1], StreamChunk::Error { message } if message == &msg));
}

#[test]
fn rca_tracker_opens_and_closes_steps() {
    let (mut t, first) = RcaTracker::start();
    assert!(matches!(first, StreamChunk::Step { ref step, .. } if step == "init"));
    let u = t.on_event(&AgentEvent::Text { content: "thinking about logs".to_string() }, 0);
    assert!(!u.restart_timer);
    let u = t.on_event(
        &AgentEvent::ToolUse { tool_name: "mcp__rca__search_logs".to_string(), content: r#"{"service":"pay"}"#.to_string() },
        0,
    );
    assert!(u.restart_timer);
    assert!(u.chunks.iter().any(|c| matches!(c, StreamChunk::StepStart { step_id, .. } if step_id == "step_1")));
    assert_eq!(t.step_counter, 1);
    let end = t.finish(10, 100);
    assert!(!end.is_empty());
    assert!(t.current.is_none());
}

#[test]
fn rca_tracker_shows_tool_results_once() {
    let (mut t, _) = RcaTracker::start();
    let u = t.on_event(
        &AgentEvent::ToolResult { tool_name: "mcp__rca__search_logs".to_string(), content: "3 errors".to_string() },
        0,
    );
    assert!(u.restart_timer);
    assert_eq!(u.chunks.len(), 2);
    assert!(matches!(&u.chunks[0], StreamChunk::StepStart { step_id, .. } if step_id == "step_1"));
    assert!(matches!(&u.chunks[1], StreamChunk::StepData { step_id, data_text, .. } if step_id == "step_1" && data_text == "3 errors"));
    assert_eq!(t.seen.len(), 1);
    let again = t.on_event(
        &AgentEvent::ToolResult { tool_name: "mcp__rca__search_logs".to_string(), content: "3 errors".to_string() },
        0,
    );
    assert!(again.chunks.is_empty());
    assert!(!again.restart_timer);
    assert_eq!(t.seen.len(), 1);
    let u = t.on_event(&AgentEvent::Text { content: "the pod restarts".to_string() }, 0);
    assert!(matches!(&u.chunks[0], StreamChunk::StepAnalysis { step_id, content } if step_id == "step_1" && content == "the pod restarts"));
}

#[test]
fn rollout_snapshots_from_objects() {
    let doc = r#"{"metadata":{"name":"web"},"spec":{"template":{"spec":{"containers":[{"name":"a","image":"web:2"},{"image":"side:1"}]}}},"status":{"phase":"Paused","currentStepIndex":3,"replicas":4,"readyReplicas":2}}"#;
    let s = snapshot_of_json(doc);
    assert_eq!(s.phase, "Paused");
    assert_eq!(s.current_step, 3);
    assert_eq!(s.replicas, 4);
    assert_eq!(s.ready_replicas, 2);
    assert_eq!(s.image, "web:2");
    let bare = snapshot_of_json(r#"{"status":{"phase":7,"replicas":"x"},"spec":{"template":{"spec":{"containers":[]}}}}"#);
    assert_eq!(bare.phase, "Unknown");
    assert_eq!(bare.current_step, 0);
    assert_eq!(bare.replicas, 0);
    assert_eq!(bare.image, "");
}

#[test]
fn rollout_records_from_objects() {
    let doc = r#"{"metadata":{"name":"web"},"spec":{"replicas":5,"strategy":{"canary":{"steps":[]}}},"status":{"phase":"Healthy","readyReplicas":5}}"#;
    let r = RolloutInfo::from_json(Some("shop".to_string()), Some("web".to_string()), doc);
    assert_eq!(r.namespace.as_deref(), Some("shop"));
    assert_eq!(r.phase.as_deref(), Some("Healthy"));
    assert_eq!(r.replicas, Some(5));
    assert_eq!(r.ready_replicas, Some(5));
    assert!(r.canary);
    assert!(!r.blue_green);
    let g = RolloutInfo::from_json(None, None, r#"{"spec":{"strategy":{"blueGreen":null}}}"#);
    assert_eq!(g.phase, None);
    assert_eq!(g.replicas, None);
    assert!(g.blue_green && !g.canary);
}

#[test]
fn running_investigations_are_tracked() {
    let mut reg = opsk::rca::RcaRegistry::new();
    assert!(!reg.is_running(7));
    reg.register(7);
    reg.register(7);
    reg.register(8);
    assert!(reg.is_running(7));
    reg.remove(7);
    assert!(!reg.is_running(7));
    assert!(reg.is_running(8));
}

#[test]
fn query_windows() {
    assert_eq!(opsk::grafana::resolve_time_range(30, Some(10_000), 99_999), (8_200, 10_000));
    assert_eq!(opsk::grafana::resolve_time_range(1, None, 600), (540, 600));
}
