use opsk::alerts::{alert_start, fingerprint_filter, issue_follow_ups, normalize_severity, raises_issue, AlertStart, IssueFollowUp};
use opsk::alloy::{generate_config, generate_default_config, DEFAULT_CONFIG};
use opsk::auth::{AppError, AuthUser};
use opsk::channels::{channel_tenants, check_channel_tenants, check_new_channel, stored_tenant_ids};
use opsk::cognito::{created_sub, create_user_failure, pool_username, set_password_failure};
use opsk::notification::{delivered_to, permission_filters, recipients, NotificationListQuery, NotificationStore};
use opsk::repos::{default_true, mirrors_new_repo, removal_outcome, repo_secret, secret_name, sync_after_update, SecretSync};

fn admin() -> AuthUser {
    AuthUser { user_id: 1, role: "super_admin".to_string(), tenant_id: None, username: "a".to_string() }
}

#[test]
fn severities_are_normalized() {
    assert_eq!(normalize_severity("CRITICAL"), "critical");
    assert_eq!(normalize_severity("P1"), "critical");
    assert_eq!(normalize_severity("Warning"), "high");
    assert_eq!(normalize_severity("info"), "low");
    assert_eq!(normalize_severity("p3"), "medium");
    assert_eq!(normalize_severity(""), "medium");
}

#[test]
fn severities_are_a_normal_form() {
    for raw in ["Resource_Contention", "custom_alert", "P5", "weird", "", "Availability", "ÉRROR"] {
        let once = normalize_severity(raw);
        assert!(["critical", "high", "medium", "low"].contains(&once));
        assert_eq!(normalize_severity(once), once);
        if raw.is_ascii() {
            assert_eq!(normalize_severity(&raw.to_ascii_uppercase()), once);
            assert_eq!(normalize_severity(&raw.to_ascii_lowercase()), once);
        }
    }
}

#[test]
fn alerts_start_with_the_fingerprint() {
    assert_eq!(fingerprint_filter("abc\"1"), "{\"fingerprint\":\"abc\\\"1\"}");
    assert!(matches!(alert_start(true, "k"), AlertStart::ResolveMatching { filter } if filter == "{\"fingerprint\":\"k\"}"));
    assert!(matches!(alert_start(false, "k"), AlertStart::CountDuplicates { .. }));
    assert!(raises_issue(0));
    assert!(!raises_issue(2));
}

#[test]
fn follow_ups_of_a_new_issue() {
    let f = issue_follow_ups("grafana", "CPU high", "high", true, Some("shop".to_string()), true);
    assert_eq!(f.len(), 3);
    match &f[0] {
        IssueFollowUp::NotifyAdmins { kind, title, description, data } => {
            assert_eq!(kind, "issue_created");
            assert_eq!(title, "CPU high");
            assert_eq!(description, "[grafana] CPU high — high");
            assert_eq!(data, "{\"severity\":\"high\",\"source\":\"grafana\"}");
        }
        _ => panic!("expected a notification"),
    }
    assert!(matches!(&f[1], IssueFollowUp::PauseRollouts { namespace } if namespace == "shop"));
    assert!(matches!(&f[2], IssueFollowUp::StartRca));
    let quiet = issue_follow_ups("x", "t", "low", false, Some("shop".to_string()), false);
    assert!(quiet.is_empty());
}

#[test]
fn collector_configuration() {
    let cfg = r#"{"mode":"cloud","api_token":"tok","mimir_endpoint_url":"https://prom.grafana.net/api/prom","mimir_user_id":"11","loki_endpoint_url":"https://logs.grafana.net/","loki_user_id":"22","tempo_endpoint_url":"https://tempo.grafana.net/","tempo_user_id":"33"}"#;
    let text = generate_config(cfg);
    assert!(text.contains("url = \"https://prom.grafana.net/api/prom/push\""));
    assert!(text.contains("url = \"https://logs.grafana.net/loki/api/v1/push\""));
    assert!(text.contains("endpoint = \"tempo.grafana.net:443\""));
    assert!(text.contains("username = \"11\""));
    assert!(text.contains("username = \"33\""));
    assert!(text.contains("otelcol.auth.basic \"tempo\""));
    let local = generate_config(r#"{"mode":"local","mimir_endpoint_url":"http://mimir:9009"}"#);
    assert!(local.contains("url = \"http://mimir:9009/api/v1/push\""));
    assert!(local.contains("endpoint = \"tempo.monitoring.svc:4317\""));
    assert!(!local.contains("basic_auth"));
    assert_eq!(generate_default_config(), DEFAULT_CONFIG);
}

#[test]
fn notification_inbox() {
    let mut store = NotificationStore::new();
    store.notify_user(1, 7, None, "e", "first", "", "{}", None);
    store.notify_user(2, 8, None, "e", "other", "", "{}", None);
    store.notify_user(3, 7, None, "e", "second", "", "{}", None);
    let mine = store.list(7, 50, 0);
    let titles: Vec<&str> = mine.iter().map(|n| n.title.as_str()).collect();
    assert_eq!(titles, vec!["second", "first"]);
    assert_eq!(store.list(7, 1, 1)[0].title, "first");
    assert_eq!(store.count_unread(7), 2);
    assert!(store.mark_read(7, 1));
    assert!(!store.mark_read(7, 2));
    assert_eq!(store.count_unread(7), 1);
    assert_eq!(store.mark_all_read(7), 1);
    assert_eq!(store.count_unread(7), 0);
    assert_eq!(store.count_unread(8), 1);
    assert!(delivered_to(&mine[0], 7));
    assert!(!delivered_to(&mine[0], 8));
}

#[test]
fn notification_helpers() {
    assert_eq!(recipients(&vec![1, 2, 3, 2], Some(2)), vec![1, 3]);
    assert_eq!(recipients(&vec![1, 2], None), vec![1, 2]);
    let (p, w, all) = permission_filters("issues.read");
    assert_eq!(p, "[\"issues.read\"]");
    assert_eq!(w, "[\"issues.*\"]");
    assert_eq!(all, "[\"*\"]");
    assert_eq!(NotificationListQuery { limit: None, offset: None }.page(), Some((50, 0)));
    assert_eq!(NotificationListQuery { limit: Some(500), offset: Some(3) }.page(), Some((200, 3)));
    assert_eq!(NotificationListQuery { limit: Some(-1), offset: None }.page(), None);
}

#[test]
fn channel_checks() {
    assert!(check_new_channel(&admin(), "ops", "slack", 1).is_ok());
    match check_new_channel(&admin(), "ops", " ", 1) {
        Err(AppError::BadRequest(m)) => assert_eq!(m, "Platform is required"),
        other => panic!("unexpected {:?}", other),
    }
    match check_new_channel(&admin(), "ops", "slack", 0) {
        Err(AppError::BadRequest(m)) => assert_eq!(m, "At least one tenant is required"),
        other => panic!("unexpected {:?}", other),
    }
    let member = AuthUser { user_id: 2, role: "member".to_string(), tenant_id: Some(1), username: "m".to_string() };
    assert!(matches!(check_new_channel(&member, "ops", "slack", 1), Err(AppError::Forbidden(_))));
    assert!(check_channel_tenants(&None).is_ok());
    assert!(check_channel_tenants(&Some(vec![])).is_err());
    assert_eq!(stored_tenant_ids(&vec![5, 1, 5, 3]), vec![1, 3, 5]);
    assert_eq!(
        channel_tenants(&vec![10, 20, 10], &vec![(10, 1), (20, 2), (10, 3)]),
        vec![vec![1, 3], vec![2], vec![]]
    );
}

#[test]
fn cognito_answers() {
    assert_eq!(pool_username("jane.doe@example.com"), "jane.doe");
    assert_eq!(pool_username("plain"), "plain");
    match create_user_failure("a@b.c", "UsernameExistsException: taken") {
        AppError::Conflict(m) => assert_eq!(m, "User with email 'a@b.c' already exists in Cognito"),
        other => panic!("unexpected {:?}", other),
    }
    match create_user_failure("a@b.c", "AccessDeniedException") {
        AppError::Internal(m) => assert_eq!(m, "Cognito permission denied: AccessDeniedException"),
        other => panic!("unexpected {:?}", other),
    }
    match create_user_failure("a@b.c", "boom") {
        AppError::Internal(m) => assert_eq!(m, "Cognito AdminCreateUser failed: boom"),
        other => panic!("unexpected {:?}", other),
    }
    let attrs = vec![("email".to_string(), Some("x".to_string())), ("sub".to_string(), None), ("sub".to_string(), Some("u-1".to_string()))];
    assert_eq!(created_sub(&attrs).unwrap(), "u-1");
    assert!(matches!(created_sub(&vec![]), Err(AppError::Internal(m)) if m == "Cognito user created but sub not returned"));
    assert!(matches!(set_password_failure(true, "x"), AppError::Internal(m) if m == "Cognito AdminSetUserPassword failed: x"));
    assert!(matches!(set_password_failure(false, "x"), AppError::Internal(m) if m == "Cognito set password failed: x"));
}

#[test]
fn repository_secrets() {
    assert!(default_true());
    assert!(mirrors_new_repo(true, &Some("t".to_string())));
    assert!(!mirrors_new_repo(true, &Some("".to_string())));
    assert!(!mirrors_new_repo(false, &Some("t".to_string())));
    assert!(matches!(sync_after_update(true, None, Some("old".to_string())), SecretSync::Write { token } if token == "old"));
    assert!(matches!(sync_after_update(true, Some("new".to_string()), Some("old".to_string())), SecretSync::Write { token } if token == "new"));
    assert!(matches!(sync_after_update(false, Some("new".to_string()), None), SecretSync::Remove));
    assert_eq!(secret_name("r1"), "opsk-repo-r1");
    let s = repo_secret("r1", "https://git/x", "tok");
    assert_eq!(s.name, "opsk-repo-r1");
    assert_eq!(s.namespace, "argocd");
    assert_eq!(s.data[0], ("password".to_string(), "tok".to_string()));
    assert_eq!(s.data[3], ("username".to_string(), "x-access-token".to_string()));
    assert_eq!(removal_outcome(false, Some(404), "gone"), Ok(()));
    assert_eq!(removal_outcome(false, Some(500), "boom"), Err("boom".to_string()));
    assert_eq!(removal_outcome(true, None, "x"), Ok(()));
}

#[test]
fn collector_configuration_choice() {
    assert_eq!(opsk::alloy::alloy_config_for(None), DEFAULT_CONFIG);
    assert_eq!(opsk::alloy::alloy_config_for(Some("{}")), generate_config("{}"));
}
