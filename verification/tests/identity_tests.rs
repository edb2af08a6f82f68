use opsk::accounts::{
    access_cookie, check_invite, check_invite_token, check_new_user, check_resend, check_user_delete,
    check_user_update, generate_temp_password, hash_password, invite_link, invite_response, provider_named, user_conflict_message,
    Provider, UserDirectory, UserRecord, CLEAR_ACCESS_COOKIE, DIGIT_CHARS, LOWER_CHARS, SYMBOL_CHARS, UPPER_CHARS,
};
use opsk::auth::{validate_password_strength, AppError, AuthUser};
use opsk::entra::{
    apply_group_mappings, check_connection_update, check_mapping_update, check_new_connection, check_new_mapping,
    connection_conflict_message, email_domain, mapping_conflict_message, AccountAccessEntry, EntraIdConnection,
    GroupGrant,
};
use opsk::skill::{
    check_discover_request, check_install_request, check_skill_access, discover_outcome, install_outcome, is_skill_md,
    no_skill_found, parse_skill_md, scanned_subdir, skill_dir_name, skill_path, skill_visibility, source_parts,
    stored_source, DiscoveredSkill,
};

fn admin() -> AuthUser {
    AuthUser { user_id: 1, role: "super_admin".to_string(), tenant_id: None, username: "a".to_string() }
}

fn member() -> AuthUser {
    AuthUser { user_id: 2, role: "member".to_string(), tenant_id: Some(9), username: "m".to_string() }
}

fn record(id: u128, username: &str) -> UserRecord {
    UserRecord {
        id,
        username: username.to_string(),
        role: "member".to_string(),
        tenant_id: Some(9),
        email: None,
        auth_method: "local".to_string(),
        microsoft_id: None,
        cognito_sub: None,
        password_hash: None,
        is_active: true,
        must_change_password: false,
        invite_token: None,
        invite_expires_at: None,
    }
}

#[test]
fn providers_by_name() {
    assert_eq!(provider_named("microsoft").unwrap(), Provider::Microsoft);
    assert_eq!(provider_named("cognito").unwrap(), Provider::Cognito);
    assert!(matches!(provider_named("github"), Err(AppError::OAuth(m)) if m == "Unknown provider: github"));
}

#[test]
fn oauth_users_are_found_linked_or_created() {
    let mut dir = UserDirectory { users: vec![] };
    let first = dir.find_or_create_oauth_user("microsoft", "ms-1", Some("a@x.com"), "A", 10).unwrap();
    assert_eq!(first.id, 10);
    assert_eq!(first.role, "super_admin");
    assert_eq!(first.username, "a@x.com");
    let again = dir.find_or_create_oauth_user("microsoft", "ms-1", None, "A", 11).unwrap();
    assert_eq!(again.id, 10);
    let second = dir.find_or_create_oauth_user("cognito", "c-2", None, "bob", 12).unwrap();
    assert_eq!(second.role, "member");
    assert_eq!(second.username, "bob");
    let linked = dir.find_or_create_oauth_user("cognito", "c-9", Some("a@x.com"), "A", 13).unwrap();
    assert_eq!(linked.id, 10);
    assert_eq!(dir.users.len(), 2);
    assert!(dir.find_or_create_oauth_user("github", "g", None, "x", 14).is_err());
}

#[test]
fn password_sign_in_round_trip() {
    let mut dir = UserDirectory { users: vec![record(1, "jane")] };
    assert!(matches!(dir.login("jane", "Whatever1"), Err(AppError::Unauthorized(_))));
    let mut u = record(1, "jane");
    u.password_hash = Some(hash_password("Start1234").unwrap());
    dir.users[0] = u;
    assert_eq!(dir.login("jane", "Start1234").unwrap().id, 1);
    assert!(dir.login("jane", "Wrong1234").is_err());
    match dir.change_password(1, "Start1234", "short") {
        Err(AppError::BadRequest(m)) => assert_eq!(m, "Password must be at least 8 characters"),
        other => panic!("unexpected {:?}", other),
    }
    dir.change_password(1, "Start1234", "Better5678").unwrap();
    assert!(dir.login("jane", "Better5678").is_ok());
    assert!(dir.login("jane", "Start1234").is_err());
}

#[test]
fn invitations_are_redeemed_once() {
    let mut u = record(5, "inv@x.com");
    u.auth_method = "invited".to_string();
    u.invite_token = Some(777);
    u.invite_expires_at = Some(1000);
    u.must_change_password = true;
    let mut dir = UserDirectory { users: vec![u] };
    assert!(dir.redeem_invite(777, 2000, "Abcdefg1").is_err());
    let done = dir.redeem_invite(777, 500, "Abcdefg1").unwrap();
    assert_eq!(done.auth_method, "local");
    assert!(done.invite_token.is_none());
    assert!(dir.login("inv@x.com", "Abcdefg1").is_ok());
    assert!(dir.redeem_invite(777, 500, "Abcdefg1").is_err());
}

#[test]
fn user_management_checks() {
    assert!(check_new_user(&admin(), "bob", "12345678", None, "member", Some(1)).is_ok());
    assert!(matches!(check_new_user(&member(), "bob", "12345678", None, "member", Some(1)), Err(AppError::Forbidden(_))));
    assert!(matches!(check_new_user(&admin(), "bob", "1234567", None, "member", Some(1)), Err(AppError::BadRequest(_))));
    assert!(check_user_update(&admin(), Some("tenant_admin"), None).is_ok());
    match check_user_update(&admin(), None, Some("short")) {
        Err(e) => assert_eq!(e.message(), "Password must be at least 8 characters"),
        Ok(_) => panic!("accepted"),
    }
    match check_user_delete(&admin(), 1) {
        Err(e) => assert_eq!(e.message(), "Cannot delete yourself"),
        Ok(_) => panic!("accepted"),
    }
    assert!(check_user_delete(&admin(), 2).is_ok());
    assert_eq!(user_conflict_message("users_username_key", false), Some("Username already exists"));
    assert_eq!(user_conflict_message("users_username_key", true), Some("A user with this email already exists"));
    assert_eq!(user_conflict_message("other", false), None);
}

#[test]
fn invitation_checks() {
    let (email, role) = check_invite(&admin(), "  Jane@X.com ", None, Some(3)).unwrap();
    assert_eq!(email, "jane@x.com");
    assert_eq!(role, "member");
    match check_invite(&admin(), "nope", None, Some(3)) {
        Err(e) => assert_eq!(e.message(), "Valid email is required"),
        Ok(_) => panic!("accepted"),
    }
    assert_eq!(invite_link(&vec![], "tok"), "http://localhost:3000/auth/invite?token=tok");
    assert_eq!(invite_link(&vec!["https://ops.x".to_string()], "t"), "https://ops.x/auth/invite?token=t");
    let mut u = record(5, "u");
    assert!(matches!(check_resend(&admin(), &u), Err(AppError::BadRequest(m)) if m == "User is not in invited state"));
    u.auth_method = "invited".to_string();
    assert!(matches!(check_resend(&admin(), &u), Err(AppError::Internal(m)) if m == "Invited user has no email"));
    u.email = Some("u@x".to_string());
    assert_eq!(check_resend(&admin(), &u).unwrap(), "u@x");
    assert!(matches!(check_invite_token(false, None, 0), Err(AppError::NotFound(_))));
    assert!(matches!(check_invite_token(true, Some(5), 6), Err(AppError::BadRequest(m)) if m == "Invite token has expired"));
    assert!(check_invite_token(true, Some(6), 6).is_ok());
}

#[test]
fn invite_answers_carry_link_and_password() {
    let link = invite_link(&vec![], "tok");
    let r = invite_response(r#"{"id":"u1","email":"a@b.c","invite_link":"old"}"#, &link, "Xy7!abcdEFGH2345").unwrap();
    let v: serde_json::Value = serde_json::from_str(&r).unwrap();
    assert_eq!(v["id"], "u1");
    assert_eq!(v["email"], "a@b.c");
    assert_eq!(v["invite_link"], "http://localhost:3000/auth/invite?token=tok");
    assert_eq!(v["temp_password"], "Xy7!abcdEFGH2345");
    assert!(invite_response("[1,2]", &link, "p").is_none());
    assert!(invite_response("not json", &link, "p").is_none());
}

#[test]
fn temporary_passwords_mix_all_classes() {
    for _ in 0..20 {
        let p = generate_temp_password();
        assert_eq!(p.chars().count(), 16);
        assert!(p.chars().any(|c| UPPER_CHARS.contains(c)));
        assert!(p.chars().any(|c| LOWER_CHARS.contains(c)));
        assert!(p.chars().any(|c| DIGIT_CHARS.contains(c)));
        assert!(p.chars().any(|c| SYMBOL_CHARS.contains(c)));
        assert_eq!(validate_password_strength(&p), Ok(()));
    }
}

#[test]
fn cookies() {
    assert_eq!(access_cookie("abc", 3600), "token=abc; HttpOnly; Secure; SameSite=Lax; Path=/; Max-Age=3600");
    assert!(CLEAR_ACCESS_COOKIE.ends_with("Max-Age=0"));
}

#[test]
fn group_mapping_checks() {
    assert_eq!(check_new_mapping(&admin(), "g1", None, Some(1)).unwrap(), "member");
    match check_new_mapping(&admin(), " ", None, Some(1)) {
        Err(e) => assert_eq!(e.message(), "group_id is required"),
        Ok(_) => panic!("accepted"),
    }
    assert!(check_new_mapping(&member(), "g1", None, Some(1)).is_err());
    assert!(check_mapping_update(&admin(), Some("owner")).is_err());
    assert!(check_mapping_update(&admin(), None).is_ok());
    assert_eq!(mapping_conflict_message("entra_group_mappings_group_id_key"), Some("A mapping for this group ID already exists"));
    assert_eq!(mapping_conflict_message("x"), None);
}

#[test]
fn group_grants_are_combined() {
    let grants = vec![
        GroupGrant {
            role: "member".to_string(),
            tenant_id: Some(4),
            access: Some(vec![AccountAccessEntry { account_id: 1, role: "readonly".to_string() }]),
        },
        GroupGrant {
            role: "tenant_admin".to_string(),
            tenant_id: Some(5),
            access: Some(vec![
                AccountAccessEntry { account_id: 1, role: "admin".to_string() },
                AccountAccessEntry { account_id: 2, role: "readonly".to_string() },
            ]),
        },
    ];
    let access = apply_group_mappings(&grants);
    assert_eq!(access.role, "tenant_admin");
    assert_eq!(access.tenant_id, Some(4));
    let mut accounts = access.accounts.clone();
    accounts.sort();
    assert_eq!(accounts, vec![(1, "admin".to_string()), (2, "readonly".to_string())]);
    let sa = apply_group_mappings(&vec![GroupGrant { role: "super_admin".to_string(), tenant_id: Some(4), access: None }]);
    assert_eq!(sa.role, "super_admin");
    assert_eq!(sa.tenant_id, None);
    let none = apply_group_mappings(&vec![]);
    assert_eq!(none.role, "member");
}

#[test]
fn sso_connection_checks() {
    assert_eq!(check_new_connection(&admin(), "n", "t", "c", "s", None).unwrap(), "member");
    match check_new_connection(&admin(), "n", "t", "", "s", None) {
        Err(e) => assert_eq!(e.message(), "client_id is required"),
        Ok(_) => panic!("accepted"),
    }
    match check_new_connection(&admin(), "n", "t", "c", "s", Some("boss")) {
        Err(e) => assert_eq!(e.message(), "default_role must be 'super_admin', 'tenant_admin', or 'member'"),
        Ok(_) => panic!("accepted"),
    }
    assert!(check_connection_update(&member(), None).is_err());
    assert_eq!(
        connection_conflict_message("entra_id_connections_entra_tenant_id_key"),
        Some("A connection for this Entra ID tenant already exists")
    );
    assert_eq!(email_domain("Jane@Corp.Example.COM").unwrap(), "corp.example.com");
    assert!(matches!(email_domain("nodomain"), Err(AppError::BadRequest(m)) if m == "Invalid email"));
    let c = EntraIdConnection {
        id: 1,
        name: "n".to_string(),
        entra_tenant_id: "tid".to_string(),
        client_id: "cid".to_string(),
        client_secret: "sec".to_string(),
        tenant_id: 2,
        auto_provision: true,
        default_role: "member".to_string(),
        enabled: true,
        allowed_domains: vec![],
    };
    let o = c.to_oauth_config();
    assert_eq!(o.client_id, "cid");
    assert_eq!(o.tenant_id, "tid");
    assert!(o.redirect_uris.is_empty());
}

#[test]
fn skill_files_are_read() {
    let (name, desc) = parse_skill_md("---\nname: Deploy Helper\ndescription: Ships things\n---\n# Title\nBody", "fb");
    assert_eq!(name, "Deploy Helper");
    assert_eq!(desc, Some("Ships things".to_string()));
    let (name, desc) = parse_skill_md("# My Skill\n\nDoes stuff\n", "fb");
    assert_eq!(name, "My Skill");
    assert_eq!(desc, Some("Does stuff".to_string()));
    let (name, desc) = parse_skill_md("", "fallback");
    assert_eq!(name, "fallback");
    assert_eq!(desc, None);
}

#[test]
fn skill_helpers() {
    assert_eq!(skill_dir_name("Deploy Helper!", "id1"), "deploy-helper");
    assert_eq!(skill_dir_name("!!!", "id1"), "id1");
    assert_eq!(skill_visibility("tenant"), "tenant");
    assert_eq!(skill_visibility("public"), "user");
    assert_eq!(check_install_request(" https://g/x ", 1).unwrap(), "https://g/x");
    assert!(matches!(check_install_request("", 1), Err(AppError::BadRequest(m)) if m == "git_url is required"));
    assert!(matches!(check_install_request("u", 0), Err(AppError::BadRequest(m)) if m == "At least one skill must be selected"));
    assert!(check_discover_request("  ").is_err());
    assert_eq!(stored_source("https://g/x", "."), "https://g/x");
    assert_eq!(stored_source("https://g/x", "skills/a"), "https://g/x#skills/a");
    assert_eq!(source_parts("https://g/x#skills/a"), ("https://g/x".to_string(), Some("skills/a".to_string())));
    assert_eq!(source_parts("https://g/x"), ("https://g/x".to_string(), None));
    assert!(install_outcome(0).is_err());
    assert!(install_outcome(2).is_ok());
    assert!(!scanned_subdir("node_modules"));
    assert!(scanned_subdir("skills"));
    assert_eq!(skill_path(""), ".");
    assert_eq!(skill_path("a/b"), "a/b");
    assert!(no_skill_found().message().starts_with("No SKILL.md found in repository."));
    assert!(is_skill_md("Skill.MD"));
    assert!(!is_skill_md("README.md"));
    assert!(check_skill_access(false, 3, Some(9), Some(3), "user", None).is_ok());
    assert!(check_skill_access(false, 3, Some(9), Some(4), "tenant", Some(9)).is_ok());
    assert!(matches!(
        check_skill_access(false, 3, Some(9), Some(4), "user", Some(9)),
        Err(AppError::Forbidden(m)) if m == "No access to this skill"
    ));
}

#[test]
fn discovered_skills_sorted_by_name() {
    let found = vec![
        DiscoveredSkill { name: "zeta".to_string(), description: None, path: "z".to_string() },
        DiscoveredSkill { name: "alpha".to_string(), description: None, path: "a".to_string() },
    ];
    let d = discover_outcome("u".to_string(), found).unwrap();
    let names: Vec<&str> = d.skills.iter().map(|s| s.name.as_str()).collect();
    assert_eq!(names, vec!["alpha", "zeta"]);
    assert!(discover_outcome("u".to_string(), vec![]).is_err());
}

#[test]
fn invitation_lookup() {
    let mut u = record(5, "inv@x.com");
    u.invite_token = Some(9);
    u.invite_expires_at = Some(100);
    let dir = UserDirectory { users: vec![record(1, "a"), u] };
    assert_eq!(dir.invited_user(9, 50).unwrap().id, 5);
    assert!(matches!(dir.invited_user(9, 150), Err(AppError::BadRequest(m)) if m == "Invite token has expired"));
    assert!(matches!(dir.invited_user(8, 50), Err(AppError::NotFound(m)) if m == "Invalid or expired invite token"));
}

#[test]
fn tenant_admins_are_told() {
    let mut sa = record(1, "root");
    sa.role = "super_admin".to_string();
    sa.tenant_id = None;
    let mut ta = record(2, "ta");
    ta.role = "tenant_admin".to_string();
    ta.tenant_id = Some(9);
    let mut other = record(3, "tb");
    other.role = "tenant_admin".to_string();
    other.tenant_id = Some(8);
    let dir = UserDirectory { users: vec![sa, ta, other, record(4, "m")] };
    assert_eq!(dir.tenant_admin_ids(Some(9)), vec![1, 2]);
    assert_eq!(dir.tenant_admin_ids(None), vec![1]);
}
