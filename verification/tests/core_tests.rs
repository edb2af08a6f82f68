use opsk::auth::{
    check_role_and_tenant, require_non_empty, require_super_admin, role_grants, tenant_filter,
    validate_password_strength, AppError, AuthUser,
};
use opsk::json::{json_str_field, json_str_field2, json_str_list_field};
use opsk::order::{sort_by_key, text_lt};
use opsk::text::{
    ascii_upper, char_prefix, i64_to_string, join_strings, lines_of, parse_usize_str, right4, split_char, str_capitalized,
    str_replace_all, str_trim, str_upper, u64_to_string,
};

fn user(role: &str, tenant: Option<u128>) -> AuthUser {
    AuthUser { user_id: 1, role: role.to_string(), tenant_id: tenant, username: "u".to_string() }
}

#[test]
fn numbers_render_in_decimal() {
    assert_eq!(u64_to_string(0), "0");
    assert_eq!(u64_to_string(18446744073709551615), "18446744073709551615");
    assert_eq!(i64_to_string(-42), "-42");
    assert_eq!(right4(7), "   7");
    assert_eq!(right4(12345), "12345");
}

#[test]
fn parse_usize_accepts_digits_only() {
    assert_eq!(parse_usize_str("187"), Some(187));
    assert_eq!(parse_usize_str(""), None);
    assert_eq!(parse_usize_str("1a"), None);
}

#[test]
fn trimming_and_lines() {
    assert_eq!(str_trim("  a b \n"), "a b");
    assert_eq!(lines_of("a\nb\n"), vec!["a".to_string(), "b".to_string()]);
    assert_eq!(split_char("a,b,,c", ','), vec!["a".to_string(), "b".to_string(), "".to_string(), "c".to_string()]);
    assert_eq!(join_strings(&vec!["x".to_string(), "y".to_string()], ", "), "x, y");
    assert_eq!(char_prefix("héllo", 2), "hé");
}

#[test]
fn case_mapping_touches_ascii_letters_only() {
    assert_eq!(ascii_upper('q'), 'Q');
    assert_eq!(ascii_upper('7'), '7');
    assert_eq!(str_upper("ops-agent.md"), "OPS-AGENT.MD");
    assert_eq!(str_capitalized("agent"), "Agent");
    assert_eq!(str_capitalized(""), "");
}

#[test]
fn replace_all_replaces_left_to_right_without_overlap() {
    assert_eq!(str_replace_all("aaa", "aa", "b"), "ba");
    assert_eq!(str_replace_all("x {{m}} y {{m}}", "{{m}}", "Z"), "x Z y Z");
    assert_eq!(str_replace_all("none here", "{{m}}", "Z"), "none here");
}

#[test]
fn super_admin_gate() {
    assert!(require_super_admin(&user("super_admin", None), "do it").is_ok());
    match require_super_admin(&user("tenant_admin", Some(1)), "create model cards") {
        Err(AppError::Forbidden(m)) => assert_eq!(m, "Only super admins can create model cards"),
        other => panic!("unexpected {:?}", other),
    }
    assert_eq!(tenant_filter(&user("super_admin", None)), None);
    assert_eq!(tenant_filter(&user("member", Some(4))), Some(Some(4)));
}

#[test]
fn required_fields() {
    assert!(require_non_empty(" x ", "Name").is_ok());
    match require_non_empty("   ", "Name") {
        Err(AppError::BadRequest(m)) => assert_eq!(m, "Name is required"),
        other => panic!("unexpected {:?}", other),
    }
}

#[test]
fn roles_and_tenants() {
    assert!(check_role_and_tenant("super_admin", None).is_ok());
    assert!(check_role_and_tenant("member", Some(3)).is_ok());
    assert!(matches!(check_role_and_tenant("member", None), Err(AppError::BadRequest(_))));
    match check_role_and_tenant("owner", Some(3)) {
        Err(AppError::BadRequest(m)) => assert_eq!(m, "Role must be 'super_admin', 'tenant_admin', or 'member'"),
        other => panic!("unexpected {:?}", other),
    }
}

#[test]
fn password_strength_reasons() {
    assert_eq!(validate_password_strength("Abcdefg1"), Ok(()));
    assert_eq!(validate_password_strength("Ab1"), Err("Password must be at least 8 characters".to_string()));
    assert_eq!(validate_password_strength("Abcdé1f"), Err("Password must be at least 8 characters".to_string()));
    assert_eq!(validate_password_strength("Abcdéfg1"), Ok(()));
    assert_eq!(
        validate_password_strength("abcdefg1"),
        Err("Password must contain at least one uppercase letter".to_string())
    );
    assert_eq!(
        validate_password_strength("ABCDEFG1"),
        Err("Password must contain at least one lowercase letter".to_string())
    );
    assert_eq!(validate_password_strength("Abcdefgh"), Err("Password must contain at least one digit".to_string()));
    let long = format!("Aa1{}", "x".repeat(126));
    assert_eq!(validate_password_strength(&long), Err("Password must be at most 128 characters".to_string()));
}

#[test]
fn permission_wildcards() {
    let perms = vec!["issues.read".to_string(), "approvals.*".to_string()];
    assert!(role_grants(&perms, "issues.read"));
    assert!(!role_grants(&perms, "issues.write"));
    assert!(role_grants(&perms, "approvals.approve"));
    assert!(role_grants(&vec!["*".to_string()], "anything.at_all"));
}

#[test]
fn json_fields_are_read_through_serde() {
    let doc = r#"{"model":"m1","nested":{"key":"v"},"list":["a","b"],"n":3}"#;
    assert_eq!(json_str_field(doc, "model"), Some("m1".to_string()));
    assert_eq!(json_str_field(doc, "n"), None);
    assert_eq!(json_str_field("not json", "model"), None);
    assert_eq!(json_str_field2(doc, "nested", "key"), Some("v".to_string()));
    assert_eq!(json_str_list_field(doc, "list"), Some(vec!["a".to_string(), "b".to_string()]));
}

#[test]
fn sorting_is_stable_and_ordered() {
    let items = vec![(1, "b".to_string()), (2, "a".to_string()), (3, "b".to_string()), (4, "c".to_string())];
    let asc = sort_by_key(items.clone(), false);
    let ids: Vec<i32> = asc.iter().map(|x| x.0).collect();
    assert_eq!(ids, vec![2, 1, 3, 4]);
    let desc = sort_by_key(items, true);
    let ids: Vec<i32> = desc.iter().map(|x| x.0).collect();
    assert_eq!(ids, vec![4, 1, 3, 2]);
    assert!(text_lt("ab", "b"));
    assert!(text_lt("a", "ab"));
    assert!(!text_lt("b", "b"));
}
