use opsk::github::{
    context_paths, contents_url, extract_file_refs, file_refs_from_captures, owner_repo, range_paths, render_range,
    source_snippet, FileRef,
};

#[test]
fn test_extract_file_refs_basic() {
    let traceback = r#"Traceback (most recent call last):
  File "main.py", line 187, in process_order
    discounted = calculate_discount(base_amount * quantity, tier)
  File "main.py", line 119, in calculate_discount
    final_price = amount * 100 / (100 - discount_pct)
ZeroDivisionError: division by zero"#;

    let refs = extract_file_refs(traceback);
    assert_eq!(refs.len(), 2);
    assert_eq!(refs[0].file_path, "main.py");
    assert_eq!(refs[0].line_number, 187);
    assert_eq!(refs[0].function_name.as_deref(), Some("process_order"));
    assert_eq!(refs[1].file_path, "main.py");
    assert_eq!(refs[1].line_number, 119);
    assert_eq!(refs[1].function_name.as_deref(), Some("calculate_discount"));
}

#[test]
fn test_extract_file_refs_with_app_prefix() {
    let traceback = r#"File "/app/main.py", line 42, in validate_sku"#;
    let refs = extract_file_refs(traceback);
    assert_eq!(refs.len(), 1);
    assert_eq!(refs[0].file_path, "main.py");
    assert_eq!(refs[0].line_number, 42);
}

#[test]
fn test_extract_file_refs_skips_stdlib() {
    let traceback = r#"File "/usr/lib/python3.11/http/server.py", line 100, in handle
  File "main.py", line 50, in process"#;
    let refs = extract_file_refs(traceback);
    assert_eq!(refs.len(), 1);
    assert_eq!(refs[0].file_path, "main.py");
}

#[test]
fn test_extract_file_refs_empty() {
    let refs = extract_file_refs("no traceback here");
    assert!(refs.is_empty());
}

#[test]
fn extract_file_refs_drops_repeats_and_keeps_missing_function() {
    let traceback = "File \"a.py\", line 3\nFile \"a.py\", line 3, in f\nFile \"b.py\", line 9, in g";
    let refs = extract_file_refs(traceback);
    assert_eq!(refs.len(), 2);
    assert_eq!(refs[0].file_path, "a.py");
    assert_eq!(refs[0].line_number, 3);
    assert_eq!(refs[0].function_name, None);
    assert_eq!(refs[1].file_path, "b.py");
    assert_eq!(refs[1].function_name.as_deref(), Some("g"));
}

#[test]
fn file_refs_from_captures_skips_site_packages() {
    let caps = vec![
        vec![Some("/venv/site-packages/x.py".to_string()), Some("5".to_string()), None],
        vec![Some("/app/svc/run.py".to_string()), Some("12".to_string()), Some("main".to_string())],
    ];
    let refs = file_refs_from_captures(&caps);
    assert_eq!(refs.len(), 1);
    assert_eq!(refs[0].file_path, "svc/run.py");
    assert_eq!(refs[0].line_number, 12);
}

#[test]
fn owner_repo_of_github_urls() {
    assert_eq!(owner_repo("https://github.com/acme/shop.git"), "acme/shop");
    assert_eq!(owner_repo("https://github.com/acme/shop"), "acme/shop");
}

#[test]
fn contents_url_names_repo_and_path() {
    assert_eq!(
        contents_url("acme/shop", "/src/main.py"),
        "https://api.github.com/repos/acme/shop/contents/src/main.py"
    );
}

#[test]
fn context_paths_try_app_prefix_first() {
    assert_eq!(context_paths("main.py"), vec!["app/main.py".to_string(), "main.py".to_string()]);
}

#[test]
fn source_snippet_marks_the_line() {
    let f = FileRef { file_path: "m.py".to_string(), line_number: 2, function_name: None };
    let s = source_snippet(&f, "a\nb\nc");
    assert!(s.contains("b"));
    assert!(s.contains("m.py"));
}

#[test]
fn range_paths_and_render_range() {
    let paths = range_paths("acme/shop", "shop/src/a.py");
    assert_eq!(paths, vec!["src/a.py".to_string(), "app/src/a.py".to_string(), "shop/src/a.py".to_string()]);
    let out = render_range("a.py", "l1\nl2\nl3\nl4", 2, 3);
    assert_eq!(out, Ok("// a.py lines 2-3 (of 4)\n   2 | l2\n   3 | l3\n".to_string()));
    let bad = render_range("a.py", "l1", 5, 6);
    assert_eq!(bad, Err("Invalid range 5-6 for file with 1 lines".to_string()));
}
