use agiworkforce::debugging::parse_typescript_error;
use agiworkforce::design::{extract_json_from_response, parse_css_response};
use agiworkforce::diff::{compute_diff, extract_code_from_response};
use agiworkforce::email::decode_password;
use agiworkforce::file_ops::is_blacklisted_path;
use agiworkforce::git::{GitCommit, GitStatus};
use agiworkforce::subscription::get_plan_details;

use base64::Engine;

#[test]
fn test_parse_typescript_error() {
    let error = "src/file.ts(10,5): error TS2304: Cannot find name 'foo'.";
    let parsed = parse_typescript_error(error).unwrap();
    assert_eq!(parsed.file_path, Some("src/file.ts".to_string()));
    assert_eq!(parsed.line, Some(10));
    assert_eq!(parsed.column, Some(5));
}

#[test]
fn test_parse_css_response() {
    let response = r#"```css
.button {
    color: blue;
}
```

This creates a blue button."#;

    let (css, explanation) = parse_css_response(response).unwrap();
    assert!(css.contains("color: blue"));
    assert!(explanation.contains("blue button"));
}

#[test]
fn test_extract_json() {
    let response = r#"```json
{"key": "value"}
```"#;

    let json = extract_json_from_response(response).unwrap();
    assert_eq!(json, r#"{"key": "value"}"#);
}

#[test]
fn test_compute_diff() {
    let old = "line1\nline2\nline3";
    let new = "line1\nmodified\nline3";

    let diff = compute_diff(old, new);
    assert_eq!(diff.hunks.len(), 1);
    assert_eq!(diff.hunks[0].old_lines, vec!["line2"]);
    assert_eq!(diff.hunks[0].new_lines, vec!["modified"]);
}

#[test]
fn test_extract_code_from_markdown() {
    let response = "Here's the code:\n```typescript\nconst x = 1;\n```\nDone.";
    let code = extract_code_from_response(response);
    assert_eq!(code.trim(), "const x = 1;");
}

#[test]
fn password_round_trip() {
    let original = "super-secret";
    let encoded = base64::engine::general_purpose::STANDARD.encode(original.as_bytes());
    let decoded = decode_password(&encoded).expect("Should decode");
    assert_eq!(original, decoded);
}

#[test]
fn test_blacklist_check() {
    assert!(is_blacklisted_path("C:\\Windows\\System32\\kernel32.dll"));
    assert!(is_blacklisted_path("C:\\Program Files\\app\\file.exe"));
    assert!(is_blacklisted_path("/home/user/.ssh/id_rsa"));
    assert!(!is_blacklisted_path("C:\\Users\\user\\Documents\\file.txt"));
}

#[test]
fn test_git_status_struct() {
    let status = GitStatus {
        branch: "main".to_string(),
        ahead: 0,
        behind: 0,
        staged: vec![],
        unstaged: vec![],
        untracked: vec![],
        conflicts: vec![],
    };
    assert_eq!(status.branch, "main");
}

#[test]
fn test_git_commit_struct() {
    let commit = GitCommit {
        hash: "abc123".to_string(),
        author: "John Doe".to_string(),
        email: "john@example.com".to_string(),
        date: "2025-01-01".to_string(),
        message: "Initial commit".to_string(),
    };
    assert_eq!(commit.author, "John Doe");
}

#[test]
fn test_get_plan_details() {
    let (name, interval) = get_plan_details("price_basic_month");
    assert_eq!(name, "Basic");
    assert_eq!(interval, "monthly");

    let (name, interval) = get_plan_details("price_pro_year");
    assert_eq!(name, "Pro");
    assert_eq!(interval, "yearly");

    let (name, interval) = get_plan_details("price_custom");
    assert_eq!(name, "Custom");
    assert_eq!(interval, "monthly");
}
