use agiworkforce::file_ops::{
    check_copy_source, check_delete_target, check_dir_target, check_glob_pattern,
    check_read_target, check_write_content, detect_language, full_glob_pattern,
    is_blacklisted_path, validate_path_security, FileOperation, PermissionType,
};
use agiworkforce::github::{
    analyze_languages, is_text_file, parse_github_url, search_files, RepoFile,
};

#[test]
fn path_security_errors() {
    assert_eq!(validate_path_security("").unwrap_err(), "Path cannot be empty");
    let long = "a".repeat(4097);
    assert_eq!(
        validate_path_security(&long).unwrap_err(),
        "Path too long: 4097 characters. Maximum is 4096"
    );
    assert!(validate_path_security(&"a".repeat(4096)).is_ok());
    assert_eq!(
        validate_path_security("../etc/passwd").unwrap_err(),
        "Path contains directory traversal (..) which is not allowed for security reasons"
    );
    assert_eq!(
        validate_path_security("a\0b").unwrap_err(),
        "Path contains null bytes which is not allowed"
    );
    assert!(validate_path_security("/home/user/notes.txt").is_ok());
}

#[test]
fn blacklist_ignores_case() {
    assert!(is_blacklisted_path("/HOME/USER/.SSH/config"));
    assert!(is_blacklisted_path("/etc/shadow"));
    assert!(is_blacklisted_path("project/.env.local"));
    assert!(!is_blacklisted_path("/home/user/projects/app/main.rs"));
}

#[test]
fn languages_from_extensions() {
    assert_eq!(detect_language("src/main.rs"), Some("rust".to_string()));
    assert_eq!(detect_language("App.TSX"), Some("typescript".to_string()));
    assert_eq!(detect_language("include/x.h"), Some("cpp".to_string()));
    assert_eq!(detect_language("README"), None);
    assert_eq!(detect_language("archive.zip"), None);
    assert_eq!(detect_language(".bashrc"), None);
}

#[test]
fn file_operations() {
    assert_eq!(FileOperation::Read.as_str(), "read");
    assert_eq!(FileOperation::Write.as_str(), "write");
    assert_eq!(FileOperation::Delete.as_str(), "delete");
    assert_eq!(FileOperation::Execute.as_str(), "execute");
    assert_eq!(FileOperation::Read.to_permission_type(), PermissionType::FileRead);
    assert_eq!(FileOperation::Delete.to_permission_type(), PermissionType::FileDelete);
    assert_eq!(FileOperation::Execute.to_permission_type(), PermissionType::FileExecute);
}

#[test]
fn github_urls() {
    assert_eq!(
        parse_github_url("https://github.com/owner/repo").unwrap(),
        ("owner".to_string(), "repo".to_string())
    );
    assert_eq!(
        parse_github_url("https://github.com/owner/repo.git/").unwrap(),
        ("owner".to_string(), "repo".to_string())
    );
    assert_eq!(
        parse_github_url("owner/repo").unwrap(),
        ("owner".to_string(), "repo".to_string())
    );
    assert_eq!(
        parse_github_url("git@github.com:owner/repo.git").unwrap(),
        ("git@github.com:owner".to_string(), "repo".to_string())
    );
    assert_eq!(
        parse_github_url("just-a-name").unwrap_err(),
        "Invalid GitHub URL format: just-a-name"
    );
    assert_eq!(
        parse_github_url("a/b/c.git").unwrap_err(),
        "Invalid GitHub URL format: a/b/c"
    );
}

#[test]
fn text_extensions() {
    assert!(is_text_file("rs"));
    assert!(is_text_file("vue"));
    assert!(!is_text_file("png"));
    assert!(!is_text_file("RS"));
}

fn file(path: &str, ext: &str, size: u64, content: Option<&str>) -> RepoFile {
    RepoFile {
        path: path.to_string(),
        content: content.map(|c| c.to_string()),
        file_type: ext.to_string(),
        size,
    }
}

#[test]
fn language_totals() {
    let files = vec![
        file("a.rs", "rs", 100, None),
        file("b.ts", "ts", 40, None),
        file("c.tsx", "tsx", 10, None),
        file("d.rs", "rs", 5, None),
        file("e.md", "md", 999, None),
    ];
    let totals = analyze_languages(&files);
    let mut pairs: Vec<(String, u64)> =
        totals.iter().map(|t| (t.language.clone(), t.bytes)).collect();
    pairs.sort();
    assert_eq!(
        pairs,
        vec![("Rust".to_string(), 105), ("TypeScript".to_string(), 50)]
    );
}

#[test]
fn file_search_ignores_case() {
    let files = vec![
        file("src/Parser.rs", "rs", 1, None),
        file("docs/guide.md", "md", 1, Some("How the PARSER works")),
        file("src/lexer.rs", "rs", 1, Some("tokens")),
    ];
    let found = search_files(files, "parser");
    let paths: Vec<&str> = found.iter().map(|f| f.path.as_str()).collect();
    assert_eq!(paths, vec!["src/Parser.rs", "docs/guide.md"]);
}

#[test]
fn file_operation_checks() {
    assert_eq!(check_read_target("a.txt", 10, true), Ok(()));
    assert_eq!(
        check_read_target("a.txt", 100_000_001, false).unwrap_err(),
        "File too large: 100000001 bytes. Maximum is 100MB for safety"
    );
    assert_eq!(check_read_target("dir", 0, false).unwrap_err(), "Path is not a file: dir");
    assert_eq!(check_write_content("small"), Ok(()));
    assert_eq!(
        check_write_content(&"x".repeat(100_000_001)).unwrap_err(),
        "Content too large: 100000001 bytes. Maximum is 100MB for safety"
    );
    assert_eq!(
        check_delete_target("d", false).unwrap_err(),
        "Cannot delete: d is not a file. Use dir_delete for directories"
    );
    assert_eq!(check_copy_source("s", 2_000_000_000, false).unwrap_err(), "Source is not a file: s");
    assert_eq!(
        check_copy_source("s", 2_000_000_000, true).unwrap_err(),
        "File too large to copy: 2000000000 bytes. Maximum is 1GB"
    );
    assert_eq!(check_copy_source("s", 5, true), Ok(()));
    assert_eq!(
        check_glob_pattern("../*.rs").unwrap_err(),
        "Glob pattern cannot contain directory traversal (..)"
    );
    assert_eq!(
        check_glob_pattern(&"a".repeat(1001)).unwrap_err(),
        "Glob pattern too long: 1001 characters. Maximum is 1000"
    );
    assert_eq!(check_glob_pattern("**/*.rs"), Ok(()));
    assert_eq!(full_glob_pattern("/w", ""), "/w/**/*");
    assert_eq!(full_glob_pattern("/w", "*.md"), "/w/*.md");
    assert_eq!(
        check_dir_target("f.txt", false, ". Use file_delete for files").unwrap_err(),
        "Path is not a directory: f.txt. Use file_delete for files"
    );
    assert_eq!(check_dir_target("d", true, ""), Ok(()));
}
