use agiworkforce::git::{
    added_files_message, branch_created_message, branch_deleted_message, delete_branch_flag,
    diff_args, file_list, get_ahead_behind_count, log_count_arg, parse_branches, parse_log,
    parse_numstat, parse_remotes, pull_args, push_args, remote_added_message,
    status_from_outputs, switched_message,
};

#[test]
fn file_list_skips_empty_lines() {
    assert_eq!(file_list("a.rs\n\nb.rs\n"), vec!["a.rs", "b.rs"]);
    assert_eq!(file_list("one\r\ntwo"), vec!["one", "two"]);
    assert!(file_list("").is_empty());
}

#[test]
fn branches_are_read() {
    let out = "* main    1a2b3c4 Initial commit\n  dev 5d6e7f8 Work\n\n";
    let branches = parse_branches(out);
    assert_eq!(branches.len(), 2);
    assert_eq!(branches[0].name, "main");
    assert!(branches[0].is_current);
    assert_eq!(branches[0].last_commit, "1a2b3c4");
    assert_eq!(branches[1].name, "dev");
    assert!(!branches[1].is_current);
    assert_eq!(branches[1].last_commit, "5d6e7f8");
}

#[test]
fn branch_line_with_one_word() {
    let branches = parse_branches("*lonely");
    assert_eq!(branches.len(), 1);
    assert_eq!(branches[0].name, "lonely");
    assert_eq!(branches[0].last_commit, "");
}

#[test]
fn log_lines_are_split_on_bars() {
    let out = "abc|Jane|jane@x.org|2025-01-01 10:00:00 +0000|Fix bug\nshort|Only\n";
    let commits = parse_log(out);
    assert_eq!(commits.len(), 2);
    assert_eq!(commits[0].hash, "abc");
    assert_eq!(commits[0].author, "Jane");
    assert_eq!(commits[0].email, "jane@x.org");
    assert_eq!(commits[0].date, "2025-01-01 10:00:00 +0000");
    assert_eq!(commits[0].message, "Fix bug");
    assert_eq!(commits[1].hash, "short");
    assert_eq!(commits[1].author, "Only");
    assert_eq!(commits[1].email, "");
    assert_eq!(commits[1].message, "");
}

#[test]
fn numstat_lines_are_read() {
    let out = "10\t2\tsrc/a.rs\n-\t-\timage.png\nbad line\n";
    let diffs = parse_numstat(out);
    assert_eq!(diffs.len(), 2);
    assert_eq!(diffs[0].file_path, "src/a.rs");
    assert_eq!(diffs[0].additions, 10);
    assert_eq!(diffs[0].deletions, 2);
    assert_eq!(diffs[0].diff_content, "");
    assert_eq!(diffs[1].file_path, "image.png");
    assert_eq!(diffs[1].additions, 0);
    assert_eq!(diffs[1].deletions, 0);
}

#[test]
fn only_fetch_remotes_are_listed() {
    let out = "origin\thttps://github.com/o/r.git (fetch)\norigin\thttps://github.com/o/r.git (push)\n";
    let remotes = parse_remotes(out);
    assert_eq!(
        remotes,
        vec![("origin".to_string(), "https://github.com/o/r.git".to_string())]
    );
}

#[test]
fn ahead_behind_counts() {
    assert_eq!(get_ahead_behind_count(true, "3\t5\n"), (3, 5));
    assert_eq!(get_ahead_behind_count(true, "7"), (7, 0));
    assert_eq!(get_ahead_behind_count(true, "x 4"), (0, 4));
    assert_eq!(get_ahead_behind_count(true, ""), (0, 0));
    assert_eq!(get_ahead_behind_count(false, "3 5"), (0, 0));
}

#[test]
fn status_is_assembled_from_outputs() {
    let s = status_from_outputs("  main\n", 1, 2, "a.rs\n", "", "new.txt\nother.txt\n", "");
    assert_eq!(s.branch, "main");
    assert_eq!(s.ahead, 1);
    assert_eq!(s.behind, 2);
    assert_eq!(s.staged, vec!["a.rs"]);
    assert!(s.unstaged.is_empty());
    assert_eq!(s.untracked, vec!["new.txt", "other.txt"]);
    assert!(s.conflicts.is_empty());
}

#[test]
fn command_arguments() {
    assert_eq!(push_args(None, None, false), vec!["push", "origin"]);
    assert_eq!(
        push_args(Some("up".to_string()), Some("main".to_string()), true),
        vec!["push", "--force", "up", "main"]
    );
    assert_eq!(pull_args(None, Some("dev".to_string())), vec!["pull", "origin", "dev"]);
    assert_eq!(diff_args(None, false), vec!["diff", "--numstat"]);
    assert_eq!(
        diff_args(Some("a.rs".to_string()), true),
        vec!["diff", "--cached", "--numstat", "a.rs"]
    );
    assert_eq!(log_count_arg(None), "-n50");
    assert_eq!(log_count_arg(Some(7)), "-n7");
    assert_eq!(delete_branch_flag(true), "-D");
    assert_eq!(delete_branch_flag(false), "-d");
}

#[test]
fn command_messages() {
    assert_eq!(branch_created_message("feat"), "Branch 'feat' created");
    assert_eq!(branch_deleted_message("feat"), "Branch 'feat' deleted");
    assert_eq!(switched_message("feat"), "Switched to new branch 'feat'");
    assert_eq!(remote_added_message("up"), "Remote 'up' added");
    assert_eq!(added_files_message(3), "Added 3 files");
}
