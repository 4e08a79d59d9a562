use agiworkforce::code_editing::{
    composer_prompt, context_block, edit_prompt, get_file_diff, new_edit, new_session,
    CodeEditingState, EditStatus,
};
use agiworkforce::debugging::{error_text_ok, json_span_ok_exec, rust_text_ok_exec, typescript_text_ok};
use agiworkforce::diff::{apply_diff, compute_diff, diff_applies, DiffHunk};
use agiworkforce::github::{language_totals_fit, RepoFile};

#[test]
fn edit_prompt_text() {
    assert_eq!(
        edit_prompt("\"a.rs\"", "fn a() {}", "a", "rename to b"),
        "You are an expert code editor. Edit the following code according to the instruction.\n\n\
FILE: \"a.rs\"\n\nCURRENT CODE:\n```\nfn a() {}\n```\n\nSELECTED CODE:\n```\na\n```\n\n\
INSTRUCTION: rename to b\n\nRespond ONLY with the modified code. Do not include explanations or markdown formatting."
    );
}

#[test]
fn composer_prompt_text() {
    let block = context_block("\"main.rs\"", "fn main() {}");
    assert_eq!(block, "\n\nFILE: \"main.rs\"\n```\nfn main() {}\n```\n");
    let p = composer_prompt(&block, "add logging");
    assert!(p.starts_with("You are an expert software engineer."));
    assert!(p.contains("CONTEXT FILES:\n\n\nFILE: \"main.rs\"\n```\nfn main() {}\n```\n\n\nREQUEST: add logging\n\nFor each file"));
    assert!(p.ends_with("\"explanation\": \"what was changed and why\"\n  }\n]"));
}

#[test]
fn new_edits_and_sessions() {
    let e = new_edit(
        "e1".to_string(),
        "src/a.rs".to_string(),
        "a\nb".to_string(),
        "a\nc".to_string(),
        None,
        42,
    );
    assert_eq!(e.diff, "-b\n+c\n");
    assert_eq!(e.description, "No explanation provided");
    assert_eq!(e.status, EditStatus::Pending);
    assert_eq!(e.created_at, 42);
    let s = new_session("s1".to_string(), vec![e], "do it".to_string(), vec!["src/a.rs".to_string()], 7);
    assert_eq!(s.status, "pending");
    assert_eq!(s.edits.len(), 1);
}

fn edit(id: &str, path: &str) -> agiworkforce::code_editing::CodeEdit {
    new_edit(
        id.to_string(),
        path.to_string(),
        "old".to_string(),
        "new".to_string(),
        Some(format!("edit {}", id)),
        1,
    )
}

#[test]
fn edit_registry() {
    let mut state = CodeEditingState::new();
    state.insert_edit(edit("a", "x.rs"));
    state.insert_edit(edit("b", "y.rs"));
    assert_eq!(
        state.edit_to_apply(&"b".to_string()).unwrap(),
        ("y.rs".to_string(), "new".to_string())
    );
    assert_eq!(state.edit_to_apply(&"zz".to_string()).unwrap_err(), "Edit not found");
    assert_eq!(state.set_edit_status(&"a".to_string(), EditStatus::Applied), Ok(()));
    assert_eq!(
        state.set_edit_status(&"zz".to_string(), EditStatus::Rejected).unwrap_err(),
        "Edit not found"
    );
    let pending = state.pending_edits();
    assert_eq!(pending.len(), 1);
    assert_eq!(pending[0].id, "b");
    // Storing under an existing id replaces.
    state.insert_edit(edit("a", "z.rs"));
    assert_eq!(state.edits.len(), 2);
    assert_eq!(state.edits[0].file_path, "z.rs");
    assert_eq!(state.pending_edits().len(), 2);
}

#[test]
fn session_registry() {
    let mut state = CodeEditingState::new();
    let s = new_session(
        "s1".to_string(),
        vec![edit("a", "x.rs"), edit("b", "y.rs")],
        "p".to_string(),
        vec![],
        3,
    );
    state.insert_session(s);
    assert_eq!(
        state.get_session(&"nope".to_string()).unwrap_err(),
        "Session not found: nope"
    );
    assert_eq!(state.mark_session_applied(&"nope".to_string(), 2).unwrap_err(), "Session not found");

    state.mark_session_applied(&"s1".to_string(), 1).unwrap();
    let got = state.get_session(&"s1".to_string()).unwrap();
    assert_eq!(got.edits[0].status, EditStatus::Applied);
    assert_eq!(got.edits[1].status, EditStatus::Pending);
    assert_eq!(got.status, "pending");

    state.mark_session_applied(&"s1".to_string(), 2).unwrap();
    let got = state.get_session(&"s1".to_string()).unwrap();
    assert_eq!(got.edits[1].status, EditStatus::Applied);
    assert_eq!(got.status, "applied");
}

#[test]
fn applying_computed_diffs() {
    let cases = [
        ("", ""),
        ("", "one\ntwo"),
        ("one\ntwo\n", ""),
        ("a\nb\nc\nd", "b\nc"),
        ("keep\nx\nkeep\ny\nkeep", "keep\nX\nkeep\nkeep\nz"),
        ("same\n", "same\n"),
    ];
    for (old, new) in cases {
        let d = compute_diff(old, new);
        assert!(diff_applies(old, &d.hunks));
        let expected: Vec<&str> = new.lines().collect();
        assert_eq!(apply_diff(old.to_string(), d.hunks).unwrap(), expected.join("\n"));
    }
}

#[test]
fn hunks_out_of_range_are_refused() {
    let hunk = DiffHunk {
        old_start: 5,
        old_lines: vec![],
        new_start: 5,
        new_lines: vec!["x".to_string()],
        context_before: vec![],
        context_after: vec![],
    };
    assert!(!diff_applies("a\nb", &vec![hunk.clone()]));
    assert!(diff_applies("a\nb\nc\nd\ne", &vec![hunk]));
}

#[test]
fn file_diff_sides_rebuild_both_texts() {
    let original = "a\nb\nc\nd";
    let modified = "a\nx\nc";
    let d = get_file_diff("f".to_string(), original.to_string(), modified.to_string()).unwrap();
    let mut old_side = Vec::new();
    let mut new_side = Vec::new();
    for h in &d.hunks {
        for c in &h.changes {
            if c.change_type != "add" {
                old_side.push(c.content.clone());
            }
            if c.change_type != "delete" {
                new_side.push(c.content.clone());
            }
        }
    }
    assert_eq!(old_side, original.lines().collect::<Vec<_>>());
    assert_eq!(new_side, modified.lines().collect::<Vec<_>>());
}

#[test]
fn parser_preconditions() {
    assert!(typescript_text_ok("src/a.ts(1,2): error TS1: x"));
    assert!(!typescript_text_ok("a): b ( c"));
    assert!(rust_text_ok_exec("error[E1]: x"));
    assert!(!rust_text_ok_exec("error] oops ["));
    assert!(error_text_ok("plain text"));
    assert!(!error_text_ok("TS: x): y ("));
    assert!(json_span_ok_exec("{ [1] }"));
    assert!(!json_span_ok_exec("] then ["));
    assert!(json_span_ok_exec("no json"));
}

#[test]
fn language_totals_overflow_check() {
    let f = |ty: &str, size: u64| RepoFile {
        path: format!("f.{}", ty),
        content: None,
        file_type: ty.to_string(),
        size,
    };
    assert!(language_totals_fit(&vec![f("rs", 10), f("rs", 20)]));
    assert!(!language_totals_fit(&vec![f("rs", u64::MAX), f("rs", 1)]));
    assert!(language_totals_fit(&vec![f("rs", u64::MAX), f("ts", 1)]));
    assert!(language_totals_fit(&vec![f("md", u64::MAX), f("md", 1)]));
}
