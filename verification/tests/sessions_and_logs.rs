use agiworkforce::completion::{
    completion_max_tokens, completion_response, inline_completion_prompt, inline_completion_text,
};
use agiworkforce::computer_use::{
    tool_call, ActionType, ComputerAction, ComputerUseState, ScreenCapture, ToolArgs, ToolCall,
};
use agiworkforce::error_reporting::{count_matches_exec, error_stats, is_log_file, tail_lines};
use agiworkforce::file_ops::{
    audit_operation_type, dangerous_operation_event, permission_outcome, FileOperation,
};

fn click(x: i32, y: i32) -> ComputerAction {
    ComputerAction {
        action_type: ActionType::Click,
        coordinates: Some((x, y)),
        text: None,
        key: None,
    }
}

#[test]
fn inline_prompt_cuts_context_around_cursor() {
    let before = "a".repeat(250) + "xyz";
    let after = "b".repeat(120);
    let p = inline_completion_prompt(&before, &after, "rust");
    let expected = format!(
        "Complete the code:\n```rust\n{}[CURSOR]{}\n```\nReturn ONLY the completion text:",
        &before[before.len() - 200..],
        &after[..100]
    );
    assert_eq!(p, expected);
}

#[test]
fn inline_prompt_keeps_short_context() {
    let p = inline_completion_prompt("let x = ", ";", "ts");
    assert_eq!(
        p,
        "Complete the code:\n```ts\nlet x = [CURSOR];\n```\nReturn ONLY the completion text:"
    );
}

#[test]
fn inline_prompt_counts_characters_not_bytes() {
    let before = "é".repeat(201);
    let p = inline_completion_prompt(&before, "", "py");
    assert_eq!(p.matches('é').count(), 200);
}

#[test]
fn completion_defaults() {
    assert_eq!(completion_max_tokens(None), 150);
    assert_eq!(completion_max_tokens(Some(64)), 64);
    let r = completion_response("x".to_string(), "openai".to_string(), None, 12);
    assert_eq!(r.tokens, 0);
    assert_eq!(r.latency, 12);
    assert_eq!(r.model, "openai");
    assert_eq!(inline_completion_text("  foo()\n"), "foo()");
}

#[test]
fn counts_log_levels() {
    let log = "ERROR a\nWARN b\nCRITICAL ERROR c\nWARNING d\nINFO e";
    let s = error_stats(Some(log), 77);
    assert_eq!(s.total_errors, 2);
    assert_eq!(s.critical_errors, 1);
    assert_eq!(s.warnings, 2);
    assert_eq!(s.log_file_size_bytes, 77);
    let none = error_stats(None, 77);
    assert_eq!(none.total_errors, 0);
    assert_eq!(none.log_file_size_bytes, 0);
}

#[test]
fn matches_do_not_overlap() {
    let v: Vec<char> = "aaaa".chars().collect();
    assert_eq!(count_matches_exec(&v, "aa"), 2);
    let w: Vec<char> = "abab".chars().collect();
    assert_eq!(count_matches_exec(&w, "c"), 0);
}

#[test]
fn tail_of_log() {
    let log = "one\ntwo\r\nthree\n";
    assert_eq!(tail_lines(log, 2), vec!["two".to_string(), "three".to_string()]);
    assert_eq!(tail_lines(log, 10).len(), 3);
    assert!(tail_lines(log, 0).is_empty());
}

#[test]
fn log_files_by_extension() {
    assert!(is_log_file("/var/log/app/agiworkforce.log"));
    assert!(!is_log_file("/var/log/app/agiworkforce.log.1"));
    assert!(!is_log_file("/var/log/app/.log"));
    assert!(!is_log_file("/var/log/app/notes.txt"));
}

#[test]
fn audit_and_permissions() {
    assert_eq!(audit_operation_type(FileOperation::Read), "FILE_READ");
    assert_eq!(audit_operation_type(FileOperation::Execute), "FILE_EXECUTE");
    assert!(permission_outcome("/home/user/notes.txt", true));
    assert!(!permission_outcome("/home/user/notes.txt", false));
    assert!(!permission_outcome("/home/user/.ssh/id_rsa", true));
}

#[test]
fn dangerous_operations_need_confirmation() {
    let few: Vec<String> = (0..9).map(|i| format!("f{}", i)).collect();
    assert!(dangerous_operation_event("delete", &few).is_none());
    let many: Vec<String> = (0..10).map(|i| format!("f{}", i)).collect();
    let e = dangerous_operation_event("delete", &many).expect("ten files need confirmation");
    assert_eq!(e.operation, "delete");
    assert_eq!(e.file_count, 10);
    assert_eq!(e.paths, many);
}

#[test]
fn recorded_action_is_found_in_its_session() {
    let mut state = ComputerUseState::new();
    let id = state.start_session("s1".to_string(), 100);
    assert_eq!(id, "s1");
    state.record_action(click(3, 4));
    state.record_screenshot(ScreenCapture {
        image_data: "aGk=".to_string(),
        width: 2,
        height: 1,
        timestamp: 101,
    });
    let s = state.get_session("s1").expect("started session");
    assert_eq!(s.started_at, 100);
    assert_eq!(s.actions.len(), 1);
    assert_eq!(s.actions[0].coordinates, Some((3, 4)));
    assert_eq!(s.screenshots.len(), 1);
    assert_eq!(s.screenshots[0].image_data, "aGk=");
}

#[test]
fn actions_go_to_the_current_session() {
    let mut state = ComputerUseState::default();
    state.record_action(click(0, 0));
    state.start_session("a".to_string(), 1);
    state.start_session("b".to_string(), 2);
    state.record_action(click(5, 6));
    assert_eq!(state.get_session("a").unwrap().actions.len(), 0);
    assert_eq!(state.get_session("b").unwrap().actions.len(), 1);
    assert_eq!(state.list_sessions().len(), 2);
    match state.get_session("zzz") {
        Err(e) => assert_eq!(e, "Session not found: zzz"),
        Ok(_) => panic!("no such session"),
    }
}

#[test]
fn tools_by_name() {
    let args = ToolArgs { x: Some(10), y: Some(20), text: None };
    assert!(matches!(tool_call("click", &args), Ok(ToolCall::Click { x: 10, y: 20 })));
    assert!(matches!(tool_call("move_mouse", &args), Ok(ToolCall::MoveMouse { x: 10, y: 20 })));
    assert!(matches!(tool_call("screenshot", &args), Ok(ToolCall::Screenshot)));
    match tool_call("type", &args) {
        Err(e) => assert_eq!(e, "Missing text"),
        Ok(_) => panic!("text is missing"),
    }
    let no_y = ToolArgs { x: Some(1), y: None, text: Some("hi".to_string()) };
    match tool_call("click", &no_y) {
        Err(e) => assert_eq!(e, "Missing y coordinate"),
        Ok(_) => panic!("y is missing"),
    }
    match tool_call("type", &no_y) {
        Ok(ToolCall::Type { text }) => assert_eq!(text, "hi"),
        _ => panic!("text is given"),
    }
    match tool_call("scroll", &no_y) {
        Err(e) => assert_eq!(e, "Unknown tool: scroll"),
        Ok(_) => panic!("unknown tool"),
    }
    let wide = ToolArgs { x: Some((1i64 << 32) + 7), y: Some(-1), text: None };
    assert!(matches!(tool_call("click", &wide), Ok(ToolCall::Click { x: 7, y: -1 })));
}

use agiworkforce::browser::{dom_snapshot, network_request};

#[test]
fn page_reads() {
    let s = dom_snapshot(None, 5);
    assert_eq!(s.html, "");
    assert_eq!(s.timestamp, 5);
    assert_eq!(dom_snapshot(Some("<html></html>".to_string()), 6).html, "<html></html>");
    let r = network_request(
        Some("https://a.test/x.js".to_string()),
        Some("GET".to_string()),
        Some(65536 + 200),
        Some(12),
        Some(1000),
    )
    .expect("complete entry");
    assert_eq!(r.status, 200);
    assert_eq!(r.duration_ms, 12);
    assert!(network_request(Some("u".to_string()), None, Some(200), Some(1), Some(2)).is_none());
}
