use agiworkforce::chat::{auto_title, check_message_request, cost_query, MessageRole};
use agiworkforce::code_editing::proposed_change;
use agiworkforce::file_ops::{decode_binary, encode_binary};
use agiworkforce::media::video_plan_check;

#[test]
fn binary_contents_round_trip() {
    let data: Vec<u8> = vec![0, 255, 1, 2, 3];
    let text = encode_binary(&data);
    assert_eq!(text, "AP8BAgM=");
    assert_eq!(decode_binary(&text), Ok(data));
    assert_eq!(encode_binary(b"hi"), "aGk=");
    match decode_binary("not base64!") {
        Err(e) => assert!(e.starts_with("Failed to decode base64: ")),
        Ok(_) => panic!("invalid text decoded"),
    }
}

#[test]
fn message_request_checks_in_order() {
    assert_eq!(
        check_message_request(1, "  hello ", Some(3), None, "user"),
        Ok(("hello".to_string(), MessageRole::User))
    );
    assert_eq!(
        check_message_request(0, "", Some(-1), None, "bad"),
        Err("Invalid conversation ID: 0. ID must be positive".to_string())
    );
    assert_eq!(
        check_message_request(2, "   ", Some(-1), None, "bad"),
        Err("Message content cannot be empty".to_string())
    );
    assert_eq!(
        check_message_request(2, "x", Some(-4), Some("cost".to_string()), "bad"),
        Err("Invalid tokens value: -4. Tokens must be non-negative".to_string())
    );
    assert_eq!(
        check_message_request(2, "x", None, Some("Invalid cost value: -1. Cost must be non-negative".to_string()), "bad"),
        Err("Invalid cost value: -1. Cost must be non-negative".to_string())
    );
    assert_eq!(
        check_message_request(2, "x", None, None, "bot"),
        Err("Invalid role: 'bot'. Must be 'user', 'assistant', or 'system'".to_string())
    );
}

#[test]
fn conversation_titles_from_first_message() {
    assert_eq!(
        auto_title("New Conversation", "  Fix the parser\nand more"),
        Some("Fix the parser".to_string())
    );
    let long = "x".repeat(60);
    assert_eq!(auto_title("New Conversation", &long), Some("x".repeat(50)));
    assert_eq!(auto_title("My chat", "Fix the parser"), None);
    assert_eq!(auto_title("New Conversation", "   \nsecond"), None);
    assert_eq!(auto_title("New Conversation", "New Conversation"), None);
}

#[test]
fn cost_query_window_and_filters() {
    let q = cost_query(None, Some("  openai "), Some("   ")).unwrap();
    assert_eq!(q.window_days, 30);
    assert_eq!(q.provider.as_deref(), Some("openai"));
    assert_eq!(q.model, None);
    assert_eq!(cost_query(Some(7), None, None).unwrap().window_days, 7);
    assert_eq!(
        cost_query(Some(0), None, None).unwrap_err(),
        "Invalid days value: 0. Days must be positive"
    );
    assert_eq!(
        cost_query(Some(3651), None, None).unwrap_err(),
        "Invalid days value: 3651. Days cannot exceed 3650 (10 years)"
    );
}

#[test]
fn composer_changes_need_path_and_content() {
    assert_eq!(proposed_change(None, None), Err("Missing file_path".to_string()));
    assert_eq!(
        proposed_change(Some("a.rs".to_string()), None),
        Err("Missing content".to_string())
    );
    assert_eq!(
        proposed_change(Some("a.rs".to_string()), Some("fn main() {}".to_string())),
        Ok(("a.rs".to_string(), "fn main() {}".to_string()))
    );
}

#[test]
fn video_needs_a_video_plan() {
    assert_eq!(video_plan_check(None), Ok(()));
    assert_eq!(video_plan_check(Some("Pro")), Ok(()));
    assert_eq!(
        video_plan_check(Some("free")),
        Err("Video generation requires Pro or Max subscription".to_string())
    );
}

use agiworkforce::agent::{approval_notice, ApprovalResolution};

#[test]
fn approval_notices() {
    let n = approval_notice(&ApprovalResolution::Approved { trust: true });
    assert_eq!(n.events, vec!["agi:approval_granted", "approval:granted", "agent:action_update"]);
    assert_eq!(n.action_status, "running");
    assert_eq!(n.reason, None);
    let n = approval_notice(&ApprovalResolution::Rejected { reason: None });
    assert_eq!(n.events, vec!["agi:approval_denied", "approval:denied", "agent:action_update"]);
    assert_eq!(n.action_status, "failed");
    assert_eq!(n.reason.as_deref(), Some("Rejected by user"));
    assert_eq!(n.error.as_deref(), Some("Rejected"));
}
