use agiworkforce::agi::{goal_from_request, goal_not_found, goal_priority, parallel_agents, GoalPriority};
use agiworkforce::background_tasks::{submit_priority, task_filter, ListBackgroundTasksRequest, SubmitTaskRequest as BgSubmitTaskRequest, TaskFilter, TaskPriority, TaskStatus};
use agiworkforce::agent::{rejection_error, rejection_reason, resolve_decision, task_not_found, ApprovalResolution};
use agiworkforce::chat::{check_conversation_id, check_message_id, check_tokens, conversation_title, message_content, parse_message_role, MessageRole};
use agiworkforce::file_watcher::FileWatcherState;
use agiworkforce::realtime::RealtimeState;
use agiworkforce::automation::{
    click_button, click_point, default_drag_duration, default_left_button, drag_region,
    replay_start, typing_anchor, typing_preview, ClickButton, ClickRequest, DragDropRequest,
    OverlayRegionPayload, SendKeysRequest,
};
use agiworkforce::chat::{blocked_message, join_strings, message_text};
use agiworkforce::checkpoints::{
    check_restore_target, checkpoint_from_request, CreateCheckpointRequest,
    RestoreCheckpointRequest,
};
use agiworkforce::settings::{
    api_key_entry_name, choose_model, default_window_preferences, model_for_provider,
    prepare_api_key, DefaultModels,
};

fn models() -> DefaultModels {
    DefaultModels {
        openai: "o-model".to_string(),
        anthropic: "a-model".to_string(),
        google: "g-model".to_string(),
        ollama: "l-model".to_string(),
        xai: "x-model".to_string(),
        deepseek: String::new(),
        qwen: "q-model".to_string(),
        mistral: String::new(),
        moonshot: "k-model".to_string(),
    }
}

#[test]
fn automation_defaults() {
    assert_eq!(default_drag_duration(), 300);
    assert_eq!(default_left_button(), "left");
}

#[test]
fn click_buttons() {
    assert_eq!(click_button(None), ("left".to_string(), ClickButton::Left));
    assert_eq!(click_button(Some("RIGHT")), ("right".to_string(), ClickButton::Right));
    assert_eq!(click_button(Some("Middle")), ("middle".to_string(), ClickButton::Middle));
    assert_eq!(click_button(Some("Other")), ("other".to_string(), ClickButton::Left));
}

#[test]
fn click_points() {
    let by_element = ClickRequest {
        element_id: Some("e1".to_string()),
        x: Some(1),
        y: Some(2),
        button: None,
    };
    assert_eq!(click_point(&by_element, (50, 60)), Ok((50, 60)));
    let by_point = ClickRequest { element_id: None, x: Some(1), y: Some(2), button: None };
    assert_eq!(click_point(&by_point, (50, 60)), Ok((1, 2)));
    let neither = ClickRequest { element_id: None, x: Some(1), y: None, button: None };
    assert_eq!(
        click_point(&neither, (50, 60)).unwrap_err(),
        "Either element_id or (x, y) must be provided"
    );
}

#[test]
fn typing_requests() {
    let req = SendKeysRequest {
        text: "hello".to_string(),
        element_id: None,
        x: Some(3),
        y: Some(4),
        focus: None,
    };
    assert!(!req.should_focus(false));
    assert!(req.should_focus(true));
    assert_eq!(req.fallback_position(), Some((3, 4)));
    let focused = SendKeysRequest { focus: Some(true), x: None, ..req };
    assert!(focused.should_focus(false));
    assert_eq!(focused.fallback_position(), None);
    assert_eq!(typing_anchor(None), (0, 0));
    assert_eq!(typing_anchor(Some((9, 8))), (9, 8));
    let long: String = std::iter::repeat('a').take(40).collect();
    assert_eq!(typing_preview(&long).chars().count(), 32);
    assert_eq!(typing_preview("short"), "short");
}

#[test]
fn drag_regions() {
    let req = DragDropRequest { from_x: 10, from_y: 50, to_x: 4, to_y: 70, duration_ms: 300 };
    assert_eq!(
        drag_region(&req),
        OverlayRegionPayload { x: 4, y: 50, width: 6, height: 20 }
    );
}

#[test]
fn replay_window() {
    assert_eq!(replay_start(15, None), 5);
    assert_eq!(replay_start(3, None), 0);
    assert_eq!(replay_start(15, Some(20)), 0);
    assert_eq!(replay_start(15, Some(4)), 11);
}

#[test]
fn settings_defaults() {
    let w = default_window_preferences();
    assert_eq!(w.theme, "system");
    assert_eq!(w.startup_position, "center");
    assert_eq!(w.dock_on_startup, None);
}

#[test]
fn api_keys() {
    assert_eq!(api_key_entry_name("openai"), "api_key_openai");
    assert_eq!(prepare_api_key("  sk-123 \n"), Ok("sk-123".to_string()));
    assert_eq!(prepare_api_key(" \t ").unwrap_err(), "API key cannot be empty");
}

#[test]
fn model_choice() {
    let m = models();
    assert_eq!(model_for_provider("anthropic", &m), "a-model");
    assert_eq!(model_for_provider("unknown", &m), "o-model");
    assert_eq!(model_for_provider("mistral", &m), "");
    assert_eq!(choose_model(Some("o"), Some("m"), None, None, "openai", &m), "o");
    assert_eq!(choose_model(None, Some("m"), None, None, "openai", &m), "m");
    assert_eq!(
        choose_model(None, None, Some("google"), Some("xai"), "openai", &m),
        "g-model"
    );
    assert_eq!(choose_model(None, None, None, Some("xai"), "openai", &m), "x-model");
    assert_eq!(choose_model(None, None, None, None, "qwen", &m), "q-model");
}

#[test]
fn chat_message_text() {
    assert_eq!(message_text("  hi there \n"), Ok("hi there".to_string()));
    assert_eq!(message_text("   ").unwrap_err(), "Message cannot be empty");
}

#[test]
fn chat_blocked_message() {
    let patterns = vec!["ignore previous".to_string(), "system prompt".to_string()];
    assert_eq!(join_strings(&patterns, ", "), "ignore previous, system prompt");
    assert_eq!(
        blocked_message(&patterns),
        "Message blocked due to security concerns. Detected patterns: ignore previous, system prompt"
    );
    assert_eq!(
        blocked_message(&Vec::new()),
        "Message blocked due to security concerns. Detected patterns: "
    );
}

#[test]
fn checkpoints() {
    let req = CreateCheckpointRequest {
        conversation_id: 7,
        checkpoint_name: "before refactor".to_string(),
        description: Some("d".to_string()),
        parent_checkpoint_id: None,
        branch_name: Some("b".to_string()),
    };
    let cp = checkpoint_from_request(req, "id-1".to_string(), 1700, 3, "[]".to_string());
    assert_eq!(cp.id, "id-1");
    assert_eq!(cp.conversation_id, 7);
    assert_eq!(cp.checkpoint_name, "before refactor");
    assert_eq!(cp.message_count, 3);
    assert_eq!(cp.messages_snapshot, "[]");
    assert_eq!(cp.context_snapshot, None);
    assert_eq!(cp.metadata, None);
    assert_eq!(cp.branch_name, Some("b".to_string()));
    assert_eq!(cp.created_at, 1700);

    let same = RestoreCheckpointRequest { checkpoint_id: "id-1".to_string(), conversation_id: 7 };
    assert_eq!(check_restore_target(&cp, &same), Ok(()));
    let other = RestoreCheckpointRequest { checkpoint_id: "id-1".to_string(), conversation_id: 8 };
    assert_eq!(
        check_restore_target(&cp, &other).unwrap_err(),
        "Checkpoint does not belong to this conversation"
    );
}

#[test]
fn realtime_url() {
    let state = RealtimeState::new((), 8787);
    assert_eq!(state.websocket_port, 8787);
    assert_eq!(state.websocket_url(), "ws://127.0.0.1:8787");
    assert_eq!(RealtimeState::new("p", 0).websocket_url(), "ws://127.0.0.1:0");
}

#[test]
fn file_watcher_lifecycle() {
    let mut state: FileWatcherState<u8> = FileWatcherState::new();
    assert!(!state.is_initialized());
    assert_eq!(state.require_watcher().unwrap_err(), "File watcher not initialized");
    state.0 = Some(1);
    assert!(state.is_initialized());
    assert_eq!(state.require_watcher(), Ok(()));
}

#[test]
fn conversation_and_message_checks() {
    assert_eq!(check_conversation_id(3), Ok(()));
    assert_eq!(
        check_conversation_id(0).unwrap_err(),
        "Invalid conversation ID: 0. ID must be positive"
    );
    assert_eq!(
        check_message_id(-12).unwrap_err(),
        "Invalid message ID: -12. ID must be positive"
    );
    assert_eq!(
        check_message_id(i64::MIN).unwrap_err(),
        "Invalid message ID: -9223372036854775808. ID must be positive"
    );
    assert_eq!(conversation_title("  Trip plans \n"), Ok("Trip plans".to_string()));
    assert_eq!(
        conversation_title(" ").unwrap_err(),
        "Conversation title cannot be empty"
    );
    assert_eq!(
        conversation_title(&"é".repeat(251)).unwrap_err(),
        "Conversation title cannot exceed 500 characters"
    );
    assert!(conversation_title(&"é".repeat(250)).is_ok());
    assert_eq!(message_content("\thello\t"), Ok("hello".to_string()));
    assert_eq!(message_content("").unwrap_err(), "Message content cannot be empty");
    assert_eq!(
        message_content(&"x".repeat(1_000_001)).unwrap_err(),
        "Message content cannot exceed 1,000,000 characters"
    );
    assert_eq!(check_tokens(None), Ok(()));
    assert_eq!(check_tokens(Some(0)), Ok(()));
    assert_eq!(
        check_tokens(Some(-5)).unwrap_err(),
        "Invalid tokens value: -5. Tokens must be non-negative"
    );
    assert_eq!(parse_message_role("assistant"), Ok(MessageRole::Assistant));
    assert_eq!(parse_message_role("system"), Ok(MessageRole::System));
    assert_eq!(
        parse_message_role("User").unwrap_err(),
        "Invalid role: 'User'. Must be 'user', 'assistant', or 'system'"
    );
}

#[test]
fn approval_decisions() {
    match resolve_decision("APPROVED", Some(true), None).unwrap() {
        ApprovalResolution::Approved { trust } => assert!(trust),
        _ => panic!("expected approval"),
    }
    match resolve_decision("approve", None, None).unwrap() {
        ApprovalResolution::Approved { trust } => assert!(!trust),
        _ => panic!("expected approval"),
    }
    match resolve_decision("Reject", None, Some("unsafe".to_string())).unwrap() {
        ApprovalResolution::Rejected { reason } => assert_eq!(reason, Some("unsafe".to_string())),
        _ => panic!("expected rejection"),
    }
    assert_eq!(
        resolve_decision("Maybe", None, None).unwrap_err(),
        "Invalid approval decision: maybe"
    );
    assert_eq!(rejection_reason(&None), "Rejected by user");
    assert_eq!(rejection_reason(&Some("no".to_string())), "no");
    assert_eq!(rejection_error(&None), "Rejected");
    assert_eq!(task_not_found("t1"), "Task t1 not found");
}

#[test]
fn goals_from_requests() {
    assert_eq!(goal_priority(Some("critical")), GoalPriority::Critical);
    assert_eq!(goal_priority(Some("High")), GoalPriority::Medium);
    assert_eq!(goal_priority(None), GoalPriority::Medium);
    let g = goal_from_request(
        "0123abcd-4567-89ef-0000-111122223333",
        "ship it".to_string(),
        Some("low"),
        Some(99),
        None,
    );
    assert_eq!(g.id, "goal_0123abcd");
    assert_eq!(g.description, "ship it");
    assert_eq!(g.priority, GoalPriority::Low);
    assert_eq!(g.deadline, Some(99));
    assert!(g.success_criteria.is_empty());
    let g = goal_from_request("ffffffffff", "x".to_string(), None, None, Some(vec!["done".to_string()]));
    assert_eq!(g.success_criteria, vec!["done"]);
    assert_eq!(parallel_agents(None), 8);
    assert_eq!(parallel_agents(Some(3)), 3);
    assert_eq!(goal_not_found("g1"), "Goal g1 not found");
}

#[test]
fn background_task_requests() {
    let submit = BgSubmitTaskRequest {
        name: "index".to_string(),
        description: None,
        priority: "High".to_string(),
        payload: None,
    };
    assert_eq!(submit_priority(&submit), TaskPriority::High);
    let odd = BgSubmitTaskRequest { priority: "urgent".to_string(), ..submit };
    assert_eq!(submit_priority(&odd), TaskPriority::Normal);
    let list = ListBackgroundTasksRequest {
        status: Some("Paused".to_string()),
        priority: Some("low".to_string()),
        limit: Some(5),
    };
    assert_eq!(
        task_filter(&list),
        TaskFilter { status: Some(TaskStatus::Paused), priority: None, limit: Some(5) }
    );
}
