use agiworkforce::messaging::{
    connection_platform, new_connection, platform_config, CredentialFields, MessagingPlatform,
    PlatformConfig,
};
use agiworkforce::routing::{
    completion_reason, follow_start, follow_step, route_start, route_step, stream_chunk,
    tool_failure_text, tool_result_message, AnswerSource, FollowAction, FollowEvent, FollowPhase,
    RouteAction, RouteEvent,
};

#[test]
fn test_platform_serialization() {
    let platform = MessagingPlatform::Slack;
    assert_eq!(platform.as_str(), "slack");

    let platform = MessagingPlatform::from_str("whatsapp");
    assert!(platform.is_some());
    assert_eq!(platform.unwrap(), MessagingPlatform::WhatsApp);
}

fn fields() -> CredentialFields {
    CredentialFields {
        bot_token: None,
        app_token: None,
        signing_secret: None,
        phone_number_id: None,
        access_token: None,
        tenant_id: None,
        client_id: None,
        client_secret: None,
    }
}

#[test]
fn credentials_per_platform() {
    assert_eq!(connection_platform("teams"), Ok(MessagingPlatform::Teams));
    assert_eq!(connection_platform("irc"), Err("Invalid platform: irc".to_string()));
    let mut f = fields();
    f.bot_token = Some("b".to_string());
    match platform_config(MessagingPlatform::Slack, f) {
        Err(e) => assert_eq!(e, "Missing app_token"),
        Ok(_) => panic!("app token missing"),
    }
    match platform_config(MessagingPlatform::WhatsApp, fields()) {
        Err(e) => assert_eq!(e, "Missing phone_number_id"),
        Ok(_) => panic!("phone number missing"),
    }
    let mut f = fields();
    f.tenant_id = Some("t".to_string());
    f.client_id = Some("c".to_string());
    f.client_secret = Some("s".to_string());
    match platform_config(MessagingPlatform::Teams, f) {
        Ok(PlatformConfig::Teams { tenant_id, client_id, client_secret }) => {
            assert_eq!((tenant_id.as_str(), client_id.as_str(), client_secret.as_str()), ("t", "c", "s"))
        }
        _ => panic!("complete Teams credentials"),
    }
    let c = new_connection(
        "id".to_string(),
        "u".to_string(),
        MessagingPlatform::WhatsApp,
        Some("w".to_string()),
        None,
        None,
        7,
    );
    assert_eq!(c.workspace_id, None);
    assert_eq!(c.workspace_name.as_deref(), Some("WhatsApp Business"));
    assert!(c.is_active);
}

#[test]
fn route_falls_back_to_next_candidate() {
    let (s, a) = route_start(2, true);
    assert!(matches!(a, RouteAction::LookUpCache { candidate: 0 }));
    let (s, a) = route_step(s, RouteEvent::CacheMiss);
    assert!(matches!(a, RouteAction::Invoke { candidate: 0 }));
    let (s, a) = route_step(s, RouteEvent::InvokeFailed { error: "timeout".to_string() });
    assert!(matches!(a, RouteAction::LookUpCache { candidate: 1 }));
    let (s, a) = route_step(s, RouteEvent::CacheHit { provider_known: false });
    assert!(matches!(a, RouteAction::Invoke { candidate: 1 }));
    let (s, a) = route_step(s, RouteEvent::InvokeFailed { error: "rate limited".to_string() });
    match a {
        RouteAction::Fail { message } => assert_eq!(message, "rate limited"),
        _ => panic!("both candidates failed"),
    }
    assert_eq!(s.last_error.as_deref(), Some("rate limited"));
}

#[test]
fn route_with_tools_and_cache() {
    let (_, a) = route_start(0, true);
    match a {
        RouteAction::Fail { message } => assert_eq!(message, "No LLM providers are configured."),
        _ => panic!("no candidates"),
    }
    let (s, _) = route_start(1, true);
    let (_, a) = route_step(s, RouteEvent::CacheHit { provider_known: true });
    assert!(matches!(a, RouteAction::Answer { candidate: 0, source: AnswerSource::Cache }));
    let (s, _) = route_start(1, true);
    let (s, _) = route_step(s, RouteEvent::CacheMiss);
    let (s, a) = route_step(s, RouteEvent::Invoked { tool_calls: true });
    assert!(matches!(a, RouteAction::StoreCache { candidate: 0 }));
    let (s, a) = route_step(s, RouteEvent::Stored);
    assert!(matches!(a, RouteAction::RunTools { candidate: 0 }));
    let (s, a) = route_step(s, RouteEvent::ToolsDone);
    assert!(matches!(a, RouteAction::FollowUp { candidate: 0 }));
    let (_, a) = route_step(s, RouteEvent::FollowUpFailed { error: "boom".to_string() });
    match a {
        RouteAction::Fail { message } => assert_eq!(message, "Follow-up request failed: boom"),
        _ => panic!("follow-up failed"),
    }
    let (s, _) = route_start(1, false);
    let (s, _) = route_step(s, RouteEvent::CacheMiss);
    let (s, _) = route_step(s, RouteEvent::Invoked { tool_calls: true });
    let (_, a) = route_step(s, RouteEvent::Stored);
    assert!(matches!(a, RouteAction::Answer { candidate: 0, source: AnswerSource::Fresh }));
}

#[test]
fn loop_texts() {
    assert_eq!(tool_failure_text("no such file"), "Tool execution failed: no such file");
    assert_eq!(tool_result_message("call_1", "42"), "Tool result [call_1]: 42");
    assert_eq!(completion_reason(None, true), "cache_hit");
    assert_eq!(completion_reason(None, false), "completed");
    assert_eq!(completion_reason(Some("length".to_string()), true), "length");
}

#[test]
fn streamed_answers() {
    let mut acc = String::new();
    let s = stream_chunk(&mut acc, Some(("Hel", false)));
    assert!(s.emit && !s.stop);
    let s = stream_chunk(&mut acc, Some(("", false)));
    assert!(!s.emit && !s.stop);
    let s = stream_chunk(&mut acc, Some(("lo", true)));
    assert!(s.emit && s.stop);
    assert_eq!(acc, "Hello");
    let s = stream_chunk(&mut acc, None);
    assert!(s.stop && !s.emit);
    assert_eq!(follow_start(true, false), (FollowPhase::Done, FollowAction::KeepStreamed));
    let (p, a) = follow_start(true, true);
    assert_eq!(a, FollowAction::CheckTools);
    let (p, a) = follow_step(p, FollowEvent::Checked { tool_calls: true });
    assert_eq!(a, FollowAction::RunTools);
    let (p, a) = follow_step(p, FollowEvent::ToolsDone);
    assert_eq!(a, FollowAction::Finalize);
    assert_eq!(follow_step(p, FollowEvent::FinalDone).1, FollowAction::UseFinal);
    assert_eq!(follow_step(p, FollowEvent::FinalFailed).1, FollowAction::KeepStreamed);
    assert_eq!(
        follow_step(FollowPhase::Checking, FollowEvent::CheckFailed).1,
        FollowAction::KeepStreamed
    );
}

use agiworkforce::database::{check_batch, check_prepared, check_query, check_redis_set};
use agiworkforce::email::get_provider_config;

#[test]
fn database_checks() {
    assert_eq!(check_query("  ", "SELECT 1"), Err("Connection ID cannot be empty".to_string()));
    let long_id = "c".repeat(501);
    assert_eq!(
        check_query(&long_id, "SELECT 1"),
        Err("Connection ID too long: 501 characters. Maximum is 500".to_string())
    );
    assert_eq!(check_query("db", " \n"), Err("SQL query cannot be empty".to_string()));
    assert_eq!(check_query("db", "SELECT 1"), Ok(()));
    assert_eq!(
        check_prepared("db", "SELECT ?", 1001),
        Err("Too many parameters: 1001. Maximum is 1000".to_string())
    );
    assert_eq!(check_batch("db", &Vec::new()), Err("Queries array cannot be empty".to_string()));
    let qs = vec!["SELECT 1".to_string(), "  ".to_string()];
    assert_eq!(check_batch("db", &qs), Err("Query at index 1 is empty".to_string()));
    assert_eq!(check_redis_set("r", "", "v", None), Err("Redis key cannot be empty".to_string()));
    assert_eq!(
        check_redis_set("r", "k", "v", Some(0)),
        Err("Expiration must be greater than 0 seconds".to_string())
    );
    assert_eq!(
        check_redis_set("r", "k", "v", Some(31_536_001)),
        Err("Expiration too long: 31536001 seconds. Maximum is 1 year (31,536,000 seconds)".to_string())
    );
    assert_eq!(check_redis_set("r", "k", "v", Some(60)), Ok(()));
}

#[test]
fn provider_names_in_any_ascii_case() {
    let p = get_provider_config("GMail").expect("gmail preset");
    assert_eq!(p.name, "Gmail");
    let q = get_provider_config("HotMail").expect("hotmail preset");
    assert_eq!(q.name, "Outlook");
    assert!(get_provider_config("proton").is_none());
}
