use agiworkforce::chat::{
    parse_cost_priority, parse_routing_strategy, router_context_from_metadata,
    split_stream_chunks, CostPriority, RoutingStrategy, TaskMetadata,
};
use agiworkforce::email::{
    bool_to_int, decode_password, default_true, encode_password, get_provider_config,
    int_to_bool, EmailAccountRecord,
};
use agiworkforce::media::{
    api_key_env_names, keyring_entry, map_image_provider, plan_allows_video, provider_hint,
    provider_to_label, ImageProvider,
};
use agiworkforce::subscription::get_plan_details;

#[test]
fn provider_presets() {
    let gmail = get_provider_config("Gmail").unwrap();
    assert_eq!(gmail.name, "Gmail");
    assert_eq!(gmail.imap_host, "imap.gmail.com");
    assert_eq!(gmail.imap_port, 993);
    assert!(gmail.imap_use_tls);
    assert_eq!(gmail.smtp_host, "smtp.gmail.com");
    assert_eq!(gmail.smtp_port, 587);
    assert_eq!(get_provider_config("HOTMAIL").unwrap().name, "Outlook");
    assert_eq!(get_provider_config("yahoo").unwrap().smtp_host, "smtp.mail.yahoo.com");
    assert!(get_provider_config("fastmail").is_none());
}

#[test]
fn stored_flags() {
    assert_eq!(bool_to_int(true), 1);
    assert_eq!(bool_to_int(false), 0);
    assert!(int_to_bool(5));
    assert!(int_to_bool(-1));
    assert!(!int_to_bool(0));
    assert!(default_true());
}

#[test]
fn password_encoding_round_trip() {
    for p in ["", "hunter2", "pässwörd ✓"] {
        let encoded = encode_password(p);
        assert_eq!(decode_password(&encoded).unwrap(), p);
    }
    assert_eq!(encode_password("super-secret"), "c3VwZXItc2VjcmV0");
}

#[test]
fn password_decoding_errors() {
    let err = decode_password("not base64!").unwrap_err();
    assert!(err.starts_with("Failed to decode stored credentials: "));
    // "/w==" is the single byte 0xFF, which is not UTF-8.
    let err = decode_password("/w==").unwrap_err();
    assert!(err.starts_with("Stored credentials invalid UTF-8: "));
}

#[test]
fn account_without_password() {
    let record = EmailAccountRecord {
        id: 3,
        provider: "gmail".to_string(),
        email: "me@example.com".to_string(),
        display_name: Some("Me".to_string()),
        imap_host: "imap.gmail.com".to_string(),
        imap_port: 993,
        imap_use_tls: true,
        smtp_host: "smtp.gmail.com".to_string(),
        smtp_port: 587,
        smtp_use_tls: true,
        password: "c2VjcmV0".to_string(),
        created_at: 10,
        last_sync: None,
    };
    let account = record.into_account();
    assert_eq!(account.id, 3);
    assert_eq!(account.email, "me@example.com");
    assert_eq!(account.display_name, Some("Me".to_string()));
    assert_eq!(account.smtp_port, 587);
    assert_eq!(account.last_sync, None);
}

#[test]
fn image_providers() {
    assert_eq!(map_image_provider(None), ImageProvider::GoogleImagen);
    assert_eq!(map_image_provider(Some("nano_banana")), ImageProvider::GoogleImagenLite);
    assert_eq!(map_image_provider(Some("openai")), ImageProvider::DALLE);
    assert_eq!(map_image_provider(Some("sdxl")), ImageProvider::StableDiffusion);
    assert_eq!(map_image_provider(Some("midjourney")), ImageProvider::Midjourney);
    assert_eq!(map_image_provider(Some("DALLE")), ImageProvider::GoogleImagen);
    assert_eq!(provider_hint(&ImageProvider::DALLE), "openai");
    assert_eq!(provider_hint(&ImageProvider::GoogleImagenLite), "google");
    assert_eq!(provider_to_label(&ImageProvider::StableDiffusion), "stability-sdxl");
    assert_eq!(provider_to_label(&ImageProvider::GoogleImagenLite), "google-imagen-3.1-nano");
}

#[test]
fn media_api_keys() {
    assert_eq!(api_key_env_names("openai"), vec!["OPENAI_API_KEY"]);
    assert_eq!(
        api_key_env_names("google"),
        vec!["GOOGLE_API_KEY", "VERTEX_API_KEY", "GENAI_API_KEY"]
    );
    assert_eq!(api_key_env_names("runway"), vec!["RUNWAY"]);
    assert_eq!(keyring_entry("stability"), "api_key_stability");
}

#[test]
fn video_plans() {
    assert!(plan_allows_video("Pro"));
    assert!(plan_allows_video("team-annual"));
    assert!(plan_allows_video("ENTERPRISE"));
    assert!(!plan_allows_video("free"));
    assert!(!plan_allows_video("basic"));
}

#[test]
fn plan_tiers() {
    assert_eq!(
        get_plan_details("price_enterprise_year"),
        ("Enterprise".to_string(), "yearly".to_string())
    );
    assert_eq!(
        get_plan_details("team_monthly"),
        ("Standard".to_string(), "monthly".to_string())
    );
}

#[test]
fn routing_preferences() {
    assert_eq!(parse_cost_priority(Some("LOW")), CostPriority::Low);
    assert_eq!(parse_cost_priority(Some("high")), CostPriority::Balanced);
    assert_eq!(parse_cost_priority(None), CostPriority::Balanced);
    assert_eq!(parse_routing_strategy(Some("cost")), RoutingStrategy::CostOptimized);
    assert_eq!(parse_routing_strategy(Some("latency_optimized")), RoutingStrategy::LatencyOptimized);
    assert_eq!(parse_routing_strategy(Some("Local")), RoutingStrategy::LocalFirst);
    assert_eq!(parse_routing_strategy(Some("fastest")), RoutingStrategy::Auto);
    assert_eq!(parse_routing_strategy(None), RoutingStrategy::Auto);
}

#[test]
fn router_context() {
    let meta = TaskMetadata {
        intents: vec!["code".to_string()],
        requires_vision: true,
        token_estimate: None,
        cost_priority: Some("low".to_string()),
    };
    let ctx = router_context_from_metadata(&meta);
    assert_eq!(ctx.intents, vec!["code"]);
    assert!(ctx.requires_vision);
    assert_eq!(ctx.token_estimate, 0);
    assert_eq!(ctx.cost_priority, CostPriority::Low);
}

#[test]
fn stream_chunks_rebuild_the_reply() {
    let reply = "First line.\nSecond line is a good deal longer than the first one, with many words in it.\nEnd";
    let chunks = split_stream_chunks(reply);
    assert!(chunks.len() > 1);
    assert_eq!(chunks.concat(), reply);
    assert_eq!(chunks[0], "First line.\n");
    assert_eq!(split_stream_chunks(""), vec![""]);
    assert_eq!(split_stream_chunks("short"), vec!["short"]);
}
