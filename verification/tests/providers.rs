use agiworkforce::llm::{
    known_provider, parse_provider, provider_setup, provider_status, requested_provider, Provider,
};

#[test]
fn provider_names_and_aliases() {
    assert_eq!(parse_provider("openai"), Some(Provider::OpenAI));
    assert_eq!(parse_provider("grok"), Some(Provider::XAI));
    assert_eq!(parse_provider("alibaba"), Some(Provider::Qwen));
    assert_eq!(parse_provider("mistralai"), Some(Provider::Mistral));
    assert_eq!(parse_provider("OpenAI"), None);
    assert_eq!(requested_provider(None), None);
    assert_eq!(requested_provider(Some("ollama")), Some(Provider::Ollama));
    assert_eq!(known_provider("cohere"), Err("Unknown provider: cohere".to_string()));
}

#[test]
fn configuring_needs_a_key_but_for_ollama() {
    assert_eq!(provider_setup("ollama", &None), Ok(Provider::Ollama));
    assert_eq!(provider_setup("deepseek", &Some("k".to_string())), Ok(Provider::DeepSeek));
    assert_eq!(
        provider_setup("anthropic", &None),
        Err("Anthropic requires an API key".to_string())
    );
    assert_eq!(provider_setup("grok", &None), Err("XAI requires an API key".to_string()));
    assert_eq!(
        provider_setup("nope", &Some("k".to_string())),
        Err("Unknown provider: nope".to_string())
    );
}

#[test]
fn status_of_providers() {
    let s = provider_status("openai", false, None);
    assert!(!s.available);
    assert_eq!(
        s.error.as_deref(),
        Some("Provider not configured. Please add API key in settings.")
    );
    let s = provider_status("openai", true, None);
    assert!(s.available);
    assert_eq!(s.error, None);
    let s = provider_status("ollama", true, Some(false));
    assert!(!s.available);
    assert_eq!(
        s.error.as_deref(),
        Some("Ollama server is not running. Start with 'ollama serve'")
    );
    assert_eq!(s.ollama_running, Some(false));
    let s = provider_status("ollama", false, Some(true));
    assert!(!s.available);
    assert_eq!(s.error, None);
}

use agiworkforce::mcp::{
    connection_report, credential_service, credential_stored, init_summary, server_info,
    server_name_target, server_not_found, server_toggled, tool_info,
};

#[test]
fn mcp_server_and_tool_descriptions() {
    let args = vec!["-y".to_string(), "@scope/server".to_string()];
    let connected = vec!["files".to_string(), "github".to_string()];
    let s = server_info("github", true, "npx", &args, &connected, Some(4));
    assert!(s.connected);
    assert_eq!(s.tool_count, 4);
    assert_eq!(s.command, "npx -y @scope/server");
    let s = server_info("slack", false, "node", &Vec::new(), &connected, None);
    assert!(!s.connected);
    assert_eq!(s.tool_count, 0);
    assert_eq!(s.command, "node ");
    let t = tool_info("github", "create_issue", &None, &vec!["title".to_string()]);
    assert_eq!(t.id, "mcp_github_create_issue");
    assert_eq!(t.description, "");
    assert_eq!(t.parameters, vec!["title".to_string()]);
}

#[test]
fn mcp_messages() {
    assert_eq!(init_summary(2, 15), "MCP initialized. Connected to 2 server(s) with 15 tool(s)");
    assert_eq!(server_name_target("  files "), Ok("files".to_string()));
    assert_eq!(server_name_target(" \t"), Err("Server name cannot be empty".to_string()));
    assert_eq!(server_not_found("x"), "Server 'x' not found in configuration");
    assert_eq!(server_toggled("x", true), "Server 'x' enabled");
    assert_eq!(server_toggled("x", false), "Server 'x' disabled");
    assert_eq!(connection_report("x", true), "Connected to server 'x'");
    assert_eq!(connection_report("x", false), "Disconnected from server 'x'");
    assert_eq!(credential_service("github"), "agiworkforce-mcp-github");
    assert_eq!(credential_stored("github", "token"), "Credential stored for github / token");
}
