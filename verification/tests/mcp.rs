use gemini_rag::gemini::types::{
    Candidate, Content, GenerateContentResponse, GroundingChunk, GroundingMetadata, Part,
    RetrievedContext,
};
use gemini_rag::json::JsonValue;
use gemini_rag::mcp::{
    allowed_hosts, constant_time_eq, mcp_default_model, is_authorized, query_output, resolve_query, tool_error,
    validate_server_config, ConfigError, QueryInput,
};
use gemini_rag::util::{non_empty, normalize_model_name};

fn grounded_context(title: &str, text: &str, store: &str) -> RetrievedContext {
    RetrievedContext {
        text: Some(text.to_string()),
        title: Some(title.to_string()),
        uri: None,
        file_search_store: Some(store.to_string()),
        custom_metadata: Vec::new(),
        page_number: None,
        media_id: None,
        extra: Vec::new(),
    }
}

fn number(n: &str) -> JsonValue {
    JsonValue::Number(n.to_string())
}

#[test]
fn bearer_auth_requires_exact_token() {
    assert!(!is_authorized(None, "secret"));
    assert!(!is_authorized(Some("Basic secret"), "secret"));
    assert!(!is_authorized(Some("Bearer wrong"), "secret"));
    assert!(is_authorized(Some("Bearer secret"), "secret"));
}

#[test]
fn token_comparison_checks_length_and_contents() {
    assert!(constant_time_eq(b"secret", b"secret"));
    assert!(!constant_time_eq(b"secret", b"secrex"));
    assert!(!constant_time_eq(b"secret", b"short"));
}

#[test]
fn query_defaults_normalize_empty_values_and_model_aliases() {
    assert_eq!(non_empty(Some("  demo  ")).as_deref(), Some("demo"));
    assert_eq!(non_empty(Some("  ")), None);
    assert_eq!(non_empty(None), None);
    assert_eq!(normalize_model_name("models/gemini-flash-3-preview"), "gemini-3-flash-preview");
}

#[test]
fn server_config_requires_token_and_allowed_hosts_for_remote_bind() {
    // 127.0.0.1:8090 is a loopback address, 0.0.0.0:8090 is not.
    let loopback = true;
    let remote = false;
    assert!(validate_server_config(loopback, "secret", &[]).is_ok());
    assert!(validate_server_config(loopback, "", &[]).is_err());
    assert!(validate_server_config(remote, "secret", &[]).is_err());
    assert!(validate_server_config(remote, "secret", &["mcp.example.test".to_string()]).is_ok());
}

#[test]
fn query_output_includes_answer_references_and_native_usage() {
    let usage = JsonValue::Object(vec![
        ("promptTokenCount".to_string(), number("12")),
        ("candidatesTokenCount".to_string(), number("4")),
        ("totalTokenCount".to_string(), number("16")),
    ]);
    let response = GenerateContentResponse {
        candidates: vec![Candidate {
            content: Some(Content {
                parts: vec![Part {
                    text: Some("Grounded answer".to_string()),
                    inline_data: None,
                    file_data: None,
                    extra: Vec::new(),
                }],
                extra: Vec::new(),
            }),
            grounding_metadata: Some(GroundingMetadata {
                grounding_chunks: vec![GroundingChunk {
                    retrieved_context: Some(grounded_context(
                        "Source",
                        "Relevant excerpt",
                        "fileSearchStores/demo",
                    )),
                    extra: Vec::new(),
                }],
                extra: Vec::new(),
            }),
            extra: Vec::new(),
        }],
        extra: vec![("usageMetadata".to_string(), usage)],
    };

    let output = query_output(
        &response,
        "fileSearchStores/demo".to_string(),
        "gemini-3-flash-preview".to_string(),
    )
    .expect("query output");

    assert_eq!(output.answer, "Grounded answer");
    assert_eq!(output.store, "fileSearchStores/demo");
    assert_eq!(output.model, "gemini-3-flash-preview");
    assert_eq!(output.references[0].title.as_deref(), Some("Source"));
    let usage = output.usage.expect("usage");
    assert!(matches!(usage.get("promptTokenCount"), Some(JsonValue::Number(n)) if n == "12"));
    assert!(matches!(usage.get("totalTokenCount"), Some(JsonValue::Number(n)) if n == "16"));
}

#[test]
fn query_output_rejects_response_without_answer_text() {
    let response = GenerateContentResponse { candidates: Vec::new(), extra: Vec::new() };
    let error = query_output(
        &response,
        "fileSearchStores/demo".to_string(),
        "gemini-3-flash-preview".to_string(),
    )
    .err()
    .expect("missing answer should fail");
    assert_eq!(error, "Gemini response did not include answer text");
}

#[test]
fn config_errors_name_the_missing_setting() {
    let empty = validate_server_config(true, "", &[]).err().expect("empty token");
    assert!(matches!(empty, ConfigError::EmptyToken));
    assert_eq!(empty.message(), "GEMINI_MCP_TOKEN or --token must not be empty");
    let hosts = validate_server_config(false, "t", &[]).err().expect("missing hosts");
    assert_eq!(
        hosts.message(),
        "GEMINI_MCP_ALLOWED_HOSTS or --allowed-host is required for a non-loopback MCP bind address"
    );
}

#[test]
fn tool_error_joins_context_and_error() {
    assert_eq!(tool_error("query failed", "timeout"), "query failed: timeout");
}

#[test]
fn bearer_prefix_is_case_sensitive_and_token_exact() {
    assert!(!is_authorized(Some("bearer secret"), "secret"));
    assert!(!is_authorized(Some("Bearer secret "), "secret"));
    assert!(!is_authorized(Some("Bearer "), "secret"));
    assert!(is_authorized(Some("Bearer "), ""));
}

#[test]
fn resolve_query_applies_defaults_and_refuses_missing_values() {
    let input = QueryInput {
        prompt: "  What is new?  ".to_string(),
        store: Some("   ".to_string()),
        model: Some(" models/gemini-flash-3-preview ".to_string()),
    };
    let resolved = resolve_query(&input, Some(" fileSearchStores/default "), "gemini-3-flash-preview")
        .expect("resolved");
    assert_eq!(resolved.prompt, "What is new?");
    assert_eq!(resolved.store, "fileSearchStores/default");
    assert_eq!(resolved.model, "gemini-3-flash-preview");

    let own = QueryInput { prompt: "q".to_string(), store: Some("stores/own".to_string()), model: None };
    let resolved = resolve_query(&own, Some("stores/default"), "models/gemini-2.5-pro").expect("own");
    assert_eq!(resolved.store, "stores/own");
    assert_eq!(resolved.model, "gemini-2.5-pro");

    let blank = QueryInput { prompt: " \n".to_string(), store: None, model: None };
    assert_eq!(resolve_query(&blank, Some("s"), "m").err().as_deref(), Some("prompt must not be empty"));
    let storeless = QueryInput { prompt: "q".to_string(), store: None, model: None };
    assert_eq!(
        resolve_query(&storeless, None, "m").err().as_deref(),
        Some("store is required; pass it to the tool or configure GEMINI_FILE_SEARCH_STORE")
    );
}

#[test]
fn server_settings_are_trimmed_and_checked() {
    let hosts = vec![" a.example ".to_string(), "   ".to_string(), "b.example".to_string()];
    assert_eq!(allowed_hosts(&hosts), vec!["a.example".to_string(), "b.example".to_string()]);
    assert_eq!(mcp_default_model(" models/gemini-flash-3-preview ").as_deref(), Ok("gemini-3-flash-preview"));
    assert_eq!(mcp_default_model("  ").err().as_deref(), Some("MCP default model must not be empty"));
}
