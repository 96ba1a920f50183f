use gemini_rag::gemini::types::{
    Candidate, Content, FileData, GenerateContentResponse, InlineData, Model, Part,
};
use gemini_rag::json::JsonValue;
use gemini_rag::server::chat::{
    chat_prompt, gemini_response_modalities, ChatMessage, MessageContent, MessagePart,
};
use gemini_rag::server::completion::{
    chat_completion_response, gemini_images, healthz, model_list_json, plan_chat_completion,
    ApiError, ChatCompletionRequest, ChatSettings,
};
use gemini_rag::server::headers::{is_sensitive_header, redacted_request_headers};
use gemini_rag::server::metadata::{snake_case_json_keys, to_snake_case};

fn part(kind: Option<&str>, text: Option<&str>) -> MessagePart {
    MessagePart { part_type: kind.map(str::to_string), text: text.map(str::to_string) }
}

fn user(text: &str) -> ChatMessage {
    ChatMessage { role: "user".to_string(), content: MessageContent::Text(text.to_string()) }
}

fn text_response(text: &str) -> GenerateContentResponse {
    GenerateContentResponse {
        candidates: vec![Candidate {
            content: Some(Content {
                parts: vec![Part {
                    text: Some(text.to_string()),
                    inline_data: None,
                    file_data: None,
                    extra: Vec::new(),
                }],
                extra: Vec::new(),
            }),
            grounding_metadata: None,
            extra: Vec::new(),
        }],
        extra: Vec::new(),
    }
}

fn strings(items: &[&str]) -> Vec<String> {
    items.iter().map(|s| s.to_string()).collect()
}

fn str_member<'a>(value: &'a JsonValue, key: &str) -> Option<&'a str> {
    match value.get(key) {
        Some(JsonValue::Str(s)) => Some(s.as_str()),
        _ => None,
    }
}

#[test]
fn redacts_sensitive_request_headers() {
    let headers = vec![
        ("authorization".to_string(), Some("Bearer secret".to_string())),
        ("x-api-key".to_string(), Some("secret-key".to_string())),
        ("content-type".to_string(), Some("application/json".to_string())),
    ];

    let formatted = redacted_request_headers(&headers);

    assert!(formatted.contains("authorization: <redacted>"));
    assert!(formatted.contains("x-api-key: <redacted>"));
    assert!(formatted.contains("content-type: application/json"));
    assert!(!formatted.contains("Bearer secret"));
    assert!(!formatted.contains("secret-key"));
}

#[test]
fn header_lines_are_joined_and_unreadable_values_named() {
    let headers = vec![
        ("Proxy-Authorization".to_string(), Some("Basic x".to_string())),
        ("x-bin".to_string(), None),
        ("API-KEY".to_string(), None),
    ];
    assert_eq!(
        redacted_request_headers(&headers),
        "Proxy-Authorization: <redacted>, x-bin: <non-utf8>, API-KEY: <redacted>"
    );
    assert!(is_sensitive_header("AUTHORIZATION"));
    assert!(!is_sensitive_header("accept"));
    assert_eq!(redacted_request_headers(&Vec::new()), "");
}

#[test]
fn chat_prompt_formats_text_and_text_parts() {
    let messages = vec![
        ChatMessage {
            role: "system".to_string(),
            content: MessageContent::Text("  Be concise.  ".to_string()),
        },
        ChatMessage {
            role: "user".to_string(),
            content: MessageContent::Parts(vec![
                part(Some("input_text"), Some("First line")),
                part(Some("image_url"), None),
                part(Some("text"), Some("Second line")),
                part(None, Some("Implicit text part")),
            ]),
        },
    ];

    let prompt = chat_prompt(&messages).ok().expect("prompt");

    assert_eq!(prompt, "system: Be concise.\n\nuser: First line\nSecond line\nImplicit text part");
}

#[test]
fn chat_prompt_rejects_missing_text() {
    let messages = vec![ChatMessage {
        role: "user".to_string(),
        content: MessageContent::Parts(vec![part(Some("image_url"), None)]),
    }];

    let error = chat_prompt(&messages).err().expect("missing text should fail");
    assert_eq!(error.message(), "messages did not include any text content");
    assert_eq!(
        chat_prompt(&[]).err().expect("empty messages should fail").message(),
        "messages must not be empty"
    );
}

#[test]
fn modalities_are_renamed_and_text_comes_first_for_images() {
    assert_eq!(gemini_response_modalities(&strings(&["image"])), strings(&["TEXT", "IMAGE"]));
    assert_eq!(
        gemini_response_modalities(&strings(&["Text", "IMAGE", "audio"])),
        strings(&["TEXT", "IMAGE"])
    );
    assert_eq!(
        gemini_response_modalities(&strings(&["text", "text", "image"])),
        strings(&["TEXT", "IMAGE"])
    );
    assert_eq!(gemini_response_modalities(&strings(&["audio"])), Vec::<String>::new());
}

#[test]
fn plan_uses_the_server_model_and_the_request_store() {
    let settings = ChatSettings {
        default_store: Some("fileSearchStores/default".to_string()),
        default_model: "gemini-3-flash-preview".to_string(),
        system_prompt: None,
    };
    let request = ChatCompletionRequest {
        model: Some("ignored-by-proxy".to_string()),
        messages: vec![user("Hello")],
        stream: true,
        store: Some("fileSearchStores/another-store".to_string()),
        modalities: strings(&["image"]),
    };
    let plan = plan_chat_completion(&settings, &request).ok().expect("plan");
    assert_eq!(plan.model, "gemini-3-flash-preview");
    assert_eq!(plan.requested_model, "ignored-by-proxy");
    assert_eq!(plan.store.as_deref(), Some("fileSearchStores/another-store"));
    assert_eq!(plan.store_label, "fileSearchStores/another-store");
    assert_eq!(plan.prompt, "user: Hello");
    assert!(plan.stream);
    assert_eq!(plan.response_modalities, strings(&["TEXT", "IMAGE"]));

    let defaulted = ChatCompletionRequest {
        model: None,
        messages: vec![user("Hi")],
        stream: false,
        store: None,
        modalities: Vec::new(),
    };
    let plan = plan_chat_completion(&settings, &defaulted).ok().expect("plan");
    assert_eq!(plan.requested_model, "<omitted>");
    assert_eq!(plan.store.as_deref(), Some("fileSearchStores/default"));
    let no_store = ChatSettings { default_store: None, ..settings };
    let plan = plan_chat_completion(&no_store, &defaulted).ok().expect("plan");
    assert_eq!(plan.store, None);
    assert_eq!(plan.store_label, "<none>");
}

#[test]
fn plan_refuses_conversations_without_text() {
    let settings = ChatSettings {
        default_store: None,
        default_model: "m".to_string(),
        system_prompt: None,
    };
    let request = ChatCompletionRequest {
        model: None,
        messages: Vec::new(),
        stream: false,
        store: None,
        modalities: Vec::new(),
    };
    let error: ApiError = plan_chat_completion(&settings, &request).err().expect("refused");
    assert_eq!(error.status, 400);
    assert_eq!(error.error_type, "invalid_request_error");
    assert_eq!(error.message, "messages must not be empty");
    let body = error.to_json();
    let inner = body.get("error").expect("error member");
    assert_eq!(str_member(inner, "message"), Some("messages must not be empty"));
    assert_eq!(str_member(inner, "type"), Some("invalid_request_error"));
}

#[test]
fn completion_carries_answer_usage_and_metadata() {
    let response = text_response("The answer is here");
    let document = JsonValue::Object(vec![("modelVersion".to_string(), JsonValue::Str("v1".to_string()))]);
    let completion = chat_completion_response(
        "gemini-3-flash-preview".to_string(),
        "what is it",
        &response,
        &document,
        1700000000,
        1700000000123,
    )
    .ok()
    .expect("completion");
    assert_eq!(completion.id, "chatcmpl-1700000000123");
    assert_eq!(completion.object, "chat.completion");
    assert_eq!(completion.created, 1700000000);
    assert_eq!(completion.choices.len(), 1);
    assert_eq!(completion.choices[0].message.role, "assistant");
    assert_eq!(completion.choices[0].message.content, "The answer is here");
    assert!(completion.choices[0].message.metadata.is_none());
    assert_eq!(completion.choices[0].finish_reason, "stop");
    assert_eq!(completion.usage.prompt_tokens, 3);
    assert_eq!(completion.usage.completion_tokens, 4);
    assert_eq!(completion.usage.total_tokens, 7);
    let gemini = completion.metadata.get("gemini").expect("gemini metadata");
    assert_eq!(str_member(gemini, "model_version"), Some("v1"));
}

#[test]
fn completion_of_an_empty_response_is_a_server_error() {
    let response = GenerateContentResponse { candidates: Vec::new(), extra: Vec::new() };
    let error = chat_completion_response("m".to_string(), "p", &response, &JsonValue::Null, 1, 2)
        .err()
        .expect("no answer");
    assert_eq!(error.status, 500);
    assert_eq!(error.error_type, "server_error");
    assert_eq!(error.message, "Gemini response did not include answer text");
}

#[test]
fn image_only_answers_carry_their_images() {
    let response = GenerateContentResponse {
        candidates: vec![Candidate {
            content: Some(Content {
                parts: vec![
                    Part {
                        text: None,
                        inline_data: Some(InlineData {
                            mime_type: Some("image/png".to_string()),
                            data: Some("abc".to_string()),
                            extra: Vec::new(),
                        }),
                        file_data: None,
                        extra: Vec::new(),
                    },
                    Part {
                        text: None,
                        inline_data: None,
                        file_data: Some(FileData {
                            mime_type: None,
                            file_uri: Some("files/x".to_string()),
                            extra: Vec::new(),
                        }),
                        extra: Vec::new(),
                    },
                ],
                extra: Vec::new(),
            }),
            grounding_metadata: None,
            extra: Vec::new(),
        }],
        extra: Vec::new(),
    };
    let images = gemini_images(&response);
    assert_eq!(images.len(), 2);
    assert_eq!(str_member(&images[0], "source"), Some("inlineData"));
    assert_eq!(str_member(&images[0], "data_url"), Some("data:image/png;base64,abc"));
    assert!(matches!(images[0].get("part_index"), Some(JsonValue::Number(n)) if n == "0"));
    assert_eq!(str_member(&images[1], "source"), Some("fileData"));
    assert_eq!(str_member(&images[1], "file_uri"), Some("files/x"));
    assert!(matches!(images[1].get("mime_type"), Some(JsonValue::Null)));

    let completion = chat_completion_response("m".to_string(), "p", &response, &JsonValue::Null, 1, 2)
        .ok()
        .expect("image answer");
    assert_eq!(completion.choices[0].message.content, "");
    assert!(completion.choices[0].message.metadata.is_some());
}

#[test]
fn model_list_keeps_generating_models_without_prefix() {
    let models = vec![
        Model {
            name: "models/gemini-3-flash-preview".to_string(),
            display_name: Some("Flash".to_string()),
            supported_generation_methods: strings(&["generateContent"]),
        },
        Model {
            name: "models/gemini-embedding-2".to_string(),
            display_name: None,
            supported_generation_methods: strings(&["embedContent"]),
        },
    ];
    let list = model_list_json(&models, 42);
    assert_eq!(str_member(&list, "object"), Some("list"));
    match list.get("data") {
        Some(JsonValue::Array(items)) => {
            assert_eq!(items.len(), 1);
            assert_eq!(str_member(&items[0], "id"), Some("gemini-3-flash-preview"));
            assert_eq!(str_member(&items[0], "owned_by"), Some("google"));
            assert!(matches!(items[0].get("created"), Some(JsonValue::Number(n)) if n == "42"));
        }
        _ => panic!("data is not an array"),
    }
    assert_eq!(str_member(&healthz(), "status"), Some("ok"));
}

#[test]
fn metadata_keys_are_snake_cased_at_every_depth() {
    assert_eq!(to_snake_case("groundingMetadata"), "grounding_metadata");
    assert_eq!(to_snake_case("URI"), "u_r_i");
    let doc = JsonValue::Object(vec![(
        "usageMetadata".to_string(),
        JsonValue::Array(vec![JsonValue::Object(vec![(
            "promptTokenCount".to_string(),
            JsonValue::Number("12".to_string()),
        )])]),
    )]);
    let snake = snake_case_json_keys(&doc);
    match snake.get("usage_metadata") {
        Some(JsonValue::Array(items)) => {
            assert!(matches!(items[0].get("prompt_token_count"), Some(JsonValue::Number(n)) if n == "12"));
        }
        _ => panic!("usage metadata missing"),
    }
}
