use gemini_rag::gemini::types::{
    Candidate, Content, FileData, GenerateContentResponse, InlineData, Model, Part,
};
use gemini_rag::json::JsonValue;

fn text_part(text: &str) -> Part {
    Part { text: Some(text.to_string()), inline_data: None, file_data: None, extra: Vec::new() }
}

fn inline_part(mime: &str, data: &str) -> Part {
    Part {
        text: None,
        inline_data: Some(InlineData {
            mime_type: Some(mime.to_string()),
            data: Some(data.to_string()),
            extra: Vec::new(),
        }),
        file_data: None,
        extra: Vec::new(),
    }
}

fn with_parts(parts: Vec<Part>) -> GenerateContentResponse {
    GenerateContentResponse {
        candidates: vec![Candidate {
            content: Some(Content { parts, extra: Vec::new() }),
            grounding_metadata: None,
            extra: Vec::new(),
        }],
        extra: Vec::new(),
    }
}

#[test]
fn response_text_concatenates_text_parts() {
    let response = with_parts(vec![
        text_part("Hello"),
        text_part(", world"),
        inline_part("image/png", "abc"),
    ]);
    assert_eq!(response.text().as_deref(), Some("Hello, world"));
}

#[test]
fn response_text_returns_none_when_no_text_parts_exist() {
    let response = with_parts(vec![inline_part("image/png", "abc")]);
    assert_eq!(response.text(), None);
}

#[test]
fn has_non_text_parts_detects_inline_file_and_extra_parts() {
    let inline_response = with_parts(vec![inline_part("image/png", "abc")]);
    let file_response = with_parts(vec![Part {
        text: None,
        inline_data: None,
        file_data: Some(FileData {
            mime_type: Some("image/png".to_string()),
            file_uri: Some("files/image".to_string()),
            extra: Vec::new(),
        }),
        extra: Vec::new(),
    }]);
    let extra_response = with_parts(vec![Part {
        text: Some("hello".to_string()),
        inline_data: None,
        file_data: None,
        extra: vec![("thought".to_string(), JsonValue::Bool(true))],
    }]);
    let text_response = with_parts(vec![text_part("hello")]);

    assert!(inline_response.has_non_text_parts());
    assert!(file_response.has_non_text_parts());
    assert!(extra_response.has_non_text_parts());
    assert!(!text_response.has_non_text_parts());
}

#[test]
fn model_supports_generate_content_only_when_method_is_present() {
    let supported = Model {
        name: "models/gemini-3-flash-preview".to_string(),
        display_name: None,
        supported_generation_methods: vec!["countTokens".to_string(), "generateContent".to_string()],
    };
    let unsupported = Model {
        name: "models/gemini-embedding-2".to_string(),
        display_name: None,
        supported_generation_methods: vec!["embedContent".to_string()],
    };
    assert!(supported.supports_generate_content());
    assert!(!unsupported.supports_generate_content());
}

#[test]
fn response_text_joins_text_of_every_candidate() {
    let mut response = with_parts(vec![text_part("one")]);
    response.candidates.push(Candidate {
        content: Some(Content { parts: vec![text_part(" two")], extra: Vec::new() }),
        grounding_metadata: None,
        extra: Vec::new(),
    });
    assert_eq!(response.text().as_deref(), Some("one two"));
}

#[test]
fn response_without_candidates_has_no_text_and_no_other_parts() {
    let response = GenerateContentResponse { candidates: Vec::new(), extra: Vec::new() };
    assert_eq!(response.text(), None);
    assert!(!response.has_non_text_parts());
}
