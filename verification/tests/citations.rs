use gemini_rag::gemini::types::{
    Candidate, GenerateContentResponse, GroundingChunk, GroundingMetadata, RetrievedContext,
    RetrievedCustomMetadata,
};
use gemini_rag::json::JsonValue;
use gemini_rag::server::citations::{
    citation_count, citation_count_from_responses, file_references, infer_mime_type,
    is_image_reference, markdown_citations, with_markdown_citations,
};

fn empty_context() -> RetrievedContext {
    RetrievedContext {
        text: None,
        title: None,
        uri: None,
        file_search_store: None,
        custom_metadata: Vec::new(),
        page_number: None,
        media_id: None,
        extra: Vec::new(),
    }
}

fn grounded(contexts: Vec<Option<RetrievedContext>>) -> GenerateContentResponse {
    GenerateContentResponse {
        candidates: vec![Candidate {
            content: None,
            grounding_metadata: Some(GroundingMetadata {
                grounding_chunks: contexts
                    .into_iter()
                    .map(|c| GroundingChunk { retrieved_context: c, extra: Vec::new() })
                    .collect(),
                extra: Vec::new(),
            }),
            extra: Vec::new(),
        }],
        extra: Vec::new(),
    }
}

fn metadata_entry(key: &str, value: &str) -> RetrievedCustomMetadata {
    RetrievedCustomMetadata {
        key: key.to_string(),
        string_value: Some(value.to_string()),
        numeric_value: None,
        string_list_value: None,
        extra: Vec::new(),
    }
}

fn text_value(s: &str) -> JsonValue {
    JsonValue::Str(s.to_string())
}

#[test]
fn markdown_citations_formats_links_and_snippets() {
    let mut context = empty_context();
    context.title = Some("Setup Guide".to_string());
    context.uri = Some("https://example.test/setup".to_string());
    context.text = Some("First line\nSecond line".to_string());
    let response = grounded(vec![Some(context)]);

    assert_eq!(citation_count(&response), 1);
    assert_eq!(
        markdown_citations(&[response]),
        "\n\n## Citations\n\n1. [Setup Guide](https://example.test/setup)\n   > First line Second line\n"
    );
}

#[test]
fn file_references_extract_metadata_and_identify_images() {
    let mut context = empty_context();
    context.title = Some("Page image".to_string());
    context.uri = Some("https://example.test/page".to_string());
    context.file_search_store = Some("fileSearchStores/store-1".to_string());
    context.page_number = Some(7);
    context.media_id = Some("media-1".to_string());
    context.custom_metadata = vec![
        metadata_entry("source_path", "docs/page-7.png"),
        metadata_entry("mime_type", "image/png"),
    ];
    context.text = Some("Page text".to_string());
    let response = grounded(vec![Some(context)]);

    let references = file_references(&[response]);

    assert_eq!(references.len(), 1);
    let reference = &references[0];
    assert_eq!(reference.candidate_index, 0);
    assert_eq!(reference.chunk_index, 0);
    assert_eq!(reference.source_path.as_deref(), Some("docs/page-7.png"));
    assert_eq!(reference.mime_type.as_deref(), Some("image/png"));
    assert_eq!(reference.file_search_store.as_deref(), Some("fileSearchStores/store-1"));
    assert_eq!(reference.page_number, Some(7));
    assert_eq!(reference.media_id.as_deref(), Some("media-1"));
    assert_eq!(reference.text.as_deref(), Some("Page text"));
    assert!(reference.is_image);
    let json = reference.to_json();
    assert!(matches!(json.get("candidate_index"), Some(JsonValue::Number(n)) if n == "0"));
    assert!(matches!(json.get("page_number"), Some(JsonValue::Number(n)) if n == "7"));
    assert!(matches!(json.get("is_image"), Some(JsonValue::Bool(true))));
}

#[test]
fn file_references_fall_back_to_nested_extra_metadata() {
    let mut context = empty_context();
    context.title = Some("Notes".to_string());
    context.extra = vec![(
        "metadata".to_string(),
        JsonValue::Object(vec![(
            "document".to_string(),
            JsonValue::Object(vec![
                ("sourcePath".to_string(), text_value("docs/notes.txt")),
                (
                    "mimeType".to_string(),
                    JsonValue::Object(vec![("stringValue".to_string(), text_value("text/plain"))]),
                ),
            ]),
        )]),
    )];
    let response = grounded(vec![Some(context)]);

    let references = file_references(&[response]);

    assert_eq!(references.len(), 1);
    assert_eq!(references[0].source_path.as_deref(), Some("docs/notes.txt"));
    assert_eq!(references[0].mime_type.as_deref(), Some("text/plain"));
    assert!(!references[0].is_image);
}

#[test]
fn citations_count_only_chunks_with_retrieved_context() {
    let mut first = empty_context();
    first.uri = Some("https://example.test/a".to_string());
    let second = empty_context();
    let response = grounded(vec![Some(first), None, Some(second)]);
    let other = grounded(vec![Some(empty_context())]);

    assert_eq!(citation_count(&response), 2);
    let both = [response, other];
    assert_eq!(citation_count_from_responses(&both), 3);
    assert_eq!(file_references(&both).len(), 3);
    assert_eq!(
        markdown_citations(&both),
        "\n\n## Citations\n\n1. [https://example.test/a](https://example.test/a)\n\n2. **retrieved context**\n\n3. **retrieved context**\n"
    );
}

#[test]
fn no_citations_leave_the_answer_unchanged() {
    let response = GenerateContentResponse { candidates: Vec::new(), extra: Vec::new() };
    assert_eq!(markdown_citations(&[]), "");
    assert_eq!(with_markdown_citations("answer".to_string(), &[response]), "answer");
}

#[test]
fn image_references_are_recognised_by_type_path_or_title() {
    assert_eq!(infer_mime_type(Some("docs/Page.PNG")).as_deref(), Some("image/png"));
    assert_eq!(infer_mime_type(Some("docs/page.jpeg")).as_deref(), Some("image/jpeg"));
    assert_eq!(infer_mime_type(Some("docs/notes.txt")), None);
    assert_eq!(infer_mime_type(None), None);
    assert!(is_image_reference(Some("image/webp"), None, None));
    assert!(is_image_reference(None, Some("scan.gif"), None));
    assert!(is_image_reference(None, None, Some("diagram.svg")));
    assert!(!is_image_reference(Some("text/plain"), Some("notes.txt"), Some("Notes")));
}
