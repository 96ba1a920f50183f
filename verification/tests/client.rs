use gemini_rag::gemini::client::{
    api_error, finalize_upload_request, is_retryable_status, next_backoff, ocr_text,
    operation_status, response_status, start_upload_result, upload_document, Delay,
    FinalizeOutcome, GeminiClient, GeminiError, HttpMethod, OperationStatus, RetryDecision,
    UploadRetry,
};
use gemini_rag::gemini::types::{ApiStatus, GenerateContentResponse, Operation};
use gemini_rag::json::JsonValue;

fn client() -> GeminiClient {
    GeminiClient::new(Some("  key-1 ".to_string()), "https://api.example//".to_string())
        .ok()
        .expect("client")
}

fn pairs(items: &[(&str, &str)]) -> Vec<(String, String)> {
    items.iter().map(|(a, b)| (a.to_string(), b.to_string())).collect()
}

fn member<'a>(value: &'a JsonValue, key: &str) -> &'a JsonValue {
    value.get(key).expect(key)
}

fn text(value: &JsonValue) -> &str {
    match value {
        JsonValue::Str(s) => s.as_str(),
        _ => panic!("not a string"),
    }
}

fn first(value: &JsonValue) -> &JsonValue {
    match value {
        JsonValue::Array(items) => &items[0],
        _ => panic!("not an array"),
    }
}

#[test]
fn client_needs_a_key_and_trims_it() {
    let c = client();
    assert_eq!(c.api_key, "key-1");
    assert_eq!(c.base_url, "https://api.example");
    assert!(matches!(GeminiClient::new(None, "x".to_string()), Err(GeminiError::MissingApiKey)));
    let blank = GeminiClient::new(Some(" \t".to_string()), "x".to_string()).err().expect("blank key");
    assert_eq!(blank.message(), "GEMINI_API_KEY or --api-key is required");
}

#[test]
fn store_requests_carry_the_key() {
    let c = client();
    let create = c.create_store_request("lawdocs", Some("models/gemini-embedding-2"));
    assert!(create.method == HttpMethod::Post);
    assert_eq!(create.url, "https://api.example/v1beta/fileSearchStores");
    assert_eq!(create.query, pairs(&[("key", "key-1")]));
    let body = create.body.expect("body");
    assert_eq!(text(member(&body, "displayName")), "lawdocs");
    assert_eq!(text(member(&body, "embeddingModel")), "models/gemini-embedding-2");
    assert!(c.create_store_request("x", None).body.expect("body").get("embeddingModel").is_none());

    let get = c.get_store_request("fileSearchStores/abc");
    assert!(get.method == HttpMethod::Get);
    assert_eq!(get.url, "https://api.example/v1beta/fileSearchStores/abc");
    assert!(get.body.is_none());
    assert_eq!(c.list_stores_request().url, "https://api.example/v1beta/fileSearchStores");
    assert_eq!(c.list_models_request().url, "https://api.example/v1beta/models");
    assert_eq!(c.get_operation_request("operations/op-1").url, "https://api.example/v1beta/operations/op-1");
    let delete = c.delete_store_request("fileSearchStores/abc", true);
    assert!(delete.method == HttpMethod::Delete);
    assert_eq!(delete.query, pairs(&[("key", "key-1"), ("force", "true")]));
    assert_eq!(c.delete_store_request("s", false).query, pairs(&[("key", "key-1"), ("force", "false")]));
}

#[test]
fn generate_requests_build_the_grounded_body() {
    let c = client();
    let modalities = vec!["TEXT".to_string(), "IMAGE".to_string()];
    let request = c.generate_content_request(
        "models/gemini-3-flash-preview",
        Some("fileSearchStores/abc"),
        "Question?",
        Some("Be brief."),
        &modalities,
        false,
    );
    assert_eq!(request.url, "https://api.example/v1beta/models/gemini-3-flash-preview:generateContent");
    assert_eq!(request.query, pairs(&[("key", "key-1")]));
    let body = request.body.expect("body");
    let turn = first(member(&body, "contents"));
    assert_eq!(text(member(turn, "role")), "user");
    assert_eq!(text(member(first(member(turn, "parts")), "text")), "Question?");
    let system = member(&body, "systemInstruction");
    assert_eq!(text(member(first(member(system, "parts")), "text")), "Be brief.");
    let config = member(&body, "generationConfig");
    match member(config, "responseModalities") {
        JsonValue::Array(items) => assert_eq!(items.len(), 2),
        _ => panic!("modalities"),
    }
    let tool = first(member(&body, "tools"));
    let names = member(member(tool, "fileSearch"), "fileSearchStoreNames");
    assert_eq!(text(first(names)), "fileSearchStores/abc");

    let stream = c.generate_content_request("gemini-x", None, "p", None, &Vec::new(), true);
    assert_eq!(stream.url, "https://api.example/v1beta/models/gemini-x:streamGenerateContent");
    assert_eq!(stream.query, pairs(&[("key", "key-1"), ("alt", "sse")]));
    let body = stream.body.expect("body");
    assert!(body.get("tools").is_none());
    assert!(body.get("systemInstruction").is_none());
    assert!(body.get("generationConfig").is_none());
}

#[test]
fn ocr_request_sends_the_image_inline() {
    let c = client();
    let request = c.ocr_request("models/m", "/tmp/doc-page-1.jpg", b"hi!", "Read it");
    assert_eq!(request.url, "https://api.example/v1beta/models/m:generateContent");
    let body = request.body.expect("body");
    let parts = member(first(member(&body, "contents")), "parts");
    match parts {
        JsonValue::Array(items) => {
            assert_eq!(items.len(), 2);
            assert_eq!(text(member(&items[0], "text")), "Read it");
            let inline = member(&items[1], "inlineData");
            assert_eq!(text(member(inline, "mimeType")), "image/jpeg");
            assert_eq!(text(member(inline, "data")), "aGkh");
        }
        _ => panic!("parts"),
    }
    let unknown = c.ocr_request("m", "/tmp/page", b"", "p");
    let body = unknown.body.expect("body");
    match member(first(member(&body, "contents")), "parts") {
        JsonValue::Array(items) => {
            let inline = member(&items[1], "inlineData");
            assert_eq!(text(member(inline, "mimeType")), "application/octet-stream");
            assert_eq!(text(member(inline, "data")), "");
        }
        _ => panic!("parts"),
    }
}

#[test]
fn uploads_describe_the_file_and_finalize_with_its_length() {
    let doc = upload_document("/data/docs/report.pdf");
    assert_eq!(doc.mime_type, "application/pdf");
    assert_eq!(doc.display_name, "report.pdf");
    assert_eq!(doc.source_path, "/data/docs/report.pdf");
    assert_eq!(text(member(&doc.metadata, "displayName")), "report.pdf");
    let entry = first(member(&doc.metadata, "customMetadata"));
    assert_eq!(text(member(entry, "key")), "source_path");
    assert_eq!(text(member(entry, "stringValue")), "/data/docs/report.pdf");
    assert_eq!(upload_document("/").display_name, "document");

    let c = client();
    let start = c.start_upload_request("fileSearchStores/abc", 1234, "application/pdf", doc.metadata);
    assert_eq!(start.url, "https://api.example/upload/v1beta/fileSearchStores/abc:uploadToFileSearchStore");
    assert_eq!(
        start.headers,
        pairs(&[
            ("X-Goog-Upload-Protocol", "resumable"),
            ("X-Goog-Upload-Command", "start"),
            ("X-Goog-Upload-Header-Content-Length", "1234"),
            ("X-Goog-Upload-Header-Content-Type", "application/pdf"),
        ])
    );
    let finalize = finalize_upload_request("https://upload.example/u?id=1", 1234);
    assert_eq!(finalize.url, "https://upload.example/u?id=1");
    assert!(finalize.query.is_empty());
    assert_eq!(
        finalize.headers,
        pairs(&[
            ("content-length", "1234"),
            ("X-Goog-Upload-Offset", "0"),
            ("X-Goog-Upload-Command", "upload, finalize"),
        ])
    );
}

#[test]
fn api_errors_prefer_the_json_message() {
    let nested = JsonValue::Object(vec![(
        "error".to_string(),
        JsonValue::Object(vec![("message".to_string(), JsonValue::Str("quota".to_string()))]),
    )]);
    let e = api_error("429 Too Many Requests", "{...}", &Some(nested));
    assert_eq!(e.message(), "Gemini API returned 429 Too Many Requests: quota");
    let flat = JsonValue::Object(vec![("message".to_string(), JsonValue::Str("bad".to_string()))]);
    assert_eq!(api_error("400 Bad Request", "{}", &Some(flat)).message(), "Gemini API returned 400 Bad Request: bad");
    assert_eq!(api_error("502 Bad Gateway", "upstream down", &None).message(), "Gemini API returned 502 Bad Gateway: upstream down");
    assert!(response_status(204, "204 No Content", "", &None).is_ok());
    assert!(response_status(404, "404 Not Found", "nope", &None).is_err());
    assert_eq!(
        start_upload_result(200, "200 OK", "", &None, Some("https://u".to_string())).ok().as_deref(),
        Some("https://u")
    );
    let missing = start_upload_result(200, "200 OK", "", &None, None).err().expect("no url");
    assert_eq!(missing.message(), "Gemini upload start response did not include x-goog-upload-url");
}

#[test]
fn operations_fail_finish_or_wait() {
    let failed = Operation {
        name: "operations/1".to_string(),
        done: true,
        error: Some(ApiStatus { code: Some(3), message: None }),
    };
    match operation_status(&failed) {
        OperationStatus::Failed(e) => assert_eq!(e.message(), "operation operations/1 failed: status code Some(3)"),
        _ => panic!("failed expected"),
    }
    let described = Operation {
        name: "operations/2".to_string(),
        done: false,
        error: Some(ApiStatus { code: None, message: Some("bad file".to_string()) }),
    };
    match operation_status(&described) {
        OperationStatus::Failed(e) => assert_eq!(e.message(), "operation operations/2 failed: bad file"),
        _ => panic!("failed expected"),
    }
    let unknown = Operation {
        name: "operations/4".to_string(),
        done: false,
        error: Some(ApiStatus { code: None, message: None }),
    };
    match operation_status(&unknown) {
        OperationStatus::Failed(e) => assert_eq!(e.message(), "operation operations/4 failed: status code None"),
        _ => panic!("failed expected"),
    }
    let done = Operation { name: "operations/3".to_string(), done: true, error: None };
    assert!(matches!(operation_status(&done), OperationStatus::Done));
    let pending = Operation { name: "operations/3".to_string(), done: false, error: None };
    assert!(matches!(operation_status(&pending), OperationStatus::Pending));
}

#[test]
fn backoff_doubles_up_to_thirty_seconds() {
    let mut d = Delay { secs: 2, nanos: 0 };
    let mut seen = Vec::new();
    for _ in 0..6 {
        d = next_backoff(d);
        seen.push(d.secs);
        assert_eq!(d.nanos, 0);
    }
    assert_eq!(seen, vec![4, 8, 16, 30, 30, 30]);
    let half = next_backoff(Delay { secs: 1, nanos: 750_000_000 });
    assert_eq!((half.secs, half.nanos), (3, 500_000_000));
    assert!(is_retryable_status(408));
    assert!(is_retryable_status(429));
    assert!(is_retryable_status(503));
    assert!(!is_retryable_status(404));
    assert!(!is_retryable_status(600));
}

#[test]
fn finalize_is_tried_five_times_at_most() {
    let mut retry = UploadRetry::new();
    let mut waits = Vec::new();
    loop {
        match retry.decide(FinalizeOutcome::NotSent { reason: "connection reset".to_string() }) {
            RetryDecision::RetryAfter(d) => waits.push(d.secs),
            RetryDecision::Fail(e) => {
                assert_eq!(e.message(), "failed to send finalize upload request: connection reset");
                break;
            }
            RetryDecision::Finished => panic!("not finished"),
        }
    }
    assert_eq!(waits, vec![2, 4, 8, 16]);
    assert_eq!(retry.attempt, 5);

    let mut retry = UploadRetry::new();
    let not_found = api_error("404 Not Found", "gone", &None);
    match retry.decide(FinalizeOutcome::Rejected { status: 404, error: not_found }) {
        RetryDecision::Fail(e) => assert_eq!(e.message(), "Gemini API returned 404 Not Found: gone"),
        _ => panic!("404 is final"),
    }
    let busy = api_error("503 Service Unavailable", "busy", &None);
    assert!(matches!(
        retry.decide(FinalizeOutcome::Rejected { status: 503, error: busy }),
        RetryDecision::RetryAfter(Delay { secs: 2, nanos: 0 })
    ));
    assert!(matches!(retry.decide(FinalizeOutcome::Accepted), RetryDecision::Finished));
}

#[test]
fn ocr_answers_need_text() {
    let empty = GenerateContentResponse { candidates: Vec::new(), extra: Vec::new() };
    let e = ocr_text(&empty).err().expect("no text");
    assert_eq!(e.message(), "Gemini OCR response did not include text");
}
