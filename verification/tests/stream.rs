use gemini_rag::gemini::types::{
    Candidate, Content, GenerateContentResponse, GroundingChunk, GroundingMetadata, Part,
    RetrievedContext,
};
use gemini_rag::json::JsonValue;
use gemini_rag::server::sse::{drain_remaining_sse_data_events, drain_sse_data_events, sse_event_data};
use gemini_rag::server::stream::{openai_stream_chunk, openai_stream_error, StreamOutput, StreamSession};

fn answer(text: &str) -> GenerateContentResponse {
    GenerateContentResponse {
        candidates: vec![Candidate {
            content: Some(Content {
                parts: vec![Part {
                    text: Some(text.to_string()),
                    inline_data: None,
                    file_data: None,
                    extra: Vec::new(),
                }],
                extra: Vec::new(),
            }),
            grounding_metadata: None,
            extra: Vec::new(),
        }],
        extra: Vec::new(),
    }
}

fn cited(title: &str) -> GenerateContentResponse {
    GenerateContentResponse {
        candidates: vec![Candidate {
            content: None,
            grounding_metadata: Some(GroundingMetadata {
                grounding_chunks: vec![GroundingChunk {
                    retrieved_context: Some(RetrievedContext {
                        text: None,
                        title: Some(title.to_string()),
                        uri: None,
                        file_search_store: None,
                        custom_metadata: Vec::new(),
                        page_number: None,
                        media_id: None,
                        extra: Vec::new(),
                    }),
                    extra: Vec::new(),
                }],
                extra: Vec::new(),
            }),
            extra: Vec::new(),
        }],
        extra: Vec::new(),
    }
}

fn content_of(chunk: &JsonValue) -> Option<String> {
    match chunk.get("choices") {
        Some(JsonValue::Array(choices)) => match choices[0].get("delta") {
            Some(delta) => match delta.get("content") {
                Some(JsonValue::Str(s)) => Some(s.clone()),
                _ => None,
            },
            None => None,
        },
        _ => None,
    }
}

fn finish_of(chunk: &JsonValue) -> Option<String> {
    match chunk.get("choices") {
        Some(JsonValue::Array(choices)) => match choices[0].get("finish_reason") {
            Some(JsonValue::Str(s)) => Some(s.clone()),
            _ => None,
        },
        _ => None,
    }
}

#[test]
fn sse_events_are_drained_as_they_complete() {
    let mut buffer = "data: {\"a\":1}\n\ndata: one\ndata: two\n\nevent: ping\n\ndata: par".to_string();
    let events = drain_sse_data_events(&mut buffer);
    assert_eq!(events, vec!["{\"a\":1}".to_string(), "one\ntwo".to_string()]);
    assert_eq!(buffer, "data: par");
    buffer.push_str("tial");
    assert_eq!(drain_sse_data_events(&mut buffer), Vec::<String>::new());
    assert_eq!(drain_remaining_sse_data_events(&mut buffer), vec!["partial".to_string()]);
    assert_eq!(buffer, "");
    let mut blank = "  \n".to_string();
    assert_eq!(drain_remaining_sse_data_events(&mut blank), Vec::<String>::new());
}

#[test]
fn sse_event_data_joins_data_lines() {
    let raw: Vec<char> = "id: 1\ndata:x\ndata:  y\r\n: comment".chars().collect();
    assert_eq!(sse_event_data(&raw).as_deref(), Some("x\ny"));
    let none: Vec<char> = "event: ping".chars().collect();
    assert_eq!(sse_event_data(&none), None);
}

#[test]
fn stream_chunks_follow_openai_shape() {
    let chunk = openai_stream_chunk("chatcmpl-1", 7, "m", Some("assistant"), None, None, None);
    assert!(matches!(chunk.get("object"), Some(JsonValue::Str(s)) if s == "chat.completion.chunk"));
    assert!(matches!(chunk.get("created"), Some(JsonValue::Number(n)) if n == "7"));
    assert!(chunk.get("metadata").is_none());
    let error = openai_stream_error("boom".to_string());
    let inner = error.get("error").expect("error");
    assert!(matches!(inner.get("message"), Some(JsonValue::Str(s)) if s == "boom"));
    assert!(matches!(inner.get("type"), Some(JsonValue::Str(s)) if s == "server_error"));
    assert!(matches!(inner.get("code"), Some(JsonValue::Null)));
}

#[test]
fn a_session_streams_text_citations_and_closes_once() {
    let (mut session, opening) = StreamSession::start(1700000000123, 1700000000, "gemini-3-flash-preview".to_string());
    assert_eq!(session.id, "chatcmpl-1700000000123");
    assert!(matches!(opening.get("id"), Some(JsonValue::Str(s)) if s == "chatcmpl-1700000000123"));

    let data = session.receive(b"data: first\r\n\r\ndata: [DONE]\n\ndata: sec");
    assert_eq!(data, vec!["first".to_string()]);
    let data = session.receive(b"ond\n\n");
    assert_eq!(data, vec!["second".to_string()]);

    let chunk = session.accept(answer("Hello"), JsonValue::Null).expect("text chunk");
    assert_eq!(content_of(&chunk).as_deref(), Some("Hello"));
    assert!(session.accept(cited("Guide"), JsonValue::Null).is_none());
    assert_eq!(session.completion_text, "Hello");
    assert_eq!(session.drain_remaining(), Vec::<String>::new());

    let closing = session.finish();
    assert_eq!(closing.len(), 3);
    match &closing[0] {
        StreamOutput::Chunk(c) => assert_eq!(
            content_of(c).as_deref(),
            Some("\n\n## Citations\n\n1. **Guide**\n")
        ),
        StreamOutput::Done => panic!("citations expected"),
    }
    match &closing[1] {
        StreamOutput::Chunk(c) => {
            assert_eq!(finish_of(c).as_deref(), Some("stop"));
            let metadata = c.get("metadata").expect("metadata");
            assert!(matches!(metadata.get("references"), Some(JsonValue::Array(r)) if r.len() == 1));
            assert!(matches!(metadata.get("gemini"), Some(JsonValue::Array(g)) if g.len() == 2));
        }
        StreamOutput::Done => panic!("closing chunk expected"),
    }
    assert!(matches!(closing[2], StreamOutput::Done));
    assert_eq!(session.completion_text, "Hello\n\n## Citations\n\n1. **Guide**\n");
    assert!(session.finished);
    assert!(session.finish().is_empty());
    assert!(session.fail("late".to_string()).is_empty());
    assert!(session.receive(b"data: x\n\n").is_empty());
}

#[test]
fn a_failed_session_sends_the_error_then_done() {
    let (mut session, _) = StreamSession::start(1, 2, "m".to_string());
    let out = session.fail_parse("expected value at line 1 column 1");
    assert_eq!(out.len(), 2);
    match &out[0] {
        StreamOutput::Chunk(c) => {
            let inner = c.get("error").expect("error");
            assert!(matches!(inner.get("message"), Some(JsonValue::Str(s))
                if s == "failed to parse Gemini stream chunk: expected value at line 1 column 1"));
        }
        StreamOutput::Done => panic!("error expected"),
    }
    assert!(matches!(out[1], StreamOutput::Done));
    assert!(session.accept(answer("late"), JsonValue::Null).is_none());
    assert!(session.fail("again".to_string()).is_empty());
}

#[test]
fn invalid_utf8_is_replaced_not_dropped() {
    let (mut session, _) = StreamSession::start(1, 2, "m".to_string());
    let data = session.receive(b"data: caf\xff\n\n");
    assert_eq!(data, vec!["caf\u{FFFD}".to_string()]);
}

#[test]
fn a_session_without_citations_closes_with_two_outputs() {
    let (mut session, _) = StreamSession::start(1, 2, "m".to_string());
    assert!(session.accept(answer("x"), JsonValue::Null).is_some());
    let closing = session.finish();
    assert_eq!(closing.len(), 2);
    assert!(matches!(closing[1], StreamOutput::Done));
}

#[test]
fn draining_in_pieces_gives_the_events_of_the_whole() {
    let whole = "data: a\n\ndata: b\ndata: c\n\n\ndata: d\n\ndata: e";
    for cut in 0..=whole.len() {
        let (x, y) = whole.split_at(cut);
        let mut at_once = whole.to_string();
        let expected = drain_sse_data_events(&mut at_once);
        let mut buffer = x.to_string();
        let mut got = drain_sse_data_events(&mut buffer);
        buffer.push_str(y);
        got.extend(drain_sse_data_events(&mut buffer));
        assert_eq!(got, expected, "cut at {cut}");
        assert_eq!(buffer, at_once, "cut at {cut}");
    }
}

#[test]
fn a_stream_adds_up_to_the_completion() {
    let mut response = answer("Grounded");
    let cited_part = cited("Guide");
    response.candidates.push(cited_part.candidates.into_iter().next().expect("candidate"));
    let completion = gemini_rag::server::completion::chat_completion_response(
        "m".to_string(),
        "p",
        &response,
        &JsonValue::Null,
        1,
        2,
    )
    .ok()
    .expect("completion");

    let (mut session, _) = StreamSession::start(2, 1, "m".to_string());
    let _ = session.accept(response, JsonValue::Null);
    let _ = session.finish();
    assert_eq!(session.completion_text, completion.choices[0].message.content);
}

#[test]
fn every_run_opens_with_the_role_and_closes_with_one_done() {
    let is_session_chunk = |c: &JsonValue| {
        matches!(c.get("object"), Some(JsonValue::Str(s)) if s == "chat.completion.chunk")
            && matches!(c.get("id"), Some(JsonValue::Str(s)) if s == "chatcmpl-5")
            && matches!(c.get("created"), Some(JsonValue::Number(n)) if n == "9")
            && matches!(c.get("model"), Some(JsonValue::Str(s)) if s == "m")
    };
    for failing in [false, true] {
        let (mut session, opening) = StreamSession::start(5, 9, "m".to_string());
        assert!(is_session_chunk(&opening));
        let mut sent: Vec<StreamOutput> = vec![StreamOutput::Chunk(opening)];
        if let Some(c) = session.accept(answer("hi"), JsonValue::Null) {
            sent.push(StreamOutput::Chunk(c));
        }
        sent.extend(if failing { session.fail("boom".to_string()) } else { session.finish() });
        sent.extend(session.finish());
        sent.extend(session.fail("late".to_string()));
        let dones = sent.iter().filter(|o| matches!(o, StreamOutput::Done)).count();
        assert_eq!(dones, 1);
        assert!(matches!(sent.last(), Some(StreamOutput::Done)));
        for (i, o) in sent.iter().enumerate().take(sent.len() - 1) {
            match o {
                StreamOutput::Chunk(c) => assert!(is_session_chunk(c) || (failing && i == sent.len() - 2 && c.get("error").is_some())),
                StreamOutput::Done => panic!("done before the end"),
            }
        }
    }
}
