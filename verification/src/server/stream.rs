//! Streamed chat completions: the chunk documents and the session that turns the upstream
//! server-sent events into OpenAI chunks.
use vstd::prelude::*;
use vstd::utf8::{decode_utf8, valid_utf8};
use crate::gemini::types::{response_text, GenerateContentResponse};
use crate::json::{
    json_entries_view, json_seq_view, lemma_json_seq_view_push, nat_json, number_json,
    opt_text_json, push_entry, Json, JsonValue,
};
use crate::server::citations::{
    context_locations, file_reference_json, file_references, markdown_citations,
    markdown_citations_text, reference_describes, references_json, FileReference,
};
use crate::server::completion::{completion_text, push_gemini_images, responses_images, views};
use crate::server::metadata::{gemini_metadata_values, snake_json};
use crate::server::sse::{
    crlf_to_lf, drain_events, drain_remaining_events, events_data, find_blank_from,
    lemma_drain_in_pieces, lemma_find_blank_from, normalize_line_endings, remaining_data,
    split_events,
};
use crate::text::{concat2, decimal, decimal_string, extend_str, str_eq};

verus! {

/// An optional borrowed text as a character sequence.
pub open spec fn opt_str_view(o: Option<&str>) -> Option<Seq<char>> {
    match o {
        Some(s) => Some(s@),
        None => None,
    }
}

/// The `delta` of a chunk: the role and the content, each when given.
pub open spec fn delta_json(role: Option<Seq<char>>, content: Option<Seq<char>>) -> Json {
    Json::Object(
        match role {
            Some(r) => seq![("role"@, Json::Str(r))],
            None => Seq::empty(),
        } + match content {
            Some(c) => seq![("content"@, Json::Str(c))],
            None => Seq::empty(),
        },
    )
}

/// One `chat.completion.chunk` document, with its single choice.
pub open spec fn stream_chunk_json(
    id: Seq<char>,
    created: u64,
    model: Seq<char>,
    role: Option<Seq<char>>,
    content: Option<Seq<char>>,
    finish_reason: Option<Seq<char>>,
    metadata: Option<Json>,
) -> Json {
    Json::Object(
        seq![
            ("id"@, Json::Str(id)),
            ("object"@, Json::Str("chat.completion.chunk"@)),
            ("created"@, nat_json(created as nat)),
            ("model"@, Json::Str(model)),
            ("choices"@, Json::Array(
                seq![
                    Json::Object(
                        seq![
                            ("index"@, nat_json(0)),
                            ("delta"@, delta_json(role, content)),
                            ("finish_reason"@, opt_text_json(finish_reason)),
                        ],
                    ),
                ],
            )),
        ] + match metadata {
            Some(m) => seq![("metadata"@, m)],
            None => Seq::empty(),
        },
    )
}

/// The error document sent in place of a chunk when the stream fails.
pub open spec fn stream_error_json(message: Seq<char>) -> Json {
    Json::Object(
        seq![
            ("error"@, Json::Object(
                seq![
                    ("message"@, Json::Str(message)),
                    ("type"@, Json::Str("server_error"@)),
                    ("code"@, Json::Null),
                ],
            )),
        ],
    )
}

/// Builds one chunk of a streamed completion.
pub fn openai_stream_chunk(
    id: &str,
    created: u64,
    model: &str,
    role: Option<&str>,
    content: Option<&str>,
    finish_reason: Option<&str>,
    metadata: Option<JsonValue>,
) -> (r: JsonValue)
    ensures
        r@ == stream_chunk_json(
            id@,
            created,
            model@,
            opt_str_view(role),
            opt_str_view(content),
            opt_str_view(finish_reason),
            match metadata {
                Some(m) => Some(m@),
                None => None,
            },
        ),
{
    let mut delta: Vec<(String, JsonValue)> = Vec::new();
    if let Some(role) = role {
        push_entry(&mut delta, "role", JsonValue::Str(String::from_str(role)));
    }
    if let Some(content) = content {
        push_entry(&mut delta, "content", JsonValue::Str(String::from_str(content)));
    }
    let ghost dv = json_entries_view(delta@);
    assert(dv =~= match opt_str_view(role) {
        Some(r) => seq![("role"@, Json::Str(r))],
        None => Seq::<(Seq<char>, Json)>::empty(),
    } + match opt_str_view(content) {
        Some(c) => seq![("content"@, Json::Str(c))],
        None => Seq::<(Seq<char>, Json)>::empty(),
    });
    let delta_value = JsonValue::Object(delta);
    assert(delta_value@ == delta_json(opt_str_view(role), opt_str_view(content)));
    let mut choice: Vec<(String, JsonValue)> = Vec::new();
    push_entry(&mut choice, "index", number_json(0));
    push_entry(&mut choice, "delta", delta_value);
    let finish = match finish_reason {
        Some(f) => JsonValue::Str(String::from_str(f)),
        None => JsonValue::Null,
    };
    assert(finish@ == opt_text_json(opt_str_view(finish_reason)));
    push_entry(&mut choice, "finish_reason", finish);
    let ghost cv = json_entries_view(choice@);
    assert(cv =~= seq![
        ("index"@, nat_json(0)),
        ("delta"@, delta_json(opt_str_view(role), opt_str_view(content))),
        ("finish_reason"@, opt_text_json(opt_str_view(finish_reason))),
    ]);
    let choice_value = JsonValue::Object(choice);
    assert(choice_value@ == Json::Object(cv));
    let mut choices: Vec<JsonValue> = Vec::new();
    proof {
        lemma_json_seq_view_push(choices@, choice_value);
    }
    choices.push(choice_value);
    assert(json_seq_view(choices@) =~= seq![Json::Object(cv)]);
    let mut chunk: Vec<(String, JsonValue)> = Vec::new();
    push_entry(&mut chunk, "id", JsonValue::Str(String::from_str(id)));
    push_entry(&mut chunk, "object", JsonValue::Str(String::from_str("chat.completion.chunk")));
    push_entry(&mut chunk, "created", number_json(created as u128));
    push_entry(&mut chunk, "model", JsonValue::Str(String::from_str(model)));
    push_entry(&mut chunk, "choices", JsonValue::Array(choices));
    let ghost mv = match &metadata {
        Some(m) => Some(m@),
        None => None,
    };
    if let Some(m) = metadata {
        push_entry(&mut chunk, "metadata", m);
    }
    let ghost kv = json_entries_view(chunk@);
    assert(kv =~= seq![
        ("id"@, Json::Str(id@)),
        ("object"@, Json::Str("chat.completion.chunk"@)),
        ("created"@, nat_json(created as nat)),
        ("model"@, Json::Str(model@)),
        ("choices"@, Json::Array(seq![Json::Object(cv)])),
    ] + match mv {
        Some(m) => seq![("metadata"@, m)],
        None => Seq::<(Seq<char>, Json)>::empty(),
    });
    let r = JsonValue::Object(chunk);
    assert(r@ == Json::Object(kv));
    r
}

/// The error document of a failed stream.
pub fn openai_stream_error(message: String) -> (r: JsonValue)
    ensures
        r@ == stream_error_json(message@),
{
    let ghost m = message@;
    let mut inner: Vec<(String, JsonValue)> = Vec::new();
    push_entry(&mut inner, "message", JsonValue::Str(message));
    push_entry(&mut inner, "type", JsonValue::Str(String::from_str("server_error")));
    push_entry(&mut inner, "code", JsonValue::Null);
    let ghost iv = json_entries_view(inner@);
    assert(iv =~= seq![
        ("message"@, Json::Str(m)),
        ("type"@, Json::Str("server_error"@)),
        ("code"@, Json::Null),
    ]);
    let inner_value = JsonValue::Object(inner);
    assert(inner_value@ == Json::Object(iv));
    let mut outer: Vec<(String, JsonValue)> = Vec::new();
    push_entry(&mut outer, "error", inner_value);
    let ghost ov = json_entries_view(outer@);
    assert(ov =~= seq![("error"@, Json::Object(iv))]);
    let r = JsonValue::Object(outer);
    assert(r@ == Json::Object(ov));
    r
}

// ---------------------------------------------------------------------------
// The session
// ---------------------------------------------------------------------------

/// What the proxy sends next: a JSON document, or the closing `[DONE]`.
pub enum StreamOutput {
    Chunk(JsonValue),
    Done,
}

/// Event data without the upstream's own `[DONE]` markers.
pub open spec fn without_done(ds: Seq<Seq<char>>) -> Seq<Seq<char>>
    decreases ds.len(),
{
    if ds.len() == 0 {
        Seq::empty()
    } else {
        without_done(ds.drop_last()) + if ds.last() == "[DONE]"@ {
            Seq::empty()
        } else {
            seq![ds.last()]
        }
    }
}

proof fn lemma_without_done_add(a: Seq<Seq<char>>, b: Seq<Seq<char>>)
    ensures
        without_done(a + b) == without_done(a) + without_done(b),
    decreases b.len(),
{
    if b.len() == 0 {
        assert(a + b =~= a);
        assert(without_done(a) + without_done(b) =~= without_done(a));
    } else {
        lemma_without_done_add(a, b.drop_last());
        assert((a + b).drop_last() =~= a + b.drop_last());
        assert(without_done(a + b) =~= without_done(a) + without_done(b));
    }
}

proof fn lemma_crlf_without_cr(s: Seq<char>)
    requires
        forall|i: int| 0 <= i < s.len() ==> s[i] != '\r',
    ensures
        crlf_to_lf(s) == s,
    decreases s.len(),
{
    if s.len() > 0 {
        assert forall|i: int| 0 <= i < s.drop_first().len() implies s.drop_first()[i] != '\r' by {
            assert(s.drop_first()[i] == s[i + 1]);
        }
        lemma_crlf_without_cr(s.drop_first());
        assert(s =~= seq![s[0]] + s.drop_first());
    }
}

/// The event data a session hands out when it receives `text` with `buffer` pending, and
/// the text that stays pending.
pub open spec fn received(buffer: Seq<char>, text: Seq<char>) -> (Seq<Seq<char>>, Seq<char>) {
    let all = crlf_to_lf(buffer + text);
    (without_done(events_data(split_events(all).0)), split_events(all).1)
}

/// Text without carriage returns gives the same event data however it is split into reads:
/// receiving `x` then `y` hands out the data of receiving `x + y`, and leaves the same text
/// pending.
pub proof fn lemma_receive_in_pieces(buffer: Seq<char>, x: Seq<char>, y: Seq<char>)
    requires
        forall|i: int| 0 <= i < buffer.len() ==> buffer[i] != '\r',
        forall|i: int| 0 <= i < x.len() ==> x[i] != '\r',
        forall|i: int| 0 <= i < y.len() ==> y[i] != '\r',
    ensures
        received(buffer, x).0 + received(received(buffer, x).1, y).0 == received(buffer, x + y).0,
        received(received(buffer, x).1, y).1 == received(buffer, x + y).1,
{
    let bx = buffer + x;
    assert forall|i: int| 0 <= i < bx.len() implies bx[i] != '\r' by {
        if i < buffer.len() {
            assert(bx[i] == buffer[i]);
        } else {
            assert(bx[i] == x[i - buffer.len()]);
        }
    }
    lemma_crlf_without_cr(bx);
    let rest = split_events(bx).1;
    lemma_split_events_suffix_no_cr(bx);
    let ry = rest + y;
    assert forall|i: int| 0 <= i < ry.len() implies ry[i] != '\r' by {
        if i < rest.len() {
            assert(ry[i] == rest[i]);
        } else {
            assert(ry[i] == y[i - rest.len()]);
        }
    }
    lemma_crlf_without_cr(ry);
    let bxy = buffer + (x + y);
    assert(bxy =~= bx + y);
    assert forall|i: int| 0 <= i < bxy.len() implies bxy[i] != '\r' by {
        if i < bx.len() {
            assert(bxy[i] == bx[i]);
        } else {
            assert(bxy[i] == y[i - bx.len()]);
        }
    }
    lemma_crlf_without_cr(bxy);
    lemma_drain_in_pieces(bx, y);
    lemma_without_done_add(events_data(split_events(bx).0), events_data(split_events(ry).0));
}

/// What is left after the events of a text is a part of it, so it has no carriage return
/// when the text has none.
proof fn lemma_split_events_suffix_no_cr(s: Seq<char>)
    requires
        forall|i: int| 0 <= i < s.len() ==> s[i] != '\r',
    ensures
        forall|i: int| 0 <= i < split_events(s).1.len() ==> split_events(s).1[i] != '\r',
    decreases s.len(),
{
    match find_blank_from(s, 0) {
        Some(k) => {
            lemma_find_blank_from(s, 0);
            let t = s.skip(k + 2);
            assert forall|i: int| 0 <= i < t.len() implies t[i] != '\r' by {
                assert(t[i] == s[i + k + 2]);
            }
            lemma_split_events_suffix_no_cr(t);
            assert(split_events(s).1 == split_events(t).1);
        },
        None => {
            assert(split_events(s).1 == s);
        },
    }
}

/// A streamed answer adds up to the answer sent at once: for a response that a chat
/// completion can answer, what a fresh session accumulates from it (its text when it
/// accepts it, then the citations when it finishes) is the content of that completion.
pub proof fn lemma_stream_matches_completion(r: GenerateContentResponse)
    requires
        completion_text(r) is Some,
    ensures
        Seq::<char>::empty() + response_text(r) + markdown_citations_text(seq![r])
            == completion_text(r)->0 + markdown_citations_text(seq![r]),
{
    assert(Seq::<char>::empty() + response_text(r) =~= response_text(r));
    if response_text(r).len() == 0 {
        assert(response_text(r) =~= Seq::<char>::empty());
    }
}

/// Bytes read from the upstream as text, each invalid UTF-8 sequence replaced by U+FFFD.
pub uninterp spec fn utf8_lossy(bytes: Seq<u8>) -> Seq<char>;

/// `String::from_utf8_lossy`: the bytes as text, with U+FFFD in place of every invalid
/// sequence; bytes that are valid UTF-8 are decoded as they are.
#[verifier::external_body]
fn decode_lossy(bytes: &[u8]) -> (r: String)
    ensures
        r@ == utf8_lossy(bytes@),
        valid_utf8(bytes@) ==> r@ == decode_utf8(bytes@),
{
    String::from_utf8_lossy(bytes).into_owned()
}

/// Drops the `[DONE]` markers from event data.
fn drop_done_markers(data: Vec<String>) -> (r: Vec<String>)
    ensures
        views(r@) == without_done(views(data@)),
{
    let mut out: Vec<String> = Vec::new();
    let mut i: usize = 0;
    while i < data.len()
        invariant
            i <= data@.len(),
            views(out@) == without_done(views(data@.take(i as int))),
        decreases data@.len() - i,
    {
        let d = &data[i];
        let done = str_eq(d.as_str(), "[DONE]");
        proof {
            reveal_strlit("[DONE]");
            assert(views(data@.take(i + 1)).drop_last() =~= views(data@.take(i as int)));
            assert(views(data@.take(i + 1)).last() == data@[i as int]@);
        }
        if !done {
            let ghost before = views(out@);
            out.push(d.clone());
            assert(views(out@) =~= before.push(data@[i as int]@));
        } else {
            assert(views(out@) =~= views(out@) + Seq::<Seq<char>>::empty());
        }
        i = i + 1;
    }
    assert(data@.take(data@.len() as int) =~= data@);
    out
}

/// The metadata of the closing chunk: the responses in snake case, their images and
/// their file references.
pub open spec fn stream_metadata_json(
    documents: Seq<Json>,
    images: Seq<Json>,
    references: Seq<FileReference>,
) -> Json {
    Json::Object(
        seq![
            ("gemini"@, Json::Array(documents.map_values(|d: Json| snake_json(d)))),
            ("images"@, Json::Array(images)),
            ("references"@, Json::Array(references.map_values(|f: FileReference| file_reference_json(f)))),
        ],
    )
}

/// What has been sent to the client, as documents: a JSON chunk, or `[DONE]`.
pub enum SentItem {
    Chunk(Json),
    Done,
}

pub open spec fn output_view(o: StreamOutput) -> SentItem {
    match o {
        StreamOutput::Chunk(j) => SentItem::Chunk(j@),
        StreamOutput::Done => SentItem::Done,
    }
}

pub open spec fn outputs_view(os: Seq<StreamOutput>) -> Seq<SentItem> {
    os.map_values(|o: StreamOutput| output_view(o))
}

/// The opening chunk of a stream: the role `assistant`, no finish reason.
pub open spec fn opening_chunk(id: Seq<char>, created: u64, model: Seq<char>) -> Json {
    stream_chunk_json(id, created, model, Some("assistant"@), None, None, None)
}

/// A `chat.completion.chunk` of the stream with this id, creation time and model.
pub open spec fn session_chunk(j: Json, id: Seq<char>, created: u64, model: Seq<char>) -> bool {
    &&& j matches Json::Object(es)
    &&& j->Object_0.len() >= 5
    &&& j->Object_0[0] == ("id"@, Json::Str(id))
    &&& j->Object_0[1] == ("object"@, Json::Str("chat.completion.chunk"@))
    &&& j->Object_0[2] == ("created"@, nat_json(created as nat))
    &&& j->Object_0[3] == ("model"@, Json::Str(model))
}

/// An error document: one `error` member.
pub open spec fn error_document(j: Json) -> bool {
    &&& j matches Json::Object(es)
    &&& j->Object_0.len() == 1
    &&& j->Object_0[0].0 == "error"@
}

/// Every chunk built for a stream carries its id, creation time and model.
pub proof fn lemma_chunk_of_session(
    id: Seq<char>,
    created: u64,
    model: Seq<char>,
    role: Option<Seq<char>>,
    content: Option<Seq<char>>,
    finish_reason: Option<Seq<char>>,
    metadata: Option<Json>,
)
    ensures
        session_chunk(
            stream_chunk_json(id, created, model, role, content, finish_reason, metadata),
            id,
            created,
            model,
        ),
{
}

/// What a session has sent so far: it opened with the role chunk; `[DONE]` was sent only
/// as the last document, exactly when the session is finished; every other document is a
/// chunk of the session, or the error document just before `[DONE]`.
pub open spec fn session_wf(s: StreamSession) -> bool {
    let sent = s.sent@;
    &&& sent.len() >= 1
    &&& sent[0] == SentItem::Chunk(opening_chunk(s.id@, s.created, s.model@))
    &&& forall|i: int|
        0 <= i < sent.len() ==> ((#[trigger] sent[i]) is Done <==> (s.finished && i == sent.len()
            - 1))
    &&& forall|i: int|
        0 <= i < sent.len() ==> match #[trigger] sent[i] {
            SentItem::Chunk(j) => session_chunk(j, s.id@, s.created, s.model@) || (error_document(j)
                && s.finished && i == sent.len() - 2),
            SentItem::Done => true,
        }
}

/// A whole streamed completion, once it has ended: it opened with the role chunk (role
/// `assistant`, no finish reason), it ends with `[DONE]` and sends it only once, and every
/// document before `[DONE]` is a `chat.completion.chunk` with the stream's id, creation
/// time and model, except an error document right before `[DONE]` when the stream failed.
pub proof fn lemma_stream_protocol(s: StreamSession)
    requires
        session_wf(s),
        s.finished,
    ensures
        s.sent@.len() >= 2,
        s.sent@[0] == SentItem::Chunk(
            stream_chunk_json(s.id@, s.created, s.model@, Some("assistant"@), None, None, None),
        ),
        s.sent@.last() is Done,
        forall|i: int|
            0 <= i < s.sent@.len() - 1 ==> (#[trigger] s.sent@[i] matches SentItem::Chunk(j) && (
            session_chunk(j, s.id@, s.created, s.model@) || (error_document(j) && i == s.sent@.len()
                - 2))),
{
    let sent = s.sent@;
    assert(sent[0] is Chunk);
    assert(sent[sent.len() - 1] is Done) by {
        if sent.len() == 1 {
            assert(sent[0] is Chunk);
        }
    }
    assert forall|i: int| 0 <= i < sent.len() - 1 implies (#[trigger] sent[i] matches SentItem::Chunk(
        j,
    ) && (session_chunk(j, s.id@, s.created, s.model@) || (error_document(j) && i == sent.len()
        - 2))) by {
        assert(!(sent[i] is Done));
    }
}

/// A streamed chat completion between the upstream events and the client's chunks.
///
/// The caller reads the upstream and hands the bytes to `receive`; it parses each event
/// datum it gets back as a Gemini response and hands it, with its JSON document, to
/// `accept`; when the upstream ends it does the same with `drain_remaining` and then calls
/// `finish`. On any failure it calls `fail`. Every document returned is sent to the client,
/// in order; after `Done` nothing more is sent.
pub struct StreamSession {
    pub id: String,
    pub created: u64,
    pub model: String,
    /// Text received and not yet part of a complete event.
    pub buffer: Vec<char>,
    /// The content sent so far.
    pub completion_text: String,
    /// The upstream responses accepted so far.
    pub responses: Vec<GenerateContentResponse>,
    /// Their JSON documents.
    pub documents: Vec<JsonValue>,
    /// Whether `[DONE]` has been sent.
    pub finished: bool,
    /// The documents sent so far, the opening chunk first.
    pub sent: Ghost<Seq<SentItem>>,
}

impl StreamSession {
    /// Opens a stream: its id is `chatcmpl-` and the time in milliseconds. Returns the
    /// session and the opening chunk, which gives the role `assistant`.
    pub fn start(id_millis: u128, created: u64, model: String) -> (r: (StreamSession, JsonValue))
        ensures
            r.0.id@ == "chatcmpl-"@ + decimal(id_millis as nat),
            r.0.created == created,
            r.0.model == model,
            r.0.buffer@.len() == 0,
            r.0.completion_text@.len() == 0,
            r.0.responses@.len() == 0,
            r.0.documents@.len() == 0,
            !r.0.finished,
            r.1@ == stream_chunk_json(
                r.0.id@,
                created,
                model@,
                Some("assistant"@),
                None,
                None,
                None,
            ),
            r.0.sent@ == seq![SentItem::Chunk(r.1@)],
            session_wf(r.0),
    {
        let id = concat2("chatcmpl-", decimal_string(id_millis).as_str());
        let opening = openai_stream_chunk(
            id.as_str(),
            created,
            model.as_str(),
            Some("assistant"),
            None,
            None,
            None,
        );
        proof {
            reveal_strlit("assistant");
        }
        let ghost first = seq![SentItem::Chunk(opening@)];
        let sent: Ghost<Seq<SentItem>> = Ghost(first);
        let session = StreamSession {
            id,
            created,
            model,
            buffer: Vec::new(),
            completion_text: String::new(),
            responses: Vec::new(),
            documents: Vec::new(),
            finished: false,
            sent,
        };
        (session, opening)
    }

    /// Ends the stream with an error document, then `Done`. Once the stream has ended,
    /// nothing is sent.
    pub fn fail(&mut self, message: String) -> (r: Vec<StreamOutput>)
        ensures
            final(self).finished,
            final(self).id == old(self).id,
            final(self).created == old(self).created,
            final(self).model == old(self).model,
            final(self).buffer == old(self).buffer,
            final(self).completion_text == old(self).completion_text,
            final(self).responses == old(self).responses,
            final(self).documents == old(self).documents,
            old(self).finished ==> r@.len() == 0,
            !old(self).finished ==> {
                &&& r@.len() == 2
                &&& r@[0] matches StreamOutput::Chunk(c) && c@ == stream_error_json(message@)
                &&& r@[1] is Done
            },
            final(self).sent@ == old(self).sent@ + outputs_view(r@),
            session_wf(*old(self)) ==> session_wf(*final(self)),
    {
        let mut out: Vec<StreamOutput> = Vec::new();
        if self.finished {
            assert(self.sent@ + outputs_view(out@) =~= self.sent@);
            return out;
        }
        let ghost before = *self;
        let error = openai_stream_error(message);
        let ghost ev = error@;
        out.push(StreamOutput::Chunk(error));
        out.push(StreamOutput::Done);
        let ghost added = outputs_view(out@);
        assert(added =~= seq![SentItem::Chunk(ev), SentItem::Done]);
        let ghost all = self.sent@ + added;
        let sent: Ghost<Seq<SentItem>> = Ghost(all);
        self.sent = sent;
        self.finished = true;
        proof {
            if session_wf(before) {
                let sent = self.sent@;
                let n = sent.len() as int;
                assert(sent[0] == before.sent@[0]);
                assert forall|i: int| 0 <= i < n implies ((#[trigger] sent[i]) is Done <==> (
                self.finished && i == n - 1)) by {
                    if i < n - 2 {
                        assert(sent[i] == before.sent@[i]);
                    }
                }
                assert forall|i: int| 0 <= i < n implies match #[trigger] sent[i] {
                    SentItem::Chunk(j) => session_chunk(j, self.id@, self.created, self.model@) || (
                    error_document(j) && self.finished && i == n - 2),
                    SentItem::Done => true,
                } by {
                    if i < n - 2 {
                        assert(sent[i] == before.sent@[i]);
                    }
                }
            }
        }
        out
    }

    /// Ends the stream because an upstream event could not be parsed.
    pub fn fail_parse(&mut self, error: &str) -> (r: Vec<StreamOutput>)
        ensures
            final(self).finished,
            final(self).id == old(self).id,
            final(self).created == old(self).created,
            final(self).model == old(self).model,
            final(self).buffer == old(self).buffer,
            final(self).completion_text == old(self).completion_text,
            final(self).responses == old(self).responses,
            final(self).documents == old(self).documents,
            old(self).finished ==> r@.len() == 0,
            !old(self).finished ==> {
                &&& r@.len() == 2
                &&& r@[0] matches StreamOutput::Chunk(c) && c@ == stream_error_json(
                    "failed to parse Gemini stream chunk: "@ + error@,
                )
                &&& r@[1] is Done
            },            final(self).sent@ == old(self).sent@ + outputs_view(r@),
            session_wf(*old(self)) ==> session_wf(*final(self)),
    {
        let message = concat2("failed to parse Gemini stream chunk: ", error);
        self.fail(message)
    }

    /// Takes the bytes of one upstream read and returns the data of the events they
    /// complete, in order, without `[DONE]`. Line endings `\r\n` count as `\n`.
    pub fn receive(&mut self, bytes: &[u8]) -> (r: Vec<String>)
        ensures
            final(self).finished == old(self).finished,
            final(self).id == old(self).id,
            final(self).created == old(self).created,
            final(self).model == old(self).model,
            final(self).completion_text == old(self).completion_text,
            final(self).responses == old(self).responses,
            final(self).documents == old(self).documents,
            old(self).finished ==> r@.len() == 0 && final(self).buffer == old(self).buffer,
            !old(self).finished ==> {
                &&& final(self).buffer@ == received(old(self).buffer@, utf8_lossy(bytes@)).1
                &&& views(r@) == received(old(self).buffer@, utf8_lossy(bytes@)).0
            },
            final(self).sent == old(self).sent,
            session_wf(*old(self)) ==> session_wf(*final(self)),
    {
        if self.finished {
            return Vec::new();
        }
        let text = decode_lossy(bytes);
        extend_str(&mut self.buffer, text.as_str());
        let normalized = normalize_line_endings(self.buffer.as_slice());
        self.buffer = normalized;
        let data = drain_events(&mut self.buffer);
        drop_done_markers(data)
    }

    /// Takes one parsed upstream response and its JSON document. When the response has
    /// text, the text is added to the completion and its chunk is returned.
    pub fn accept(&mut self, response: GenerateContentResponse, document: JsonValue) -> (r:
        Option<JsonValue>)
        ensures
            final(self).finished == old(self).finished,
            final(self).id == old(self).id,
            final(self).created == old(self).created,
            final(self).model == old(self).model,
            final(self).buffer == old(self).buffer,
            old(self).finished ==> {
                &&& r is None
                &&& final(self).completion_text == old(self).completion_text
                &&& final(self).responses == old(self).responses
                &&& final(self).documents == old(self).documents
            },
            !old(self).finished ==> {
                &&& final(self).responses@ == old(self).responses@.push(response)
                &&& final(self).documents@ == old(self).documents@.push(document)
                &&& final(self).completion_text@ == old(self).completion_text@ + response_text(
                    response,
                )
                &&& match r {
                    Some(c) => response_text(response).len() > 0 && c@ == stream_chunk_json(
                        old(self).id@,
                        old(self).created,
                        old(self).model@,
                        None,
                        Some(response_text(response)),
                        None,
                        None,
                    ),
                    None => response_text(response).len() == 0,
                }
            },
            final(self).sent@ == old(self).sent@ + match r {
                Some(c) => seq![SentItem::Chunk(c@)],
                None => Seq::<SentItem>::empty(),
            },
            session_wf(*old(self)) ==> session_wf(*final(self)),
    {
        if self.finished {
            assert(self.sent@ + Seq::<SentItem>::empty() =~= self.sent@);
            return None;
        }
        let ghost before = *self;
        let chunk = match response.text() {
            Some(t) => {
                self.completion_text.append(t.as_str());
                Some(
                    openai_stream_chunk(
                        self.id.as_str(),
                        self.created,
                        self.model.as_str(),
                        None,
                        Some(t.as_str()),
                        None,
                        None,
                    ),
                )
            },
            None => {
                assert(self.completion_text@ =~= self.completion_text@ + response_text(response));
                None
            },
        };
        self.responses.push(response);
        self.documents.push(document);
        let ghost added = match &chunk {
            Some(c) => seq![SentItem::Chunk(c@)],
            None => Seq::<SentItem>::empty(),
        };
        let ghost all = self.sent@ + added;
        let sent: Ghost<Seq<SentItem>> = Ghost(all);
        self.sent = sent;
        proof {
            if session_wf(before) {
                let sent = self.sent@;
                let n = sent.len() as int;
                if let Some(c) = &chunk {
                    lemma_chunk_of_session(
                        self.id@,
                        self.created,
                        self.model@,
                        None,
                        Some(response_text(response)),
                        None,
                        None,
                    );
                    assert(session_chunk(c@, self.id@, self.created, self.model@));
                    assert(sent[n - 1] == SentItem::Chunk(c@));
                }
                assert(sent[0] == before.sent@[0]);
                assert forall|i: int| 0 <= i < n implies ((#[trigger] sent[i]) is Done <==> (
                self.finished && i == n - 1)) by {
                    if i < before.sent@.len() {
                        assert(sent[i] == before.sent@[i]);
                    }
                }
                assert forall|i: int| 0 <= i < n implies match #[trigger] sent[i] {
                    SentItem::Chunk(j) => session_chunk(j, self.id@, self.created, self.model@) || (
                    error_document(j) && self.finished && i == n - 2),
                    SentItem::Done => true,
                } by {
                    if i < before.sent@.len() {
                        assert(sent[i] == before.sent@[i]);
                    }
                }
            }
        }
        chunk
    }

    /// Once the upstream has ended: empties the buffer and returns the data of what it
    /// held, taken as one last event, without `[DONE]`.
    pub fn drain_remaining(&mut self) -> (r: Vec<String>)
        ensures
            final(self).finished == old(self).finished,
            final(self).id == old(self).id,
            final(self).created == old(self).created,
            final(self).model == old(self).model,
            final(self).completion_text == old(self).completion_text,
            final(self).responses == old(self).responses,
            final(self).documents == old(self).documents,
            old(self).finished ==> r@.len() == 0 && final(self).buffer == old(self).buffer,
            !old(self).finished ==> {
                &&& final(self).buffer@.len() == 0
                &&& views(r@) == without_done(remaining_data(old(self).buffer@))
            },
            final(self).sent == old(self).sent,
            session_wf(*old(self)) ==> session_wf(*final(self)),
    {
        if self.finished {
            return Vec::new();
        }
        let data = drain_remaining_events(&mut self.buffer);
        drop_done_markers(data)
    }

    /// Closes the stream: the citations chunk when the responses cite any context (its
    /// text is added to the completion), the closing chunk with finish reason `stop` and
    /// the metadata, then `Done`.
    pub fn finish(&mut self) -> (r: Vec<StreamOutput>)
        ensures
            final(self).finished,
            final(self).id == old(self).id,
            final(self).created == old(self).created,
            final(self).model == old(self).model,
            final(self).buffer == old(self).buffer,
            final(self).responses == old(self).responses,
            final(self).documents == old(self).documents,
            old(self).finished ==> r@.len() == 0 && final(self).completion_text == old(
                self,
            ).completion_text,
            !old(self).finished ==> {
                let citations = markdown_citations_text(old(self).responses@);
                let n = r@.len() as int;
                let rs = old(self).responses@;
                &&& final(self).completion_text@ == old(self).completion_text@ + citations
                &&& n == if citations.len() > 0 {
                    3int
                } else {
                    2int
                }
                &&& citations.len() > 0 ==> (r@[0] matches StreamOutput::Chunk(c)
                    && c@ == stream_chunk_json(
                    old(self).id@,
                    old(self).created,
                    old(self).model@,
                    None,
                    Some(citations),
                    None,
                    None,
                ))
                &&& r@[n - 1] is Done
                &&& r@[n - 2] matches StreamOutput::Chunk(c) && exists|refs: Seq<FileReference>|
                    {
                        &&& refs.len() == context_locations(rs).len()
                        &&& forall|q: int|
                            0 <= q < refs.len() ==> reference_describes(
                                #[trigger] refs[q],
                                rs,
                                context_locations(rs)[q],
                            )
                        &&& c@ == stream_chunk_json(
                            old(self).id@,
                            old(self).created,
                            old(self).model@,
                            None,
                            None,
                            Some("stop"@),
                            Some(
                                stream_metadata_json(
                                    json_seq_view(old(self).documents@),
                                    responses_images(rs, rs.len() as int),
                                    refs,
                                ),
                            ),
                        )
                    }
            },
            final(self).sent@ == old(self).sent@ + outputs_view(r@),
            session_wf(*old(self)) ==> session_wf(*final(self)),
    {
        let mut out: Vec<StreamOutput> = Vec::new();
        if self.finished {
            assert(self.sent@ + outputs_view(out@) =~= self.sent@);
            return out;
        }
        let ghost before = *self;
        let ghost rs = self.responses@;
        let citations = markdown_citations(self.responses.as_slice());
        if citations.unicode_len() > 0 {
            self.completion_text.append(citations.as_str());
            out.push(
                StreamOutput::Chunk(
                    openai_stream_chunk(
                        self.id.as_str(),
                        self.created,
                        self.model.as_str(),
                        None,
                        Some(citations.as_str()),
                        None,
                        None,
                    ),
                ),
            );
        } else {
            assert(self.completion_text@ =~= self.completion_text@ + citations@);
        }
        let mut images: Vec<JsonValue> = Vec::new();
        let mut i: usize = 0;
        while i < self.responses.len()
            invariant
                self.responses@ == rs,
                i <= rs.len(),
                json_seq_view(images@) == responses_images(rs, i as int),
            decreases rs.len() - i,
        {
            push_gemini_images(&mut images, &self.responses[i]);
            i = i + 1;
        }
        let references = file_references(self.responses.as_slice());
        let mut meta: Vec<(String, JsonValue)> = Vec::new();
        push_entry(&mut meta, "gemini", gemini_metadata_values(&self.documents));
        push_entry(&mut meta, "images", JsonValue::Array(images));
        push_entry(&mut meta, "references", references_json(&references));
        let ghost mv = json_entries_view(meta@);
        assert(mv =~= seq![
            ("gemini"@, Json::Array(json_seq_view(self.documents@).map_values(|d: Json| snake_json(d)))),
            ("images"@, Json::Array(responses_images(rs, rs.len() as int))),
            ("references"@, Json::Array(references@.map_values(|f: FileReference| file_reference_json(f)))),
        ]);
        let metadata = JsonValue::Object(meta);
        assert(metadata@ == stream_metadata_json(
            json_seq_view(self.documents@),
            responses_images(rs, rs.len() as int),
            references@,
        ));
        let closing = openai_stream_chunk(
            self.id.as_str(),
            self.created,
            self.model.as_str(),
            None,
            None,
            Some("stop"),
            Some(metadata),
        );
        proof {
            reveal_strlit("stop");
        }
        let ghost closing_view = closing@;
        out.push(StreamOutput::Chunk(closing));
        out.push(StreamOutput::Done);
        let ghost added = outputs_view(out@);
        let ghost all = self.sent@ + added;
        let sent: Ghost<Seq<SentItem>> = Ghost(all);
        self.sent = sent;
        self.finished = true;
        proof {
            if session_wf(before) {
                let sent = self.sent@;
                let n = sent.len() as int;
                let m = before.sent@.len() as int;
                lemma_chunk_of_session(
                    self.id@,
                    self.created,
                    self.model@,
                    None,
                    Some(citations@),
                    None,
                    None,
                );
                assert(session_chunk(closing_view, self.id@, self.created, self.model@));
                assert(sent[0] == before.sent@[0]);
                assert forall|i: int| m <= i < n implies match #[trigger] sent[i] {
                    SentItem::Chunk(j) => session_chunk(j, self.id@, self.created, self.model@),
                    SentItem::Done => i == n - 1,
                } by {
                    assert(sent[i] == added[i - m]);
                    assert(added[i - m] == output_view(out@[i - m]));
                }
                assert forall|i: int| 0 <= i < n implies ((#[trigger] sent[i]) is Done <==> (
                self.finished && i == n - 1)) by {
                    if i < m {
                        assert(sent[i] == before.sent@[i]);
                    } else {
                        assert(sent[i] == added[i - m]);
                        assert(added[i - m] == output_view(out@[i - m]));
                    }
                }
                assert forall|i: int| 0 <= i < n implies match #[trigger] sent[i] {
                    SentItem::Chunk(j) => session_chunk(j, self.id@, self.created, self.model@) || (
                    error_document(j) && self.finished && i == n - 2),
                    SentItem::Done => true,
                } by {
                    if i < m {
                        assert(sent[i] == before.sent@[i]);
                    }
                }
            }
        }
        out
    }
}

} // verus!
