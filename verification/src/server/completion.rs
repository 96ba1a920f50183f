//! Chat completions: request planning, images, the completion document and errors.
use vstd::prelude::*;
use crate::gemini::types::{model_supports_generate_content, response_has_non_text_parts, response_text, Candidate, GenerateContentResponse, Model, Part};
use crate::json::{entries_get, json_entries_view, json_get, json_opt_str, json_seq_view, lemma_json_seq_view_push, nat_json, number_json, opt_str_json, opt_view, push_entry, Json, JsonValue};
use crate::server::chat::{chat_prompt, chat_prompt_error_message, conversation_prompt, gemini_response_modalities, prompt_lines, response_modalities_of, ChatMessage, ChatPromptError};
use crate::server::citations::{context_locations, file_reference_json, file_references, markdown_citations_text, reference_describes, references_json, with_markdown_citations, FileReference};
use crate::server::metadata::{gemini_metadata_value, snake_json};
use crate::text::{concat2, copy_str, decimal, decimal_string};
use crate::util::{bare_model_name, strip_model_prefix, token_estimate, token_estimate_of};

verus! {

// ---------------------------------------------------------------------------
// Errors
// ---------------------------------------------------------------------------

/// An error answered to the client, as OpenAI writes errors.
pub struct ApiError {
    pub status: u16,
    pub message: String,
    pub error_type: String,
}

/// The JSON body of an error answer.
pub open spec fn api_error_json(e: ApiError) -> Json {
    Json::Object(
        seq![
            ("error"@, Json::Object(
                seq![
                    ("message"@, Json::Str(e.message@)),
                    ("type"@, Json::Str(e.error_type@)),
                    ("code"@, Json::Null),
                ],
            )),
        ],
    )
}

impl ApiError {
    /// A request the proxy refuses (400, `invalid_request_error`).
    pub fn bad_request(message: String) -> (r: ApiError)
        ensures
            r.status == 400,
            r.message == message,
            r.error_type@ == "invalid_request_error"@,
    {
        ApiError { status: 400, message, error_type: copy_str("invalid_request_error") }
    }

    /// A failure on the way to Gemini or back (500, `server_error`).
    pub fn server_error(message: String) -> (r: ApiError)
        ensures
            r.status == 500,
            r.message == message,
            r.error_type@ == "server_error"@,
    {
        ApiError { status: 500, message, error_type: copy_str("server_error") }
    }

    /// The JSON body of the error.
    pub fn to_json(&self) -> (r: JsonValue)
        ensures
            r@ == api_error_json(*self),
    {
        let mut inner: Vec<(String, JsonValue)> = Vec::new();
        push_entry(&mut inner, "message", JsonValue::Str(self.message.clone()));
        push_entry(&mut inner, "type", JsonValue::Str(self.error_type.clone()));
        push_entry(&mut inner, "code", JsonValue::Null);
        let ghost iv = json_entries_view(inner@);
        assert(iv =~= seq![
            ("message"@, Json::Str(self.message@)),
            ("type"@, Json::Str(self.error_type@)),
            ("code"@, Json::Null),
        ]);
        let inner_value = JsonValue::Object(inner);
        assert(inner_value@ == Json::Object(iv));
        let mut outer: Vec<(String, JsonValue)> = Vec::new();
        push_entry(&mut outer, "error", inner_value);
        let ghost ov = json_entries_view(outer@);
        assert(ov =~= seq![("error"@, Json::Object(iv))]);
        let r = JsonValue::Object(outer);
        assert(r@ == Json::Object(ov));
        r
    }
}

// ---------------------------------------------------------------------------
// Planning a completion
// ---------------------------------------------------------------------------

/// An OpenAI chat completion request.
pub struct ChatCompletionRequest {
    pub model: Option<String>,
    pub messages: Vec<ChatMessage>,
    pub stream: bool,
    pub store: Option<String>,
    pub modalities: Vec<String>,
}

/// The proxy's settings.
pub struct ChatSettings {
    pub default_store: Option<String>,
    pub default_model: String,
    pub system_prompt: Option<String>,
}

/// What the proxy sends to Gemini for a request.
pub struct ChatPlan {
    /// The Gemini model: always the server's model.
    pub model: String,
    /// The model the client named, for the logs.
    pub requested_model: String,
    pub response_modalities: Vec<String>,
    /// The File Search store: the request's, else the server default.
    pub store: Option<String>,
    pub store_label: String,
    pub prompt: String,
    pub stream: bool,
}

pub open spec fn views(v: Seq<String>) -> Seq<Seq<char>> {
    v.map_values(|t: String| t@)
}

/// Plans a chat completion: the server's model, the request's store (else the default),
/// the prompt built from the messages, and the Gemini response modalities.
/// A conversation without a prompt is refused with a 400 error.
pub fn plan_chat_completion(settings: &ChatSettings, request: &ChatCompletionRequest) -> (r: Result<
    ChatPlan,
    ApiError,
>)
    ensures
        r is Ok <==> (request.messages@.len() > 0 && prompt_lines(request.messages@).len() > 0),
        match r {
            Ok(p) => {
                &&& p.model@ == settings.default_model@
                &&& p.requested_model@ == match request.model {
                    Some(m) => m@,
                    None => "<omitted>"@,
                }
                &&& views(p.response_modalities@) == response_modalities_of(
                    views(request.modalities@),
                )
                &&& opt_view(p.store) == match request.store {
                    Some(s) => Some(s@),
                    None => opt_view(settings.default_store),
                }
                &&& p.store_label@ == match opt_view(p.store) {
                    Some(s) => s,
                    None => "<none>"@,
                }
                &&& p.prompt@ == conversation_prompt(request.messages@)
                &&& p.stream == request.stream
            },
            Err(e) => {
                &&& e.status == 400
                &&& e.error_type@ == "invalid_request_error"@
                &&& e.message@ == chat_prompt_error_message(
                    if request.messages@.len() == 0 {
                        ChatPromptError::NoMessages
                    } else {
                        ChatPromptError::NoTextContent
                    },
                )
            },
        },
{
    let requested_model = match &request.model {
        Some(m) => m.clone(),
        None => copy_str("<omitted>"),
    };
    let response_modalities = gemini_response_modalities(request.modalities.as_slice());
    let store = match &request.store {
        Some(s) => Some(s.clone()),
        None => match &settings.default_store {
            Some(s) => Some(s.clone()),
            None => None,
        },
    };
    let store_label = match &store {
        Some(s) => s.clone(),
        None => copy_str("<none>"),
    };
    let prompt = match chat_prompt(request.messages.as_slice()) {
        Ok(p) => p,
        Err(e) => return Err(ApiError::bad_request(e.message())),
    };
    Ok(ChatPlan {
        model: settings.default_model.clone(),
        requested_model,
        response_modalities,
        store,
        store_label,
        prompt,
        stream: request.stream,
    })
}

// ---------------------------------------------------------------------------
// Images
// ---------------------------------------------------------------------------

/// The image document of a part that carries inline data or a file.
pub open spec fn part_image_json(ci: int, pi: int, p: Part) -> Option<Json> {
    match p.inline_data {
        Some(d) => Some(
            Json::Object(
                seq![
                    ("candidate_index"@, nat_json(ci as nat)),
                    ("part_index"@, nat_json(pi as nat)),
                    ("source"@, Json::Str("inlineData"@)),
                    ("mime_type"@, opt_str_json(d.mime_type)),
                    ("data"@, opt_str_json(d.data)),
                    ("data_url"@, match (d.mime_type, d.data) {
                        (Some(m), Some(x)) => Json::Str("data:"@ + m@ + ";base64,"@ + x@),
                        _ => Json::Null,
                    }),
                ],
            ),
        ),
        None => match p.file_data {
            Some(f) => Some(
                Json::Object(
                    seq![
                        ("candidate_index"@, nat_json(ci as nat)),
                        ("part_index"@, nat_json(pi as nat)),
                        ("source"@, Json::Str("fileData"@)),
                        ("mime_type"@, opt_str_json(f.mime_type)),
                        ("file_uri"@, opt_str_json(f.file_uri)),
                    ],
                ),
            ),
            None => None,
        },
    }
}

/// The image documents among the first `n` parts of candidate `ci`.
pub open spec fn parts_images(ci: int, parts: Seq<Part>, n: int) -> Seq<Json>
    decreases n,
{
    if n <= 0 {
        Seq::empty()
    } else {
        parts_images(ci, parts, n - 1) + match part_image_json(ci, n - 1, parts[n - 1]) {
            Some(j) => seq![j],
            None => Seq::empty(),
        }
    }
}

/// The image documents of the first `n` candidates.
pub open spec fn candidates_images(cands: Seq<Candidate>, n: int) -> Seq<Json>
    decreases n,
{
    if n <= 0 {
        Seq::empty()
    } else {
        candidates_images(cands, n - 1) + match cands[n - 1].content {
            Some(c) => parts_images(n - 1, c.parts@, c.parts@.len() as int),
            None => Seq::empty(),
        }
    }
}

/// The image documents of a response, in order.
pub open spec fn response_images(r: GenerateContentResponse) -> Seq<Json> {
    candidates_images(r.candidates@, r.candidates@.len() as int)
}

/// The image documents of the first `n` responses, each numbering its own candidates.
pub open spec fn responses_images(rs: Seq<GenerateContentResponse>, n: int) -> Seq<Json>
    decreases n,
{
    if n <= 0 {
        Seq::empty()
    } else {
        responses_images(rs, n - 1) + response_images(rs[n - 1])
    }
}

fn image_json_of(ci: usize, pi: usize, p: &Part) -> (r: Option<JsonValue>)
    ensures
        match r {
            Some(j) => part_image_json(ci as int, pi as int, *p) == Some(j@),
            None => part_image_json(ci as int, pi as int, *p) is None,
        },
{
    match &p.inline_data {
        Some(d) => {
            let data_url = match (&d.mime_type, &d.data) {
                (Some(m), Some(x)) => {
                    let a = concat2("data:", m.as_str());
                    let b = concat2(a.as_str(), ";base64,");
                    JsonValue::Str(concat2(b.as_str(), x.as_str()))
                },
                _ => JsonValue::Null,
            };
            let ghost du = data_url@;
            assert(du == match (d.mime_type, d.data) {
                (Some(m), Some(x)) => Json::Str("data:"@ + m@ + ";base64,"@ + x@),
                _ => Json::Null,
            });
            let mut es: Vec<(String, JsonValue)> = Vec::new();
            push_entry(&mut es, "candidate_index", number_json(ci as u128));
            push_entry(&mut es, "part_index", number_json(pi as u128));
            push_entry(&mut es, "source", JsonValue::Str(copy_str("inlineData")));
            push_entry(&mut es, "mime_type", json_opt_str(&d.mime_type));
            push_entry(&mut es, "data", json_opt_str(&d.data));
            push_entry(&mut es, "data_url", data_url);
            let ghost ev = json_entries_view(es@);
            assert(ev =~= seq![
                ("candidate_index"@, nat_json(ci as nat)),
                ("part_index"@, nat_json(pi as nat)),
                ("source"@, Json::Str("inlineData"@)),
                ("mime_type"@, opt_str_json(d.mime_type)),
                ("data"@, opt_str_json(d.data)),
                ("data_url"@, match (d.mime_type, d.data) {
                    (Some(m), Some(x)) => Json::Str("data:"@ + m@ + ";base64,"@ + x@),
                    _ => Json::Null,
                }),
            ]);
            let r = JsonValue::Object(es);
            assert(r@ == Json::Object(ev));
            Some(r)
        },
        None => match &p.file_data {
            Some(f) => {
                let mut es: Vec<(String, JsonValue)> = Vec::new();
                push_entry(&mut es, "candidate_index", number_json(ci as u128));
                push_entry(&mut es, "part_index", number_json(pi as u128));
                push_entry(&mut es, "source", JsonValue::Str(copy_str("fileData")));
                push_entry(&mut es, "mime_type", json_opt_str(&f.mime_type));
                push_entry(&mut es, "file_uri", json_opt_str(&f.file_uri));
                let ghost ev = json_entries_view(es@);
                assert(ev =~= seq![
                    ("candidate_index"@, nat_json(ci as nat)),
                    ("part_index"@, nat_json(pi as nat)),
                    ("source"@, Json::Str("fileData"@)),
                    ("mime_type"@, opt_str_json(f.mime_type)),
                    ("file_uri"@, opt_str_json(f.file_uri)),
                ]);
                let r = JsonValue::Object(es);
                assert(r@ == Json::Object(ev));
                Some(r)
            },
            None => None,
        },
    }
}

/// Appends the image documents of a response.
pub fn push_gemini_images(out: &mut Vec<JsonValue>, response: &GenerateContentResponse)
    ensures
        json_seq_view(final(out)@) == json_seq_view(old(out)@) + response_images(*response),
{
    let cands = &response.candidates;
    let ghost base = json_seq_view(old(out)@);
    let mut i: usize = 0;
    while i < cands.len()
        invariant
            i <= cands@.len(),
            base == json_seq_view(old(out)@),
            json_seq_view(out@) == base + candidates_images(cands@, i as int),
        decreases cands@.len() - i,
    {
        let ghost before = json_seq_view(out@);
        match &cands[i].content {
            Some(c) => {
                let mut j: usize = 0;
                while j < c.parts.len()
                    invariant
                        j <= c.parts@.len(),
                        json_seq_view(out@) == before + parts_images(i as int, c.parts@, j as int),
                    decreases c.parts@.len() - j,
                {
                    let ghost prev = json_seq_view(out@);
                    match image_json_of(i, j, &c.parts[j]) {
                        Some(img) => {
                            proof {
                                lemma_json_seq_view_push(out@, img);
                            }
                            out.push(img);
                        },
                        None => {},
                    }
                    assert(json_seq_view(out@) =~= before + parts_images(
                        i as int,
                        c.parts@,
                        j + 1,
                    ));
                    j = j + 1;
                }
            },
            None => {},
        }
        assert(json_seq_view(out@) =~= base + candidates_images(cands@, i + 1));
        i = i + 1;
    }
}

/// The image documents of a response: one per part with inline data or a file.
pub fn gemini_images(response: &GenerateContentResponse) -> (r: Vec<JsonValue>)
    ensures
        json_seq_view(r@) == response_images(*response),
{
    let mut out: Vec<JsonValue> = Vec::new();
    push_gemini_images(&mut out, response);
    assert(json_seq_view(Seq::<JsonValue>::empty()) =~= Seq::<Json>::empty());
    assert(Seq::<Json>::empty() + response_images(*response) =~= response_images(*response));
    out
}

/// A part gives an image document exactly when it carries inline data or a file, and
/// that document names the candidate's index and the part's own index.
pub proof fn lemma_part_image_indices(ci: int, pi: int, p: Part)
    requires
        0 <= ci,
        0 <= pi,
    ensures
        part_image_json(ci, pi, p) is Some <==> (p.inline_data is Some || p.file_data is Some),
        part_image_json(ci, pi, p) matches Some(j) ==> {
            &&& json_get(j, "candidate_index"@) == Some(nat_json(ci as nat))
            &&& json_get(j, "part_index"@) == Some(nat_json(pi as nat))
        },
{
    reveal_strlit("candidate_index");
    reveal_strlit("part_index");
    reveal_with_fuel(entries_get, 2);
    if let Some(j) = part_image_json(ci, pi, p) {
        let entries = j->Object_0;
        assert(entries[0].0 == "candidate_index"@);
        assert(entries.drop_first()[0].0 == "part_index"@);
        assert(entries[0].0 != "part_index"@) by {
            assert(entries[0].0.len() != "part_index"@.len());
        }
        assert(entries_get(entries.drop_first(), "part_index"@) == Some(nat_json(pi as nat)));
    }
}

/// Where the `m`-th image document among the first `n` parts comes from: a part before
/// `n` whose image document it is.
proof fn lemma_parts_image_origin(ci: int, parts: Seq<Part>, n: int, m: int)
    requires
        0 <= n <= parts.len(),
        0 <= m < parts_images(ci, parts, n).len(),
    ensures
        exists|pi: int|
            0 <= pi < n && #[trigger] part_image_json(ci, pi, parts[pi]) == Some(
                parts_images(ci, parts, n)[m],
            ),
    decreases n,
{
    let prev = parts_images(ci, parts, n - 1);
    if m < prev.len() {
        lemma_parts_image_origin(ci, parts, n - 1, m);
        let pi = choose|pi: int|
            0 <= pi < n - 1 && #[trigger] part_image_json(ci, pi, parts[pi]) == Some(prev[m]);
        assert(part_image_json(ci, pi, parts[pi]) == Some(parts_images(ci, parts, n)[m]));
    } else {
        assert(part_image_json(ci, n - 1, parts[n - 1]) == Some(
            parts_images(ci, parts, n)[m],
        ));
    }
}

/// Where the `m`-th image document of the first `n` candidates comes from: a part of the
/// content of a candidate before `n` whose image document it is.
proof fn lemma_candidates_image_origin(cands: Seq<Candidate>, n: int, m: int)
    requires
        0 <= n <= cands.len(),
        0 <= m < candidates_images(cands, n).len(),
    ensures
        exists|ci: int, pi: int|
            #![trigger cands[ci].content.unwrap().parts@[pi]]
            0 <= ci < n && cands[ci].content is Some && 0 <= pi < cands[
                ci
            ].content.unwrap().parts@.len() && part_image_json(
                ci,
                pi,
                cands[ci].content.unwrap().parts@[pi],
            ) == Some(candidates_images(cands, n)[m]),
    decreases n,
{
    let prev = candidates_images(cands, n - 1);
    if m < prev.len() {
        lemma_candidates_image_origin(cands, n - 1, m);
        let (ci, pi) = choose|ci: int, pi: int|
            #![trigger cands[ci].content.unwrap().parts@[pi]]
            0 <= ci < n - 1 && cands[ci].content is Some && 0 <= pi < cands[
                ci
            ].content.unwrap().parts@.len() && part_image_json(
                ci,
                pi,
                cands[ci].content.unwrap().parts@[pi],
            ) == Some(prev[m]);
        assert(candidates_images(cands, n)[m] == prev[m]);
        assert(part_image_json(ci, pi, cands[ci].content.unwrap().parts@[pi]) == Some(
            candidates_images(cands, n)[m],
        ));
    } else {
        let c = cands[n - 1].content.unwrap();
        let ps = c.parts@;
        let k = m - prev.len();
        assert(cands[n - 1].content is Some);
        assert(candidates_images(cands, n)[m] == parts_images(n - 1, ps, ps.len() as int)[k]);
        lemma_parts_image_origin(n - 1, ps, ps.len() as int, k);
        let pi = choose|pi: int|
            0 <= pi < ps.len() && #[trigger] part_image_json(n - 1, pi, ps[pi]) == Some(
                parts_images(n - 1, ps, ps.len() as int)[k],
            );
        assert(part_image_json(n - 1, pi, cands[n - 1].content.unwrap().parts@[pi]) == Some(
            candidates_images(cands, n)[m],
        ));
    }
}

/// Every image document of a response comes from a part that carries inline data or a
/// file: its `candidate_index` is the position of that part's candidate among the
/// response's candidates, and its `part_index` is the position of the part among that
/// candidate's content parts, whatever the candidate's own index.
pub proof fn lemma_response_image_indices(r: GenerateContentResponse, m: int)
    requires
        0 <= m < response_images(r).len(),
    ensures
        exists|ci: int, pi: int|
            #![trigger r.candidates@[ci].content.unwrap().parts@[pi]]
            {
                &&& 0 <= ci < r.candidates@.len()
                &&& r.candidates@[ci].content is Some
                &&& 0 <= pi < r.candidates@[ci].content.unwrap().parts@.len()
                &&& (r.candidates@[ci].content.unwrap().parts@[pi].inline_data is Some
                    || r.candidates@[ci].content.unwrap().parts@[pi].file_data is Some)
                &&& json_get(response_images(r)[m], "candidate_index"@) == Some(
                    nat_json(ci as nat),
                )
                &&& json_get(response_images(r)[m], "part_index"@) == Some(nat_json(pi as nat))
            },
{
    let cands = r.candidates@;
    lemma_candidates_image_origin(cands, cands.len() as int, m);
    let (ci, pi) = choose|ci: int, pi: int|
        #![trigger cands[ci].content.unwrap().parts@[pi]]
        0 <= ci < cands.len() && cands[ci].content is Some && 0 <= pi < cands[
            ci
        ].content.unwrap().parts@.len() && part_image_json(
            ci,
            pi,
            cands[ci].content.unwrap().parts@[pi],
        ) == Some(candidates_images(cands, cands.len() as int)[m]);
    lemma_part_image_indices(ci, pi, cands[ci].content.unwrap().parts@[pi]);
    assert(r.candidates@[ci].content.unwrap().parts@[pi] == cands[ci].content.unwrap().parts@[pi]);
}

// ---------------------------------------------------------------------------
// The completion
// ---------------------------------------------------------------------------

pub struct Usage {
    pub prompt_tokens: u32,
    pub completion_tokens: u32,
    pub total_tokens: u32,
}

pub struct AssistantMessage {
    pub role: String,
    pub content: String,
    /// Present when the answer has images: `{"images": [...]}`.
    pub metadata: Option<JsonValue>,
}

pub struct Choice {
    pub index: u32,
    pub message: AssistantMessage,
    pub finish_reason: String,
}

/// An OpenAI chat completion.
pub struct ChatCompletionResponse {
    pub id: String,
    pub object: String,
    pub created: u64,
    pub model: String,
    pub choices: Vec<Choice>,
    pub usage: Usage,
    pub metadata: JsonValue,
}

/// The answer text of a completion: the response text, or nothing when the response only
/// has non-text parts; none when it has neither.
pub open spec fn completion_text(r: GenerateContentResponse) -> Option<Seq<char>> {
    if response_text(r).len() > 0 {
        Some(response_text(r))
    } else if response_has_non_text_parts(r) {
        Some(Seq::empty())
    } else {
        None
    }
}

pub open spec fn no_answer_text_message() -> Seq<char> {
    "Gemini response did not include answer text"@
}

/// The metadata of a completion: the response in snake case, its images, and its file
/// references.
pub open spec fn completion_metadata_json(
    document: Json,
    images: Seq<Json>,
    references: Seq<FileReference>,
) -> Json {
    Json::Object(
        seq![
            ("gemini"@, snake_json(document)),
            ("images"@, Json::Array(images)),
            ("references"@, Json::Array(references.map_values(|f: FileReference| file_reference_json(f)))),
        ],
    )
}

/// The chat completion that answers a request with a Gemini response. `document` is the
/// response as JSON; `created` and `id_millis` are the time in seconds and milliseconds.
/// Fails (500) when the response has neither text nor other parts.
pub fn chat_completion_response(
    model: String,
    prompt: &str,
    response: &GenerateContentResponse,
    document: &JsonValue,
    created: u64,
    id_millis: u128,
) -> (r: Result<ChatCompletionResponse, ApiError>)
    ensures
        r is Err <==> completion_text(*response) is None,
        match r {
            Ok(c) => {
                let content = completion_text(*response)->0 + markdown_citations_text(
                    seq![*response],
                );
                &&& c.id@ == "chatcmpl-"@ + decimal(id_millis as nat)
                &&& c.object@ == "chat.completion"@
                &&& c.created == created
                &&& c.model == model
                &&& c.choices@.len() == 1
                &&& c.choices@[0].index == 0
                &&& c.choices@[0].message.role@ == "assistant"@
                &&& c.choices@[0].message.content@ == content
                &&& c.choices@[0].finish_reason@ == "stop"@
                &&& match c.choices@[0].message.metadata {
                    Some(m) => response_images(*response).len() > 0 && m@ == Json::Object(
                        seq![("images"@, Json::Array(response_images(*response)))],
                    ),
                    None => response_images(*response).len() == 0,
                }
                &&& c.usage.prompt_tokens == token_estimate_of(prompt@)
                &&& c.usage.completion_tokens == token_estimate_of(content)
                &&& c.usage.total_tokens as int == if c.usage.prompt_tokens
                    + c.usage.completion_tokens <= u32::MAX {
                    c.usage.prompt_tokens + c.usage.completion_tokens
                } else {
                    u32::MAX as int
                }
                &&& exists|refs: Seq<FileReference>|
                    {
                        &&& refs.len() == context_locations(seq![*response]).len()
                        &&& forall|q: int|
                            0 <= q < refs.len() ==> reference_describes(
                                #[trigger] refs[q],
                                seq![*response],
                                context_locations(seq![*response])[q],
                            )
                        &&& c.metadata@ == completion_metadata_json(
                            document@,
                            response_images(*response),
                            refs,
                        )
                    }
            },
            Err(e) => {
                &&& e.status == 500
                &&& e.error_type@ == "server_error"@
                &&& e.message@ == no_answer_text_message()
            },
        },
{
    let has_non_text_parts = response.has_non_text_parts();
    let text = match response.text() {
        Some(t) => t,
        None => {
            if has_non_text_parts {
                String::new()
            } else {
                return Err(ApiError::server_error(copy_str("Gemini response did not include answer text")));
            }
        },
    };
    let single = core::slice::from_ref(response);
    let content = with_markdown_citations(text, single);
    let completion_tokens = token_estimate(content.as_str());
    let prompt_tokens = token_estimate(prompt);
    let images = gemini_images(response);
    let references = file_references(single);
    let message_metadata = if images.len() > 0 {
        let mut copy: Vec<JsonValue> = Vec::new();
        let mut i: usize = 0;
        while i < images.len()
            invariant
                i <= images@.len(),
                json_seq_view(copy@) == json_seq_view(images@.take(i as int)),
            decreases images@.len() - i,
        {
            let x = images[i].deep_clone();
            proof {
                lemma_json_seq_view_push(copy@, x);
                lemma_json_seq_view_push(images@.take(i as int), images@[i as int]);
                assert(images@.take(i as int).push(images@[i as int]) =~= images@.take(i + 1));
            }
            copy.push(x);
            i = i + 1;
        }
        assert(images@.take(images@.len() as int) =~= images@);
        let mut es: Vec<(String, JsonValue)> = Vec::new();
        push_entry(&mut es, "images", JsonValue::Array(copy));
        let ghost ev = json_entries_view(es@);
        assert(ev =~= seq![("images"@, Json::Array(response_images(*response)))]);
        let m = JsonValue::Object(es);
        assert(m@ == Json::Object(ev));
        Some(m)
    } else {
        None
    };
    let refs_json = references_json(&references);
    let mut meta: Vec<(String, JsonValue)> = Vec::new();
    push_entry(&mut meta, "gemini", gemini_metadata_value(document));
    push_entry(&mut meta, "images", JsonValue::Array(images));
    push_entry(&mut meta, "references", refs_json);
    let ghost mv = json_entries_view(meta@);
    assert(mv =~= seq![
        ("gemini"@, snake_json(document@)),
        ("images"@, Json::Array(response_images(*response))),
        ("references"@, Json::Array(references@.map_values(|f: FileReference| file_reference_json(f)))),
    ]);
    let metadata = JsonValue::Object(meta);
    assert(metadata@ == completion_metadata_json(document@, response_images(*response), references@));
    let id = concat2("chatcmpl-", decimal_string(id_millis).as_str());
    let total_tokens = prompt_tokens.saturating_add(completion_tokens);
    let mut choices: Vec<Choice> = Vec::new();
    choices.push(
        Choice {
            index: 0,
            message: AssistantMessage {
                role: copy_str("assistant"),
                content,
                metadata: message_metadata,
            },
            finish_reason: copy_str("stop"),
        },
    );
    Ok(ChatCompletionResponse {
        id,
        object: copy_str("chat.completion"),
        created,
        model,
        choices,
        usage: Usage { prompt_tokens, completion_tokens, total_tokens },
        metadata,
    })
}

} // verus!

verus! {

pub open spec fn assistant_message_json(m: AssistantMessage) -> Json {
    Json::Object(
        seq![("role"@, Json::Str(m.role@)), ("content"@, Json::Str(m.content@))] + match m.metadata {
            Some(x) => seq![("metadata"@, x@)],
            None => Seq::empty(),
        },
    )
}

pub open spec fn choice_json(c: Choice) -> Json {
    Json::Object(
        seq![
            ("index"@, nat_json(c.index as nat)),
            ("message"@, assistant_message_json(c.message)),
            ("finish_reason"@, Json::Str(c.finish_reason@)),
        ],
    )
}

pub open spec fn usage_json(u: Usage) -> Json {
    Json::Object(
        seq![
            ("prompt_tokens"@, nat_json(u.prompt_tokens as nat)),
            ("completion_tokens"@, nat_json(u.completion_tokens as nat)),
            ("total_tokens"@, nat_json(u.total_tokens as nat)),
        ],
    )
}

/// The JSON document of a chat completion.
pub open spec fn completion_json(c: ChatCompletionResponse) -> Json {
    Json::Object(
        seq![
            ("id"@, Json::Str(c.id@)),
            ("object"@, Json::Str(c.object@)),
            ("created"@, nat_json(c.created as nat)),
            ("model"@, Json::Str(c.model@)),
            ("choices"@, Json::Array(c.choices@.map_values(|x: Choice| choice_json(x)))),
            ("usage"@, usage_json(c.usage)),
            ("metadata"@, c.metadata@),
        ],
    )
}

impl AssistantMessage {
    pub fn to_json(&self) -> (r: JsonValue)
        ensures
            r@ == assistant_message_json(*self),
    {
        let mut es: Vec<(String, JsonValue)> = Vec::new();
        push_entry(&mut es, "role", JsonValue::Str(self.role.clone()));
        push_entry(&mut es, "content", JsonValue::Str(self.content.clone()));
        match &self.metadata {
            Some(m) => push_entry(&mut es, "metadata", m.deep_clone()),
            None => {},
        }
        let ghost ev = json_entries_view(es@);
        assert(ev =~= seq![("role"@, Json::Str(self.role@)), ("content"@, Json::Str(self.content@))]
            + match self.metadata {
            Some(x) => seq![("metadata"@, x@)],
            None => Seq::empty(),
        });
        let r = JsonValue::Object(es);
        assert(r@ == Json::Object(ev));
        r
    }
}

impl Choice {
    pub fn to_json(&self) -> (r: JsonValue)
        ensures
            r@ == choice_json(*self),
    {
        let mut es: Vec<(String, JsonValue)> = Vec::new();
        push_entry(&mut es, "index", number_json(self.index as u128));
        push_entry(&mut es, "message", self.message.to_json());
        push_entry(&mut es, "finish_reason", JsonValue::Str(self.finish_reason.clone()));
        let ghost ev = json_entries_view(es@);
        assert(ev =~= seq![
            ("index"@, nat_json(self.index as nat)),
            ("message"@, assistant_message_json(self.message)),
            ("finish_reason"@, Json::Str(self.finish_reason@)),
        ]);
        let r = JsonValue::Object(es);
        assert(r@ == Json::Object(ev));
        r
    }
}

impl Usage {
    pub fn to_json(&self) -> (r: JsonValue)
        ensures
            r@ == usage_json(*self),
    {
        let mut es: Vec<(String, JsonValue)> = Vec::new();
        push_entry(&mut es, "prompt_tokens", number_json(self.prompt_tokens as u128));
        push_entry(&mut es, "completion_tokens", number_json(self.completion_tokens as u128));
        push_entry(&mut es, "total_tokens", number_json(self.total_tokens as u128));
        let ghost ev = json_entries_view(es@);
        assert(ev =~= seq![
            ("prompt_tokens"@, nat_json(self.prompt_tokens as nat)),
            ("completion_tokens"@, nat_json(self.completion_tokens as nat)),
            ("total_tokens"@, nat_json(self.total_tokens as nat)),
        ]);
        let r = JsonValue::Object(es);
        assert(r@ == Json::Object(ev));
        r
    }
}

impl ChatCompletionResponse {
    /// The JSON document of the completion.
    pub fn to_json(&self) -> (r: JsonValue)
        ensures
            r@ == completion_json(*self),
    {
        let mut choices: Vec<JsonValue> = Vec::new();
        let mut i: usize = 0;
        while i < self.choices.len()
            invariant
                i <= self.choices@.len(),
                json_seq_view(choices@) == self.choices@.take(i as int).map_values(
                    |x: Choice| choice_json(x),
                ),
            decreases self.choices@.len() - i,
        {
            let x = self.choices[i].to_json();
            proof {
                lemma_json_seq_view_push(choices@, x);
                assert(self.choices@.take(i + 1).map_values(|x: Choice| choice_json(x))
                    =~= self.choices@.take(i as int).map_values(|x: Choice| choice_json(x)).push(
                    choice_json(self.choices@[i as int]),
                ));
            }
            choices.push(x);
            i = i + 1;
        }
        assert(self.choices@.take(self.choices@.len() as int) =~= self.choices@);
        let mut es: Vec<(String, JsonValue)> = Vec::new();
        push_entry(&mut es, "id", JsonValue::Str(self.id.clone()));
        push_entry(&mut es, "object", JsonValue::Str(self.object.clone()));
        push_entry(&mut es, "created", number_json(self.created as u128));
        push_entry(&mut es, "model", JsonValue::Str(self.model.clone()));
        push_entry(&mut es, "choices", JsonValue::Array(choices));
        push_entry(&mut es, "usage", self.usage.to_json());
        push_entry(&mut es, "metadata", self.metadata.deep_clone());
        let ghost ev = json_entries_view(es@);
        assert(ev =~= seq![
            ("id"@, Json::Str(self.id@)),
            ("object"@, Json::Str(self.object@)),
            ("created"@, nat_json(self.created as nat)),
            ("model"@, Json::Str(self.model@)),
            ("choices"@, Json::Array(self.choices@.map_values(|x: Choice| choice_json(x)))),
            ("usage"@, usage_json(self.usage)),
            ("metadata"@, self.metadata@),
        ]);
        let r = JsonValue::Object(es);
        assert(r@ == Json::Object(ev));
        r
    }
}

// ---------------------------------------------------------------------------
// Models
// ---------------------------------------------------------------------------

/// The OpenAI model object of a Gemini model.
pub open spec fn model_object_json(m: Model, created: u64) -> Json {
    Json::Object(
        seq![
            ("id"@, Json::Str(bare_model_name(m.name@))),
            ("object"@, Json::Str("model"@)),
            ("created"@, nat_json(created as nat)),
            ("owned_by"@, Json::Str("google"@)),
        ],
    )
}

/// The model objects of the models that support `generateContent`, in order.
pub open spec fn model_objects(ms: Seq<Model>, created: u64) -> Seq<Json>
    decreases ms.len(),
{
    if ms.len() == 0 {
        Seq::empty()
    } else {
        model_objects(ms.drop_last(), created) + if model_supports_generate_content(ms.last()) {
            seq![model_object_json(ms.last(), created)]
        } else {
            Seq::empty()
        }
    }
}

/// The OpenAI model list of the Gemini models that support content generation.
pub fn model_list_json(models: &Vec<Model>, created: u64) -> (r: JsonValue)
    ensures
        r@ == Json::Object(
            seq![("object"@, Json::Str("list"@)), ("data"@, Json::Array(model_objects(models@, created)))],
        ),
{
    let mut data: Vec<JsonValue> = Vec::new();
    let mut i: usize = 0;
    while i < models.len()
        invariant
            i <= models@.len(),
            json_seq_view(data@) == model_objects(models@.take(i as int), created),
        decreases models@.len() - i,
    {
        let m = &models[i];
        proof {
            assert(models@.take(i + 1).drop_last() =~= models@.take(i as int));
        }
        if m.supports_generate_content() {
            let mut es: Vec<(String, JsonValue)> = Vec::new();
            push_entry(&mut es, "id", JsonValue::Str(strip_model_prefix(m.name.as_str())));
            push_entry(&mut es, "object", JsonValue::Str(copy_str("model")));
            push_entry(&mut es, "created", number_json(created as u128));
            push_entry(&mut es, "owned_by", JsonValue::Str(copy_str("google")));
            let ghost ev = json_entries_view(es@);
            assert(ev =~= seq![
                ("id"@, Json::Str(bare_model_name(m.name@))),
                ("object"@, Json::Str("model"@)),
                ("created"@, nat_json(created as nat)),
                ("owned_by"@, Json::Str("google"@)),
            ]);
            let x = JsonValue::Object(es);
            assert(x@ == Json::Object(ev));
            proof {
                lemma_json_seq_view_push(data@, x);
            }
            data.push(x);
        }
        assert(json_seq_view(data@) =~= model_objects(models@.take(i + 1), created));
        i = i + 1;
    }
    assert(models@.take(models@.len() as int) =~= models@);
    let mut es: Vec<(String, JsonValue)> = Vec::new();
    push_entry(&mut es, "object", JsonValue::Str(copy_str("list")));
    push_entry(&mut es, "data", JsonValue::Array(data));
    let ghost ev = json_entries_view(es@);
    assert(ev =~= seq![("object"@, Json::Str("list"@)), ("data"@, Json::Array(model_objects(models@, created)))]);
    let r = JsonValue::Object(es);
    assert(r@ == Json::Object(ev));
    r
}

/// The health check document.
pub fn healthz() -> (r: JsonValue)
    ensures
        r@ == Json::Object(seq![("status"@, Json::Str("ok"@))]),
{
    let mut es: Vec<(String, JsonValue)> = Vec::new();
    push_entry(&mut es, "status", JsonValue::Str(copy_str("ok")));
    let ghost ev = json_entries_view(es@);
    assert(ev =~= seq![("status"@, Json::Str("ok"@))]);
    let r = JsonValue::Object(es);
    assert(r@ == Json::Object(ev));
    r
}

} // verus!
