//! The Gemini client: the requests it sends, and what it makes of the answers.
//!
//! The requests are plain values (method, URL, query, headers, JSON body); whoever holds
//! the HTTP connection sends them and hands the answers back.
use vstd::prelude::*;
use base64::Engine;
use crate::gemini::types::{response_text, ApiStatus, GenerateContentResponse, Operation};
use crate::json::{
    json_as_str, json_entries_view, json_get, json_seq_view, lemma_json_seq_view_push, push_entry, string_array,
    Json, JsonValue,
};
use crate::server::completion::views;
use crate::text::{
    concat2, copy_str, decimal, decimal_string, signed_decimal, signed_decimal_string, trim,
    trim_end_char, trim_end_char_str, trim_str, is_blank_str,
};
use crate::paths::{extension, file_name, path_file_name};
use crate::util::{bare_model_name, strip_model_prefix};

verus! {

// ---------------------------------------------------------------------------
// Errors
// ---------------------------------------------------------------------------

/// What can go wrong between the client and the Gemini API.
pub enum GeminiError {
    /// No API key was given.
    MissingApiKey,
    /// The API answered with an error status (`status` as `"404 Not Found"`).
    Api { status: String, message: String },
    /// A long-running operation ended with an error.
    OperationFailed { name: String, detail: String },
    /// The upload start answer had no upload URL.
    MissingUploadUrl,
    /// The OCR answer had no text.
    NoOcrText,
    /// The finalize request of an upload could not be sent on the last attempt.
    FinalizeNotSent { reason: String },
}

/// The message of an error.
pub open spec fn gemini_error_message(e: GeminiError) -> Seq<char> {
    match e {
        GeminiError::MissingApiKey => "GEMINI_API_KEY or --api-key is required"@,
        GeminiError::Api { status, message } => "Gemini API returned "@ + status@ + ": "@
            + message@,
        GeminiError::OperationFailed { name, detail } => "operation "@ + name@ + " failed: "@
            + detail@,
        GeminiError::MissingUploadUrl => "Gemini upload start response did not include x-goog-upload-url"@,
        GeminiError::NoOcrText => "Gemini OCR response did not include text"@,
        GeminiError::FinalizeNotSent { reason } => "failed to send finalize upload request: "@
            + reason@,
    }
}

impl GeminiError {
    /// The message of the error.
    pub fn message(&self) -> (r: String)
        ensures
            r@ == gemini_error_message(*self),
    {
        match self {
            GeminiError::MissingApiKey => copy_str("GEMINI_API_KEY or --api-key is required"),
            GeminiError::Api { status, message } => {
                let a = concat2("Gemini API returned ", status.as_str());
                let b = concat2(a.as_str(), ": ");
                concat2(b.as_str(), message.as_str())
            },
            GeminiError::OperationFailed { name, detail } => {
                let a = concat2("operation ", name.as_str());
                let b = concat2(a.as_str(), " failed: ");
                concat2(b.as_str(), detail.as_str())
            },
            GeminiError::MissingUploadUrl => copy_str(
                "Gemini upload start response did not include x-goog-upload-url",
            ),
            GeminiError::NoOcrText => copy_str("Gemini OCR response did not include text"),
            GeminiError::FinalizeNotSent { reason } => concat2(
                "failed to send finalize upload request: ",
                reason.as_str(),
            ),
        }
    }
}

// ---------------------------------------------------------------------------
// Requests
// ---------------------------------------------------------------------------

#[derive(PartialEq, Eq, Structural, Clone, Copy)]
pub enum HttpMethod {
    Get,
    Post,
    Delete,
}

/// A request to the Gemini API.
pub struct ApiRequest {
    pub method: HttpMethod,
    pub url: String,
    /// Query parameters, in order.
    pub query: Vec<(String, String)>,
    /// Headers besides the content type of a JSON body, in order.
    pub headers: Vec<(String, String)>,
    /// The JSON body, if any.
    pub body: Option<JsonValue>,
}

/// Name/value pairs as character sequences.
pub open spec fn pairs_view(ps: Seq<(String, String)>) -> Seq<(Seq<char>, Seq<char>)> {
    ps.map_values(|p: (String, String)| (p.0@, p.1@))
}

/// The JSON body of a request, as a model.
pub open spec fn body_view(b: Option<JsonValue>) -> Option<Json> {
    match b {
        Some(j) => Some(j@),
        None => None,
    }
}

/// A client of the Gemini API: its key and the base URL of the API.
pub struct GeminiClient {
    pub api_key: String,
    pub base_url: String,
}

/// The query that carries the API key.
pub open spec fn key_query(c: GeminiClient) -> Seq<(Seq<char>, Seq<char>)> {
    seq![("key"@, c.api_key@)]
}

fn pair(a: &str, b: &str) -> (r: (String, String))
    ensures
        r.0@ == a@,
        r.1@ == b@,
{
    (copy_str(a), copy_str(b))
}

impl GeminiClient {
    /// A client with the given key, trimmed, and the base URL without trailing slashes.
    /// Fails when the key is missing or blank.
    pub fn new(api_key: Option<String>, base_url: String) -> (r: Result<GeminiClient, GeminiError>)
        ensures
            r is Err <==> match api_key {
                Some(k) => trim(k@).len() == 0,
                None => true,
            },
            match r {
                Ok(c) => {
                    &&& c.api_key@ == trim(api_key->0@)
                    &&& c.base_url@ == trim_end_char(base_url@, '/')
                },
                Err(e) => e is MissingApiKey,
            },
    {
        let key = match api_key {
            Some(k) => k,
            None => String::new(),
        };
        if is_blank_str(key.as_str()) {
            return Err(GeminiError::MissingApiKey);
        }
        Ok(GeminiClient {
            api_key: trim_str(key.as_str()),
            base_url: trim_end_char_str(base_url.as_str(), '/'),
        })
    }

    /// The URL of an API path.
    pub fn url(&self, path: &str) -> (r: String)
        ensures
            r@ == self.base_url@ + path@,
    {
        concat2(self.base_url.as_str(), path)
    }

    fn key_query(&self) -> (r: Vec<(String, String)>)
        ensures
            pairs_view(r@) == key_query(*self),
    {
        let mut q: Vec<(String, String)> = Vec::new();
        q.push((copy_str("key"), self.api_key.clone()));
        assert(pairs_view(q@) =~= key_query(*self));
        q
    }

    /// `GET` of an API path with the key.
    fn get_request(&self, path: &str) -> (r: ApiRequest)
        ensures
            r.method == HttpMethod::Get,
            r.url@ == self.base_url@ + path@,
            pairs_view(r.query@) == key_query(*self),
            r.headers@.len() == 0,
            r.body is None,
    {
        ApiRequest {
            method: HttpMethod::Get,
            url: self.url(path),
            query: self.key_query(),
            headers: Vec::new(),
            body: None,
        }
    }

    /// Creates a File Search store with a display name and, if given, an embedding model.
    pub fn create_store_request(&self, display_name: &str, embedding_model: Option<&str>) -> (r:
        ApiRequest)
        ensures
            r.method == HttpMethod::Post,
            r.url@ == self.base_url@ + "/v1beta/fileSearchStores"@,
            pairs_view(r.query@) == key_query(*self),
            r.headers@.len() == 0,
            body_view(r.body) == Some(
                Json::Object(
                    seq![("displayName"@, Json::Str(display_name@))] + match embedding_model {
                        Some(m) => seq![("embeddingModel"@, Json::Str(m@))],
                        None => Seq::empty(),
                    },
                ),
            ),
    {
        let mut body: Vec<(String, JsonValue)> = Vec::new();
        push_entry(&mut body, "displayName", JsonValue::Str(copy_str(display_name)));
        if let Some(m) = embedding_model {
            push_entry(&mut body, "embeddingModel", JsonValue::Str(copy_str(m)));
        }
        let ghost bv = json_entries_view(body@);
        assert(bv =~= seq![("displayName"@, Json::Str(display_name@))] + match embedding_model {
            Some(m) => seq![("embeddingModel"@, Json::Str(m@))],
            None => Seq::<(Seq<char>, Json)>::empty(),
        });
        let b = JsonValue::Object(body);
        assert(b@ == Json::Object(bv));
        ApiRequest {
            method: HttpMethod::Post,
            url: self.url("/v1beta/fileSearchStores"),
            query: self.key_query(),
            headers: Vec::new(),
            body: Some(b),
        }
    }

    /// Lists the File Search stores.
    pub fn list_stores_request(&self) -> (r: ApiRequest)
        ensures
            r.method == HttpMethod::Get,
            r.url@ == self.base_url@ + "/v1beta/fileSearchStores"@,
            pairs_view(r.query@) == key_query(*self),
            r.headers@.len() == 0,
            r.body is None,
    {
        self.get_request("/v1beta/fileSearchStores")
    }

    /// Reads one File Search store (`store` as `fileSearchStores/...`).
    pub fn get_store_request(&self, store: &str) -> (r: ApiRequest)
        ensures
            r.method == HttpMethod::Get,
            r.url@ == self.base_url@ + "/v1beta/"@ + store@,
            pairs_view(r.query@) == key_query(*self),
            r.headers@.len() == 0,
            r.body is None,
    {
        let path = concat2("/v1beta/", store);
        self.get_request(path.as_str())
    }

    /// Lists the models.
    pub fn list_models_request(&self) -> (r: ApiRequest)
        ensures
            r.method == HttpMethod::Get,
            r.url@ == self.base_url@ + "/v1beta/models"@,
            pairs_view(r.query@) == key_query(*self),
            r.headers@.len() == 0,
            r.body is None,
    {
        self.get_request("/v1beta/models")
    }

    /// Reads a long-running operation.
    pub fn get_operation_request(&self, operation_name: &str) -> (r: ApiRequest)
        ensures
            r.method == HttpMethod::Get,
            r.url@ == self.base_url@ + "/v1beta/"@ + operation_name@,
            pairs_view(r.query@) == key_query(*self),
            r.headers@.len() == 0,
            r.body is None,
    {
        let path = concat2("/v1beta/", operation_name);
        self.get_request(path.as_str())
    }

    /// Deletes a File Search store; with `force`, its documents too.
    pub fn delete_store_request(&self, store: &str, force: bool) -> (r: ApiRequest)
        ensures
            r.method == HttpMethod::Delete,
            r.url@ == self.base_url@ + "/v1beta/"@ + store@,
            pairs_view(r.query@) == key_query(*self).push(
                ("force"@, if force {
                    "true"@
                } else {
                    "false"@
                }),
            ),
            r.headers@.len() == 0,
            r.body is None,
    {
        let path = concat2("/v1beta/", store);
        let mut query = self.key_query();
        let ghost before = pairs_view(query@);
        let flag = if force {
            copy_str("true")
        } else {
            copy_str("false")
        };
        query.push((copy_str("force"), flag));
        assert(pairs_view(query@) =~= before.push(("force"@, flag@)));
        ApiRequest {
            method: HttpMethod::Delete,
            url: self.url(path.as_str()),
            query,
            headers: Vec::new(),
            body: None,
        }
    }
}

// ---------------------------------------------------------------------------
// Content generation
// ---------------------------------------------------------------------------

/// `[{"text": text}]`: the parts of a text-only message.
pub open spec fn text_parts_json(text: Seq<char>) -> Json {
    Json::Array(seq![Json::Object(seq![("text"@, Json::Str(text))])])
}

/// The body of a `generateContent` request: one user turn with the prompt, the system
/// instruction when given, the response modalities when any, and File Search over the
/// store when given.
pub open spec fn generate_body_json(
    prompt: Seq<char>,
    system_prompt: Option<Seq<char>>,
    response_modalities: Seq<Seq<char>>,
    store: Option<Seq<char>>,
) -> Json {
    Json::Object(
        seq![
            ("contents"@, Json::Array(
                seq![
                    Json::Object(
                        seq![("role"@, Json::Str("user"@)), ("parts"@, text_parts_json(prompt))],
                    ),
                ],
            )),
        ] + match system_prompt {
            Some(sp) => seq![("systemInstruction"@, Json::Object(seq![("parts"@, text_parts_json(sp))]))],
            None => Seq::empty(),
        } + if response_modalities.len() > 0 {
            seq![
                ("generationConfig"@, Json::Object(
                    seq![
                        ("responseModalities"@, Json::Array(
                            response_modalities.map_values(|m: Seq<char>| Json::Str(m)),
                        )),
                    ],
                )),
            ]
        } else {
            Seq::empty()
        } + match store {
            Some(st) => seq![
                ("tools"@, Json::Array(
                    seq![
                        Json::Object(
                            seq![
                                ("fileSearch"@, Json::Object(
                                    seq![("fileSearchStoreNames"@, Json::Array(seq![Json::Str(st)]))],
                                )),
                            ],
                        ),
                    ],
                )),
            ],
            None => Seq::empty(),
        },
    )
}

fn text_parts(text: &str) -> (r: JsonValue)
    ensures
        r@ == text_parts_json(text@),
{
    let mut part: Vec<(String, JsonValue)> = Vec::new();
    push_entry(&mut part, "text", JsonValue::Str(copy_str(text)));
    let ghost pv = json_entries_view(part@);
    assert(pv =~= seq![("text"@, Json::Str(text@))]);
    let p = JsonValue::Object(part);
    assert(p@ == Json::Object(pv));
    let mut parts: Vec<JsonValue> = Vec::new();
    proof {
        lemma_json_seq_view_push(parts@, p);
    }
    parts.push(p);
    assert(json_seq_view(parts@) =~= seq![Json::Object(pv)]);
    JsonValue::Array(parts)
}

/// A one-element JSON array.
fn single_array(x: JsonValue) -> (r: JsonValue)
    ensures
        r@ == Json::Array(seq![x@]),
{
    let mut v: Vec<JsonValue> = Vec::new();
    proof {
        lemma_json_seq_view_push(v@, x);
    }
    v.push(x);
    assert(json_seq_view(v@) =~= seq![x@]);
    JsonValue::Array(v)
}

/// A one-entry JSON object.
fn single_object(key: &str, x: JsonValue) -> (r: JsonValue)
    ensures
        r@ == Json::Object(seq![(key@, x@)]),
{
    let mut es: Vec<(String, JsonValue)> = Vec::new();
    push_entry(&mut es, key, x);
    let ghost ev = json_entries_view(es@);
    assert(ev =~= seq![(key@, x@)]);
    let r = JsonValue::Object(es);
    assert(r@ == Json::Object(ev));
    r
}

fn generate_body(
    prompt: &str,
    system_prompt: Option<&str>,
    response_modalities: &Vec<String>,
    store: Option<&str>,
) -> (r: JsonValue)
    ensures
        r@ == generate_body_json(
            prompt@,
            match system_prompt {
                Some(sp) => Some(sp@),
                None => None,
            },
            views(response_modalities@),
            match store {
                Some(st) => Some(st@),
                None => None,
            },
        ),
{
    let mut turn: Vec<(String, JsonValue)> = Vec::new();
    push_entry(&mut turn, "role", JsonValue::Str(copy_str("user")));
    push_entry(&mut turn, "parts", text_parts(prompt));
    let ghost tv = json_entries_view(turn@);
    assert(tv =~= seq![("role"@, Json::Str("user"@)), ("parts"@, text_parts_json(prompt@))]);
    let turn_value = JsonValue::Object(turn);
    assert(turn_value@ == Json::Object(tv));
    let mut body: Vec<(String, JsonValue)> = Vec::new();
    push_entry(&mut body, "contents", single_array(turn_value));
    let ghost b0 = json_entries_view(body@);
    let ghost spv = match system_prompt {
        Some(sp) => Some(sp@),
        None => None,
    };
    if let Some(sp) = system_prompt {
        push_entry(&mut body, "systemInstruction", single_object("parts", text_parts(sp)));
    }
    let ghost b1 = json_entries_view(body@);
    assert(b1 =~= b0 + match spv {
        Some(sp) => seq![("systemInstruction"@, Json::Object(seq![("parts"@, text_parts_json(sp))]))],
        None => Seq::<(Seq<char>, Json)>::empty(),
    });
    let ghost mv = views(response_modalities@);
    if response_modalities.len() > 0 {
        let arr = string_array(response_modalities);
        assert(response_modalities@.map_values(|v: String| Json::Str(v@)) =~= mv.map_values(
            |m: Seq<char>| Json::Str(m),
        ));
        push_entry(&mut body, "generationConfig", single_object("responseModalities", arr));
    }
    let ghost b2 = json_entries_view(body@);
    assert(b2 =~= b1 + if mv.len() > 0 {
        seq![
            ("generationConfig"@, Json::Object(
                seq![("responseModalities"@, Json::Array(mv.map_values(|m: Seq<char>| Json::Str(m))))],
            )),
        ]
    } else {
        Seq::<(Seq<char>, Json)>::empty()
    });
    let ghost stv = match store {
        Some(st) => Some(st@),
        None => None,
    };
    if let Some(st) = store {
        let names = single_array(JsonValue::Str(copy_str(st)));
        let search = single_object("fileSearchStoreNames", names);
        let tool = single_object("fileSearch", search);
        push_entry(&mut body, "tools", single_array(tool));
    }
    let ghost b3 = json_entries_view(body@);
    assert(b3 =~= b2 + match stv {
        Some(st) => seq![
            ("tools"@, Json::Array(
                seq![
                    Json::Object(
                        seq![
                            ("fileSearch"@, Json::Object(
                                seq![("fileSearchStoreNames"@, Json::Array(seq![Json::Str(st)]))],
                            )),
                        ],
                    ),
                ],
            )),
        ],
        None => Seq::<(Seq<char>, Json)>::empty(),
    });
    let r = JsonValue::Object(body);
    assert(r@ == Json::Object(b3));
    assert(b0 =~= seq![("contents"@, Json::Array(seq![Json::Object(tv)]))]);
    r
}

impl GeminiClient {
    /// Asks a model (named with or without `models/`) for content: `generateContent`, or
    /// `streamGenerateContent` as server-sent events when `stream` is set.
    pub fn generate_content_request(
        &self,
        model: &str,
        store: Option<&str>,
        prompt: &str,
        system_prompt: Option<&str>,
        response_modalities: &Vec<String>,
        stream: bool,
    ) -> (r: ApiRequest)
        ensures
            r.method == HttpMethod::Post,
            r.url@ == self.base_url@ + "/v1beta/models/"@ + bare_model_name(model@) + if stream {
                ":streamGenerateContent"@
            } else {
                ":generateContent"@
            },
            pairs_view(r.query@) == if stream {
                key_query(*self).push(("alt"@, "sse"@))
            } else {
                key_query(*self)
            },
            r.headers@.len() == 0,
            body_view(r.body) == Some(
                generate_body_json(
                    prompt@,
                    match system_prompt {
                        Some(sp) => Some(sp@),
                        None => None,
                    },
                    views(response_modalities@),
                    match store {
                        Some(st) => Some(st@),
                        None => None,
                    },
                ),
            ),
    {
        let bare = strip_model_prefix(model);
        let a = concat2("/v1beta/models/", bare.as_str());
        let path = if stream {
            concat2(a.as_str(), ":streamGenerateContent")
        } else {
            concat2(a.as_str(), ":generateContent")
        };
        let mut query = self.key_query();
        if stream {
            let ghost before = pairs_view(query@);
            query.push(pair("alt", "sse"));
            assert(pairs_view(query@) =~= before.push(("alt"@, "sse"@)));
        }
        ApiRequest {
            method: HttpMethod::Post,
            url: self.url(path.as_str()),
            query,
            headers: Vec::new(),
            body: Some(generate_body(prompt, system_prompt, response_modalities, store)),
        }
    }
}

// ---------------------------------------------------------------------------
// Images and uploads
// ---------------------------------------------------------------------------

/// The MIME type that `mime_guess` gives a file extension.
pub uninterp spec fn mime_for_extension(ext: Seq<char>) -> Seq<char>;

/// The standard base64 text (with padding) of some bytes.
pub uninterp spec fn base64_standard(bytes: Seq<u8>) -> Seq<char>;

/// `mime_guess::from_path(path).first_or_octet_stream()`, as text: the guess for the
/// path's extension, or `application/octet-stream` for a path without one.
#[verifier::external_body]
fn guess_mime_type(path: &str) -> (r: String)
    ensures
        match extension(path@) {
            Some(e) => r@ == mime_for_extension(e),
            None => r@ == "application/octet-stream"@,
        },
{
    mime_guess::from_path(path).first_or_octet_stream().essence_str().to_string()
}

/// `base64::engine::general_purpose::STANDARD.encode`: the bytes in standard base64. It
/// panics when the length of the text would overflow `usize`, which `requires` rules out.
#[verifier::external_body]
fn encode_base64(bytes: &[u8]) -> (r: String)
    requires
        (bytes@.len() + 2) / 3 * 4 <= usize::MAX,
    ensures
        r@ == base64_standard(bytes@),
{
    base64::engine::general_purpose::STANDARD.encode(bytes)
}

/// The MIME type of a file, guessed from its extension.
pub open spec fn path_mime_type(path: Seq<char>) -> Seq<char> {
    match extension(path) {
        Some(e) => mime_for_extension(e),
        None => "application/octet-stream"@,
    }
}

/// The body of a text-extraction request: the prompt, then the image inline.
pub open spec fn ocr_body_json(prompt: Seq<char>, mime_type: Seq<char>, data: Seq<char>) -> Json {
    Json::Object(
        seq![
            ("contents"@, Json::Array(
                seq![
                    Json::Object(
                        seq![
                            ("role"@, Json::Str("user"@)),
                            ("parts"@, Json::Array(
                                seq![
                                    Json::Object(seq![("text"@, Json::Str(prompt))]),
                                    Json::Object(
                                        seq![
                                            ("inlineData"@, Json::Object(
                                                seq![
                                                    ("mimeType"@, Json::Str(mime_type)),
                                                    ("data"@, Json::Str(data)),
                                                ],
                                            )),
                                        ],
                                    ),
                                ],
                            )),
                        ],
                    ),
                ],
            )),
        ],
    )
}

/// What is sent about a file uploaded into a store.
pub struct UploadDocument {
    pub mime_type: String,
    pub display_name: String,
    pub source_path: String,
    /// The upload metadata: display name, MIME type and the source path as custom metadata.
    pub metadata: JsonValue,
}

pub open spec fn upload_metadata_json(
    display_name: Seq<char>,
    mime_type: Seq<char>,
    source_path: Seq<char>,
) -> Json {
    Json::Object(
        seq![
            ("displayName"@, Json::Str(display_name)),
            ("mimeType"@, Json::Str(mime_type)),
            ("customMetadata"@, Json::Array(
                seq![
                    Json::Object(
                        seq![("key"@, Json::Str("source_path"@)), ("stringValue"@, Json::Str(source_path))],
                    ),
                ],
            )),
        ],
    )
}

/// Describes the file at `path` for an upload: its guessed MIME type, its file name (or
/// `document`) as display name, and its path as the `source_path` custom metadata.
pub fn upload_document(path: &str) -> (r: UploadDocument)
    ensures
        r.mime_type@ == path_mime_type(path@),
        r.display_name@ == match file_name(path@) {
            Some(n) => n,
            None => "document"@,
        },
        r.source_path@ == path@,
        r.metadata@ == upload_metadata_json(r.display_name@, r.mime_type@, path@),
{
    let mime_type = guess_mime_type(path);
    let display_name = match path_file_name(path) {
        Some(n) => n,
        None => copy_str("document"),
    };
    let mut entry: Vec<(String, JsonValue)> = Vec::new();
    push_entry(&mut entry, "key", JsonValue::Str(copy_str("source_path")));
    push_entry(&mut entry, "stringValue", JsonValue::Str(copy_str(path)));
    let ghost ev = json_entries_view(entry@);
    assert(ev =~= seq![("key"@, Json::Str("source_path"@)), ("stringValue"@, Json::Str(path@))]);
    let entry_value = JsonValue::Object(entry);
    assert(entry_value@ == Json::Object(ev));
    let mut meta: Vec<(String, JsonValue)> = Vec::new();
    push_entry(&mut meta, "displayName", JsonValue::Str(display_name.clone()));
    push_entry(&mut meta, "mimeType", JsonValue::Str(mime_type.clone()));
    push_entry(&mut meta, "customMetadata", single_array(entry_value));
    let ghost mv = json_entries_view(meta@);
    assert(mv =~= seq![
        ("displayName"@, Json::Str(display_name@)),
        ("mimeType"@, Json::Str(mime_type@)),
        ("customMetadata"@, Json::Array(seq![Json::Object(ev)])),
    ]);
    let metadata = JsonValue::Object(meta);
    assert(metadata@ == Json::Object(mv));
    UploadDocument { mime_type, display_name, source_path: copy_str(path), metadata }
}

impl GeminiClient {
    /// Asks a model for the text of an image, sent inline with its guessed MIME type.
    pub fn ocr_request(&self, model: &str, image_path: &str, image_bytes: &[u8], prompt: &str) -> (r:
        ApiRequest)
        requires
            (image_bytes@.len() + 2) / 3 * 4 <= usize::MAX,
        ensures
            r.method == HttpMethod::Post,
            r.url@ == self.base_url@ + "/v1beta/models/"@ + bare_model_name(model@)
                + ":generateContent"@,
            pairs_view(r.query@) == key_query(*self),
            r.headers@.len() == 0,
            body_view(r.body) == Some(
                ocr_body_json(prompt@, path_mime_type(image_path@), base64_standard(image_bytes@)),
            ),
    {
        let mime_type = guess_mime_type(image_path);
        let data = encode_base64(image_bytes);
        let bare = strip_model_prefix(model);
        let a = concat2("/v1beta/models/", bare.as_str());
        let path = concat2(a.as_str(), ":generateContent");
        let mut inline: Vec<(String, JsonValue)> = Vec::new();
        push_entry(&mut inline, "mimeType", JsonValue::Str(mime_type));
        push_entry(&mut inline, "data", JsonValue::Str(data));
        let ghost iv = json_entries_view(inline@);
        assert(iv =~= seq![
            ("mimeType"@, Json::Str(path_mime_type(image_path@))),
            ("data"@, Json::Str(base64_standard(image_bytes@))),
        ]);
        let inline_value = JsonValue::Object(inline);
        assert(inline_value@ == Json::Object(iv));
        let image_part = single_object("inlineData", inline_value);
        let text_part = single_object("text", JsonValue::Str(copy_str(prompt)));
        let mut parts: Vec<JsonValue> = Vec::new();
        proof {
            lemma_json_seq_view_push(parts@, text_part);
        }
        parts.push(text_part);
        proof {
            lemma_json_seq_view_push(parts@, image_part);
        }
        parts.push(image_part);
        let ghost pv = json_seq_view(parts@);
        assert(pv =~= seq![
            Json::Object(seq![("text"@, Json::Str(prompt@))]),
            Json::Object(seq![("inlineData"@, Json::Object(iv))]),
        ]);
        let mut turn: Vec<(String, JsonValue)> = Vec::new();
        push_entry(&mut turn, "role", JsonValue::Str(copy_str("user")));
        push_entry(&mut turn, "parts", JsonValue::Array(parts));
        let ghost tv = json_entries_view(turn@);
        assert(tv =~= seq![("role"@, Json::Str("user"@)), ("parts"@, Json::Array(pv))]);
        let turn_value = JsonValue::Object(turn);
        assert(turn_value@ == Json::Object(tv));
        let body = single_object("contents", single_array(turn_value));
        ApiRequest {
            method: HttpMethod::Post,
            url: self.url(path.as_str()),
            query: self.key_query(),
            headers: Vec::new(),
            body: Some(body),
        }
    }

    /// Starts a resumable upload of `byte_len` bytes into a store.
    pub fn start_upload_request(
        &self,
        store: &str,
        byte_len: usize,
        mime_type: &str,
        metadata: JsonValue,
    ) -> (r: ApiRequest)
        ensures
            r.method == HttpMethod::Post,
            r.url@ == self.base_url@ + "/upload/v1beta/"@ + store@ + ":uploadToFileSearchStore"@,
            pairs_view(r.query@) == key_query(*self),
            pairs_view(r.headers@) == seq![
                ("X-Goog-Upload-Protocol"@, "resumable"@),
                ("X-Goog-Upload-Command"@, "start"@),
                ("X-Goog-Upload-Header-Content-Length"@, decimal(byte_len as nat)),
                ("X-Goog-Upload-Header-Content-Type"@, mime_type@),
            ],
            body_view(r.body) == Some(metadata@),
    {
        let a = concat2("/upload/v1beta/", store);
        let path = concat2(a.as_str(), ":uploadToFileSearchStore");
        let mut headers: Vec<(String, String)> = Vec::new();
        headers.push(pair("X-Goog-Upload-Protocol", "resumable"));
        headers.push(pair("X-Goog-Upload-Command", "start"));
        headers.push((copy_str("X-Goog-Upload-Header-Content-Length"), decimal_string(byte_len as u128)));
        headers.push(pair("X-Goog-Upload-Header-Content-Type", mime_type));
        assert(pairs_view(headers@) =~= seq![
            ("X-Goog-Upload-Protocol"@, "resumable"@),
            ("X-Goog-Upload-Command"@, "start"@),
            ("X-Goog-Upload-Header-Content-Length"@, decimal(byte_len as nat)),
            ("X-Goog-Upload-Header-Content-Type"@, mime_type@),
        ]);
        ApiRequest {
            method: HttpMethod::Post,
            url: self.url(path.as_str()),
            query: self.key_query(),
            headers,
            body: Some(metadata),
        }
    }
}

/// Sends the bytes of a resumable upload and finalizes it; the bytes themselves go as the
/// raw body of the request.
pub fn finalize_upload_request(upload_url: &str, byte_len: usize) -> (r: ApiRequest)
    ensures
        r.method == HttpMethod::Post,
        r.url@ == upload_url@,
        r.query@.len() == 0,
        pairs_view(r.headers@) == seq![
            ("content-length"@, decimal(byte_len as nat)),
            ("X-Goog-Upload-Offset"@, "0"@),
            ("X-Goog-Upload-Command"@, "upload, finalize"@),
        ],
        r.body is None,
{
    let mut headers: Vec<(String, String)> = Vec::new();
    headers.push((copy_str("content-length"), decimal_string(byte_len as u128)));
    headers.push(pair("X-Goog-Upload-Offset", "0"));
    headers.push(pair("X-Goog-Upload-Command", "upload, finalize"));
    assert(pairs_view(headers@) =~= seq![
        ("content-length"@, decimal(byte_len as nat)),
        ("X-Goog-Upload-Offset"@, "0"@),
        ("X-Goog-Upload-Command"@, "upload, finalize"@),
    ]);
    ApiRequest {
        method: HttpMethod::Post,
        url: copy_str(upload_url),
        query: Vec::new(),
        headers,
        body: None,
    }
}

// ---------------------------------------------------------------------------
// Answers
// ---------------------------------------------------------------------------

/// The message of an API error document: the text at `/error/message`, else the text at
/// `/message`.
pub open spec fn api_error_detail(doc: Json) -> Option<Seq<char>> {
    let nested = match json_get(doc, "error"@) {
        Some(e) => match json_get(e, "message"@) {
            Some(m) => json_as_str(m),
            None => None,
        },
        None => None,
    };
    match nested {
        Some(m) => Some(m),
        None => match json_get(doc, "message"@) {
            Some(m) => json_as_str(m),
            None => None,
        },
    }
}

/// The message of an error answer: the detail of its JSON document when it has one, else
/// the whole body.
pub open spec fn api_error_text(body: Seq<char>, parsed: Option<Json>) -> Seq<char> {
    match parsed {
        Some(doc) => match api_error_detail(doc) {
            Some(m) => m,
            None => body,
        },
        None => body,
    }
}

fn text_at(doc: &JsonValue, key: &str) -> (r: Option<String>)
    ensures
        match r {
            Some(t) => (json_get(doc@, key@) matches Some(v) && json_as_str(v) == Some(t@)),
            None => match json_get(doc@, key@) {
                Some(v) => json_as_str(v) is None,
                None => true,
            },
        },
{
    match doc.get(key) {
        Some(v) => v.as_str_owned(),
        None => None,
    }
}

/// The error of an answer with status `status` (as `"404 Not Found"`), its body, and the
/// body read as JSON when it is JSON.
pub fn api_error(status: &str, body: &str, parsed: &Option<JsonValue>) -> (r: GeminiError)
    ensures
        r matches GeminiError::Api { status: s, message } && s@ == status@ && message@
            == api_error_text(body@, body_view(*parsed)),
{
    let detail = match parsed {
        Some(doc) => {
            let nested = match doc.get("error") {
                Some(e) => text_at(e, "message"),
                None => None,
            };
            match nested {
                Some(m) => Some(m),
                None => text_at(doc, "message"),
            }
        },
        None => None,
    };
    let message = match detail {
        Some(m) => m,
        None => copy_str(body),
    };
    GeminiError::Api { status: copy_str(status), message }
}

/// Whether an HTTP status is a success (`2xx`).
pub open spec fn is_success_status(status: u16) -> bool {
    200 <= status <= 299
}

/// Checks the status of an answer: a success, or the API error it carries.
pub fn response_status(status: u16, status_text: &str, body: &str, parsed: &Option<JsonValue>) -> (r:
    Result<(), GeminiError>)
    ensures
        r is Ok <==> is_success_status(status),
        r matches Err(GeminiError::Api { status: s, message }) ==> s@ == status_text@ && message@
            == api_error_text(body@, body_view(*parsed)),
        r is Err ==> r->Err_0 is Api,
{
    if 200 <= status && status <= 299 {
        Ok(())
    } else {
        Err(api_error(status_text, body, parsed))
    }
}

/// What the answer to an upload start gives: the upload URL, or the error.
pub fn start_upload_result(
    status: u16,
    status_text: &str,
    body: &str,
    parsed: &Option<JsonValue>,
    upload_url: Option<String>,
) -> (r: Result<String, GeminiError>)
    ensures
        !is_success_status(status) ==> (r matches Err(GeminiError::Api { status: s, message })
            && s@ == status_text@ && message@ == api_error_text(body@, body_view(*parsed))),
        is_success_status(status) ==> match upload_url {
            Some(u) => r == Ok::<String, GeminiError>(u),
            None => r matches Err(GeminiError::MissingUploadUrl),
        },
{
    match response_status(status, status_text, body, parsed) {
        Err(e) => Err(e),
        Ok(()) => match upload_url {
            Some(u) => Ok(u),
            None => Err(GeminiError::MissingUploadUrl),
        },
    }
}

/// The text extracted from an image: the text of the answer, which must have some.
pub fn ocr_text(response: &GenerateContentResponse) -> (r: Result<String, GeminiError>)
    ensures
        match r {
            Ok(t) => t@ == response_text(*response) && t@.len() > 0,
            Err(e) => e is NoOcrText && response_text(*response).len() == 0,
        },
{
    match response.text() {
        Some(t) => Ok(t),
        None => Err(GeminiError::NoOcrText),
    }
}

// ---------------------------------------------------------------------------
// Operations
// ---------------------------------------------------------------------------

/// Where a long-running operation stands.
pub enum OperationStatus {
    Failed(GeminiError),
    Done,
    Pending,
}

/// `format!("status code {:?}", code)`.
pub open spec fn status_code_text(code: Option<i32>) -> Seq<char> {
    "status code "@ + match code {
        Some(c) => "Some("@ + signed_decimal(c as int) + ")"@,
        None => "None"@,
    }
}

/// What an operation's error says: its message, else its status code.
pub open spec fn operation_error_detail(e: ApiStatus) -> Seq<char> {
    match e.message {
        Some(m) => m@,
        None => status_code_text(e.code),
    }
}

/// Where an operation stands: failed when it carries an error (even if done), done, or
/// still pending.
pub fn operation_status(operation: &Operation) -> (r: OperationStatus)
    ensures
        match operation.error {
            Some(e) => (r matches OperationStatus::Failed(GeminiError::OperationFailed { name, detail })
                && name@ == operation.name@ && detail@ == operation_error_detail(e)),
            None => if operation.done {
                r is Done
            } else {
                r is Pending
            },
        },
{
    match &operation.error {
        Some(e) => {
            let detail = match &e.message {
                Some(m) => m.clone(),
                None => {
                    let code = match e.code {
                        Some(c) => {
                            let a = concat2("Some(", signed_decimal_string(c as i64).as_str());
                            concat2(a.as_str(), ")")
                        },
                        None => copy_str("None"),
                    };
                    concat2("status code ", code.as_str())
                },
            };
            OperationStatus::Failed(
                GeminiError::OperationFailed { name: operation.name.clone(), detail },
            )
        },
        None => if operation.done {
            OperationStatus::Done
        } else {
            OperationStatus::Pending
        },
    }
}

// ---------------------------------------------------------------------------
// Retrying the end of an upload
// ---------------------------------------------------------------------------

/// A length of time (`std::time::Duration`): seconds and nanoseconds below one second.
#[derive(Clone, Copy)]
pub struct Delay {
    pub secs: u64,
    pub nanos: u32,
}

pub open spec fn delay_nanos(d: Delay) -> int {
    d.secs * 1_000_000_000 + d.nanos
}

pub open spec fn valid_delay(d: Delay) -> bool {
    d.nanos < 1_000_000_000
}

/// How many times the end of an upload is tried.
pub const UPLOAD_FINALIZE_MAX_ATTEMPTS: u32 = 5;

/// The longest wait between two tries, in nanoseconds (30 s).
pub open spec fn max_backoff_nanos() -> int {
    30_000_000_000
}

pub open spec fn min_int(a: int, b: int) -> int {
    if a <= b {
        a
    } else {
        b
    }
}

/// The wait after `current`: twice as long, at most 30 seconds.
pub fn next_backoff(current: Delay) -> (r: Delay)
    requires
        valid_delay(current),
    ensures
        valid_delay(r),
        delay_nanos(r) == min_int(2 * delay_nanos(current), max_backoff_nanos()),
{
    if current.secs >= 15 {
        return Delay { secs: 30, nanos: 0 };
    }
    let total: u64 = current.secs * 1_000_000_000 + current.nanos as u64;
    let doubled: u64 = total * 2;
    if doubled >= 30_000_000_000 {
        Delay { secs: 30, nanos: 0 }
    } else {
        let secs: u64 = doubled / 1_000_000_000;
        let nanos: u64 = doubled % 1_000_000_000;
        assert(secs * 1_000_000_000 + nanos == doubled) by (nonlinear_arith)
            requires
                secs == doubled / 1_000_000_000,
                nanos == doubled % 1_000_000_000,
        ;
        Delay { secs, nanos: nanos as u32 }
    }
}

/// Whether a failed answer is worth another try: a timeout (408), too many requests
/// (429), or a server error (5xx).
pub open spec fn retryable_status(status: u16) -> bool {
    status == 408 || status == 429 || (500 <= status <= 599)
}

pub fn is_retryable_status(status: u16) -> (r: bool)
    ensures
        r == retryable_status(status),
{
    status == 408 || status == 429 || (500 <= status && status <= 599)
}

/// Every server error, 500 through 599, is tried again, and so are a request timeout
/// (408) and too many requests (429); every success, redirect and other client error
/// (such as 200, 301, 400, 403 or 404) ends the upload at once.
pub proof fn lemma_retryable_statuses(status: u16)
    ensures
        500 <= status <= 599 ==> retryable_status(status),
        status == 500 ==> retryable_status(status),
        status == 408 ==> retryable_status(status),
        status == 429 ==> retryable_status(status),
        status < 400 ==> !retryable_status(status),
        600 <= status ==> !retryable_status(status),
        400 <= status < 500 && status != 408 && status != 429 ==> !retryable_status(status),
{
}

/// What came of one try to end an upload.
pub enum FinalizeOutcome {
    /// The request could not be sent.
    NotSent { reason: String },
    /// The API answered with an error status and this error.
    Rejected { status: u16, error: GeminiError },
    /// The API accepted the upload.
    Accepted,
}

/// What to do after a try.
pub enum RetryDecision {
    /// Wait this long, then start the upload again.
    RetryAfter(Delay),
    /// Give up with this error.
    Fail(GeminiError),
    /// The upload is done.
    Finished,
}

/// The state of the tries to end an upload: which try this is, and how long to wait
/// before the next.
pub struct UploadRetry {
    pub attempt: u32,
    pub backoff: Delay,
}

pub open spec fn retry_wf(r: UploadRetry) -> bool {
    &&& 1 <= r.attempt <= UPLOAD_FINALIZE_MAX_ATTEMPTS
    &&& valid_delay(r.backoff)
    &&& delay_nanos(r.backoff) <= max_backoff_nanos()
}

impl UploadRetry {
    /// The first try, with a first wait of two seconds.
    pub fn new() -> (r: UploadRetry)
        ensures
            retry_wf(r),
            r.attempt == 1,
            r.backoff == (Delay { secs: 2, nanos: 0 }),
    {
        UploadRetry { attempt: 1, backoff: Delay { secs: 2, nanos: 0 } }
    }

    /// Decides what follows a try. An accepted upload is finished. A request that could not
    /// be sent, or an answer with a retryable status, is tried again after the current wait
    /// (which then doubles, up to 30 s) unless this was the fifth try; anything else fails.
    pub fn decide(&mut self, outcome: FinalizeOutcome) -> (d: RetryDecision)
        requires
            retry_wf(*old(self)),
        ensures
            retry_wf(*final(self)),
            d matches RetryDecision::RetryAfter(w) ==> {
                &&& w == old(self).backoff
                &&& old(self).attempt < UPLOAD_FINALIZE_MAX_ATTEMPTS
                &&& final(self).attempt == old(self).attempt + 1
                &&& delay_nanos(final(self).backoff) == min_int(
                    2 * delay_nanos(old(self).backoff),
                    max_backoff_nanos(),
                )
            },
            !(d is RetryAfter) ==> *final(self) == *old(self),
            match outcome {
                FinalizeOutcome::Accepted => d is Finished,
                FinalizeOutcome::NotSent { reason } => if old(self).attempt
                    < UPLOAD_FINALIZE_MAX_ATTEMPTS {
                    d is RetryAfter
                } else {
                    d == RetryDecision::Fail(GeminiError::FinalizeNotSent { reason })
                },
                FinalizeOutcome::Rejected { status, error } => if old(self).attempt
                    < UPLOAD_FINALIZE_MAX_ATTEMPTS && retryable_status(status) {
                    d is RetryAfter
                } else {
                    d == RetryDecision::Fail(error)
                },
            },
    {
        let retry = match &outcome {
            FinalizeOutcome::Accepted => false,
            FinalizeOutcome::NotSent { .. } => self.attempt < UPLOAD_FINALIZE_MAX_ATTEMPTS,
            FinalizeOutcome::Rejected { status, .. } => self.attempt < UPLOAD_FINALIZE_MAX_ATTEMPTS
                && is_retryable_status(*status),
        };
        if retry {
            let wait = self.backoff;
            self.attempt = self.attempt + 1;
            self.backoff = next_backoff(self.backoff);
            return RetryDecision::RetryAfter(wait);
        }
        match outcome {
            FinalizeOutcome::Accepted => RetryDecision::Finished,
            FinalizeOutcome::NotSent { reason } => RetryDecision::Fail(
                GeminiError::FinalizeNotSent { reason },
            ),
            FinalizeOutcome::Rejected { error, .. } => RetryDecision::Fail(error),
        }
    }
}

} // verus!
