//! The Gemini API objects that the library reads.
//!
//! Every object keeps the members it does not name in `extra`, in document order.
use vstd::prelude::*;
use crate::json::{append_entries, json_entries_view, json_opt_str, json_seq_view, lemma_json_seq_view_push, opt_str_json, opt_view, push_entry, string_array, Json, JsonValue};
use crate::text::concat;
use crate::text::join;
use crate::text::join_strings;
use crate::text::extend_str;
use crate::text::str_eq;
use crate::text::string_of;

verus! {

/// A File Search store.
pub struct FileSearchStore {
    pub name: String,
    pub display_name: Option<String>,
    pub embedding_model: Option<String>,
}

/// A model, as `models.list` describes it.
pub struct Model {
    pub name: String,
    pub display_name: Option<String>,
    pub supported_generation_methods: Vec<String>,
}

/// A long-running operation.
pub struct Operation {
    pub name: String,
    pub done: bool,
    pub error: Option<ApiStatus>,
}

/// The error status of a failed operation.
pub struct ApiStatus {
    pub code: Option<i32>,
    pub message: Option<String>,
}

/// The answer to `generateContent` (or one event of `streamGenerateContent`).
pub struct GenerateContentResponse {
    pub candidates: Vec<Candidate>,
    pub extra: Vec<(String, JsonValue)>,
}

pub struct Candidate {
    pub content: Option<Content>,
    pub grounding_metadata: Option<GroundingMetadata>,
    pub extra: Vec<(String, JsonValue)>,
}

pub struct Content {
    pub parts: Vec<Part>,
    pub extra: Vec<(String, JsonValue)>,
}

pub struct Part {
    pub text: Option<String>,
    pub inline_data: Option<InlineData>,
    pub file_data: Option<FileData>,
    pub extra: Vec<(String, JsonValue)>,
}

pub struct InlineData {
    pub mime_type: Option<String>,
    pub data: Option<String>,
    pub extra: Vec<(String, JsonValue)>,
}

pub struct FileData {
    pub mime_type: Option<String>,
    pub file_uri: Option<String>,
    pub extra: Vec<(String, JsonValue)>,
}

pub struct GroundingMetadata {
    pub grounding_chunks: Vec<GroundingChunk>,
    pub extra: Vec<(String, JsonValue)>,
}

pub struct GroundingChunk {
    pub retrieved_context: Option<RetrievedContext>,
    pub extra: Vec<(String, JsonValue)>,
}

pub struct RetrievedContext {
    pub text: Option<String>,
    pub title: Option<String>,
    pub uri: Option<String>,
    pub file_search_store: Option<String>,
    pub custom_metadata: Vec<RetrievedCustomMetadata>,
    pub page_number: Option<i32>,
    pub media_id: Option<String>,
    pub extra: Vec<(String, JsonValue)>,
}

/// A floating-point number, held by the two texts that the library writes of it.
pub struct NumberText {
    /// The number as `f64::to_string` writes it.
    pub display: String,
    /// The number as a JSON document writes it.
    pub json: String,
}

pub struct RetrievedCustomMetadata {
    pub key: String,
    pub string_value: Option<String>,
    pub numeric_value: Option<NumberText>,
    pub string_list_value: Option<StringList>,
    pub extra: Vec<(String, JsonValue)>,
}

pub struct StringList {
    pub values: Vec<String>,
    pub extra: Vec<(String, JsonValue)>,
}

// ---------------------------------------------------------------------------
// Specifications
// ---------------------------------------------------------------------------

pub open spec fn opt_text(t: Option<String>) -> Seq<char> {
    match t {
        Some(s) => s@,
        None => Seq::empty(),
    }
}

/// The text of each part of a candidate's content, in order (empty for non-text parts).
pub open spec fn candidate_part_texts(c: Candidate) -> Seq<Seq<char>> {
    match c.content {
        Some(content) => content.parts@.map_values(|p: Part| opt_text(p.text)),
        None => Seq::empty(),
    }
}

/// The concatenated text parts of all candidates, in order.
pub open spec fn candidates_text(cs: Seq<Candidate>) -> Seq<char>
    decreases cs.len(),
{
    if cs.len() == 0 {
        Seq::empty()
    } else {
        candidates_text(cs.drop_last()) + concat(candidate_part_texts(cs.last()))
    }
}

/// The answer text of a response: its text parts joined.
pub open spec fn response_text(r: GenerateContentResponse) -> Seq<char> {
    candidates_text(r.candidates@)
}

/// A part that carries something besides text: inline data, a file, or unknown members.
pub open spec fn is_non_text_part(p: Part) -> bool {
    p.inline_data is Some || p.file_data is Some || p.extra@.len() > 0
}

pub open spec fn candidate_has_non_text_part(c: Candidate) -> bool {
    match c.content {
        Some(content) => exists|j: int|
            0 <= j < content.parts@.len() && is_non_text_part(#[trigger] content.parts@[j]),
        None => false,
    }
}

pub open spec fn response_has_non_text_parts(r: GenerateContentResponse) -> bool {
    exists|i: int|
        0 <= i < r.candidates@.len() && candidate_has_non_text_part(#[trigger] r.candidates@[i])
}

pub open spec fn model_supports_generate_content(m: Model) -> bool {
    exists|i: int|
        0 <= i < m.supported_generation_methods@.len()
            && (#[trigger] m.supported_generation_methods@[i])@ == "generateContent"@
}

// ---------------------------------------------------------------------------
// Operations
// ---------------------------------------------------------------------------

impl GenerateContentResponse {
    /// The answer text: all text parts of all candidates concatenated; `None` when that is empty.
    pub fn text(&self) -> (r: Option<String>)
        ensures
            match r {
                Some(t) => t@ == response_text(*self) && t@.len() > 0,
                None => response_text(*self).len() == 0,
            },
    {
        let mut out: Vec<char> = Vec::new();
        let mut i: usize = 0;
        while i < self.candidates.len()
            invariant
                i <= self.candidates@.len(),
                out@ == candidates_text(self.candidates@.take(i as int)),
            decreases self.candidates@.len() - i,
        {
            let c = &self.candidates[i];
            let ghost before = out@;
            match &c.content {
                Some(content) => {
                    let ghost texts = content.parts@.map_values(|p: Part| opt_text(p.text));
                    let mut j: usize = 0;
                    while j < content.parts.len()
                        invariant
                            j <= content.parts@.len(),
                            texts == content.parts@.map_values(|p: Part| opt_text(p.text)),
                            out@ == before + concat(texts.take(j as int)),
                        decreases content.parts@.len() - j,
                    {
                        match &content.parts[j].text {
                            Some(t) => extend_str(&mut out, t.as_str()),
                            None => {},
                        }
                        proof {
                            assert(texts.take(j + 1).drop_last() =~= texts.take(j as int));
                            assert(out@ =~= before + concat(texts.take(j + 1)));
                        }
                        j = j + 1;
                    }
                    assert(texts.take(content.parts@.len() as int) =~= texts);
                },
                None => {
                    assert(out@ =~= before + concat(candidate_part_texts(*c)));
                },
            }
            proof {
                assert(self.candidates@.take(i + 1).drop_last() =~= self.candidates@.take(
                    i as int,
                ));
            }
            i = i + 1;
        }
        assert(self.candidates@.take(self.candidates@.len() as int) =~= self.candidates@);
        if out.len() == 0 {
            None
        } else {
            Some(string_of(out.as_slice()))
        }
    }

    /// Whether some part of some candidate carries inline data, a file, or unknown members.
    pub fn has_non_text_parts(&self) -> (r: bool)
        ensures
            r == response_has_non_text_parts(*self),
    {
        let mut i: usize = 0;
        while i < self.candidates.len()
            invariant
                i <= self.candidates@.len(),
                forall|k: int|
                    0 <= k < i ==> !candidate_has_non_text_part(#[trigger] self.candidates@[k]),
            decreases self.candidates@.len() - i,
        {
            let c = &self.candidates[i];
            match &c.content {
                Some(content) => {
                    let mut j: usize = 0;
                    while j < content.parts.len()
                        invariant
                            j <= content.parts@.len(),
                            i < self.candidates@.len(),
                            self.candidates@[i as int].content == Some(*content),
                            forall|k: int|
                                0 <= k < i ==> !candidate_has_non_text_part(
                                    #[trigger] self.candidates@[k],
                                ),
                            forall|k: int|
                                0 <= k < j ==> !is_non_text_part(#[trigger] content.parts@[k]),
                        decreases content.parts@.len() - j,
                    {
                        let p = &content.parts[j];
                        if p.inline_data.is_some() || p.file_data.is_some() || p.extra.len() > 0 {
                            assert(is_non_text_part(content.parts@[j as int]));
                            assert(is_non_text_part(
                                self.candidates@[i as int].content->0.parts@[j as int],
                            ));
                            assert(candidate_has_non_text_part(self.candidates@[i as int]));
                            return true;
                        }
                        j = j + 1;
                    }
                },
                None => {},
            }
            i = i + 1;
        }
        false
    }
}

impl Model {
    /// Whether `generateContent` is among the model's supported generation methods.
    pub fn supports_generate_content(&self) -> (r: bool)
        ensures
            r == model_supports_generate_content(*self),
    {
        let mut i: usize = 0;
        while i < self.supported_generation_methods.len()
            invariant
                i <= self.supported_generation_methods@.len(),
                forall|k: int|
                    0 <= k < i ==> (#[trigger] self.supported_generation_methods@[k])@
                        != "generateContent"@,
            decreases self.supported_generation_methods@.len() - i,
        {
            if str_eq(self.supported_generation_methods[i].as_str(), "generateContent") {
                return true;
            }
            i = i + 1;
        }
        false
    }
}

} // verus!

verus! {

/// The text a custom metadata entry carries: its string, else its number, else its
/// string list joined with commas.
pub open spec fn metadata_value_text(m: RetrievedCustomMetadata) -> Option<Seq<char>> {
    match m.string_value {
        Some(s) => Some(s@),
        None => match m.numeric_value {
            Some(n) => Some(n.display@),
            None => match m.string_list_value {
                Some(l) => Some(join(l.values@.map_values(|v: String| v@), ","@)),
                None => None,
            },
        },
    }
}

/// The JSON document of a custom metadata entry, members in camel case.
pub open spec fn custom_metadata_json(m: RetrievedCustomMetadata) -> Json {
    Json::Object(
        seq![
            ("key"@, Json::Str(m.key@)),
            ("stringValue"@, opt_str_json(m.string_value)),
            ("numericValue"@, match m.numeric_value {
                Some(n) => Json::Number(n.json@),
                None => Json::Null,
            }),
            ("stringListValue"@, match m.string_list_value {
                Some(l) => Json::Object(
                    seq![("values"@, Json::Array(l.values@.map_values(|v: String| Json::Str(v@))))]
                        + json_entries_view(l.extra@),
                ),
                None => Json::Null,
            }),
        ] + json_entries_view(m.extra@),
    )
}

impl RetrievedCustomMetadata {
    /// The text the entry carries, if any.
    pub fn value_text(&self) -> (r: Option<String>)
        ensures
            opt_view(r) == metadata_value_text(*self),
    {
        match &self.string_value {
            Some(s) => Some(s.clone()),
            None => match &self.numeric_value {
                Some(n) => Some(n.display.clone()),
                None => match &self.string_list_value {
                    Some(l) => Some(join_strings(&l.values, ",")),
                    None => None,
                },
            },
        }
    }

    /// The JSON document of the entry.
    pub fn to_json(&self) -> (r: JsonValue)
        ensures
            r@ == custom_metadata_json(*self),
    {
        let mut es: Vec<(String, JsonValue)> = Vec::new();
        push_entry(&mut es, "key", JsonValue::Str(self.key.clone()));
        push_entry(&mut es, "stringValue", json_opt_str(&self.string_value));
        let numeric = match &self.numeric_value {
            Some(n) => JsonValue::Number(n.json.clone()),
            None => JsonValue::Null,
        };
        push_entry(&mut es, "numericValue", numeric);
        let list = match &self.string_list_value {
            Some(l) => {
                let mut ls: Vec<(String, JsonValue)> = Vec::new();
                push_entry(&mut ls, "values", string_array(&l.values));
                append_entries(&mut ls, &l.extra);
                assert(json_entries_view(ls@) =~= seq![("values"@, Json::Array(l.values@.map_values(|v: String| Json::Str(v@))))]
                        + json_entries_view(l.extra@));
                JsonValue::Object(ls)
            },
            None => JsonValue::Null,
        };
        assert(list@ == match self.string_list_value {
            Some(l) => Json::Object(
                seq![("values"@, Json::Array(l.values@.map_values(|v: String| Json::Str(v@))))]
                    + json_entries_view(l.extra@),
            ),
            None => Json::Null,
        });
        assert(numeric@ == match self.numeric_value {
            Some(n) => Json::Number(n.json@),
            None => Json::Null,
        });
        push_entry(&mut es, "stringListValue", list);
        let ghost head = json_entries_view(es@);
        assert(head =~= seq![
            ("key"@, Json::Str(self.key@)),
            ("stringValue"@, opt_str_json(self.string_value)),
            ("numericValue"@, numeric@),
            ("stringListValue"@, list@),
        ]);
        append_entries(&mut es, &self.extra);
        let ghost entries = json_entries_view(es@);
        assert(entries == head + json_entries_view(self.extra@));
        assert(head =~= seq![
            ("key"@, Json::Str(self.key@)),
            ("stringValue"@, opt_str_json(self.string_value)),
            ("numericValue"@, match self.numeric_value {
                Some(n) => Json::Number(n.json@),
                None => Json::Null,
            }),
            ("stringListValue"@, match self.string_list_value {
                Some(l) => Json::Object(
                    seq![("values"@, Json::Array(l.values@.map_values(|v: String| Json::Str(v@))))]
                        + json_entries_view(l.extra@),
                ),
                None => Json::Null,
            }),
        ]);
        let r = JsonValue::Object(es);
        assert(r@ == Json::Object(entries));
        r
    }
}

/// The JSON array of custom metadata entries.
pub fn custom_metadata_list_json(ms: &Vec<RetrievedCustomMetadata>) -> (r: JsonValue)
    ensures
        r@ == Json::Array(ms@.map_values(|m: RetrievedCustomMetadata| custom_metadata_json(m))),
{
    let mut out: Vec<JsonValue> = Vec::new();
    let mut i: usize = 0;
    while i < ms.len()
        invariant
            i <= ms@.len(),
            json_seq_view(out@) == ms@.take(i as int).map_values(
                |m: RetrievedCustomMetadata| custom_metadata_json(m),
            ),
        decreases ms@.len() - i,
    {
        let x = ms[i].to_json();
        proof {
            lemma_json_seq_view_push(out@, x);
            assert(ms@.take(i + 1).map_values(|m: RetrievedCustomMetadata| custom_metadata_json(m))
                =~= ms@.take(i as int).map_values(
                |m: RetrievedCustomMetadata| custom_metadata_json(m),
            ).push(custom_metadata_json(ms@[i as int])));
        }
        out.push(x);
        i = i + 1;
    }
    assert(ms@.take(ms@.len() as int) =~= ms@);
    JsonValue::Array(out)
}

} // verus!
