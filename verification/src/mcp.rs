//! Rules of the MCP tool server: bearer authentication, configuration checks,
//! query defaults and the query result.
use vstd::prelude::*;
use crate::gemini::types::{response_text, GenerateContentResponse};
use crate::json::{entries_get, entries_lookup, json_entries_view, JsonValue};
use crate::server::citations::{context_locations, file_references, reference_describes, FileReference};
use crate::text::{concat2, copy_str, strip_prefix, strip_prefix_str, trim, trim_str};
use crate::util::{non_empty, non_empty_text, normalize_model_name, normalized_model_name};

verus! {

/// Compares two byte strings, looking at every byte of equal-length inputs.
pub fn constant_time_eq(left: &[u8], right: &[u8]) -> (r: bool)
    ensures
        r == (left@ == right@),
{
    if left.len() != right.len() {
        return false;
    }
    let mut difference: u8 = 0;
    let mut i: usize = 0;
    while i < left.len()
        invariant
            i <= left@.len() == right@.len(),
            difference == 0 <==> forall|k: int| 0 <= k < i ==> left@[k] == right@[k],
        decreases left@.len() - i,
    {
        let a = left[i];
        let b = right[i];
        let d = difference;
        assert((d | (a ^ b)) == 0u8 <==> (d == 0u8 && a == b)) by (bit_vector);
        difference = difference | (a ^ b);
        i = i + 1;
    }
    proof {
        if difference == 0 {
            assert(left@ =~= right@);
        }
    }
    difference == 0
}

/// The request carries `Authorization: Bearer <expected>`.
pub open spec fn bearer_matches(authorization: Option<Seq<char>>, expected: Seq<char>) -> bool {
    match authorization {
        Some(h) => strip_prefix(h, "Bearer "@) == Some(expected),
        None => false,
    }
}

/// Whether the `Authorization` header value (when it is readable text) carries the
/// expected bearer token.
pub fn is_authorized(authorization: Option<&str>, expected: &str) -> (r: bool)
    ensures
        r == bearer_matches(
            match authorization {
                Some(h) => Some(h@),
                None => None,
            },
            expected@,
        ),
{
    let header = match authorization {
        Some(h) => h,
        None => return false,
    };
    match strip_prefix_str(header, "Bearer ") {
        Some(provided) => {
            let p = provided.as_str();
            let r = constant_time_eq(p.as_bytes(), expected.as_bytes());
            proof {
                vstd::utf8::encode_utf8_decode_utf8(p@);
                vstd::utf8::encode_utf8_decode_utf8(expected@);
            }
            r
        },
        None => false,
    }
}

/// The ways an MCP server configuration is refused.
pub enum ConfigError {
    /// The bearer token is empty.
    EmptyToken,
    /// A non-loopback address is bound without allowed hosts.
    MissingAllowedHosts,
}

impl ConfigError {
    pub fn message(&self) -> (r: String)
        ensures
            r@ == config_error_message(*self),
    {
        match self {
            ConfigError::EmptyToken => copy_str("GEMINI_MCP_TOKEN or --token must not be empty"),
            ConfigError::MissingAllowedHosts => copy_str(
                "GEMINI_MCP_ALLOWED_HOSTS or --allowed-host is required for a non-loopback MCP bind address",
            ),
        }
    }
}

pub open spec fn config_error_message(e: ConfigError) -> Seq<char> {
    match e {
        ConfigError::EmptyToken => "GEMINI_MCP_TOKEN or --token must not be empty"@,
        ConfigError::MissingAllowedHosts => "GEMINI_MCP_ALLOWED_HOSTS or --allowed-host is required for a non-loopback MCP bind address"@,
    }
}

/// Checks an MCP server configuration: the token must not be empty, and a bind address
/// that is not loopback needs at least one allowed host.
pub fn validate_server_config(bind_is_loopback: bool, token: &str, allowed_hosts: &[String]) -> (r:
    Result<(), ConfigError>)
    ensures
        token@.len() == 0 ==> r == Err::<(), ConfigError>(ConfigError::EmptyToken),
        token@.len() > 0 && !bind_is_loopback && allowed_hosts@.len() == 0 ==> r == Err::<
            (),
            ConfigError,
        >(ConfigError::MissingAllowedHosts),
        r is Ok <==> (token@.len() > 0 && (bind_is_loopback || allowed_hosts@.len() > 0)),
{
    if token.unicode_len() == 0 {
        return Err(ConfigError::EmptyToken);
    }
    if !bind_is_loopback && allowed_hosts.len() == 0 {
        return Err(ConfigError::MissingAllowedHosts);
    }
    Ok(())
}

/// The arguments of the `query_file_search_store` tool.
pub struct QueryInput {
    pub prompt: String,
    pub store: Option<String>,
    pub model: Option<String>,
}

/// A query with its defaults applied.
pub struct ResolvedQuery {
    pub prompt: String,
    pub store: String,
    pub model: String,
}

pub open spec fn opt_seq(o: Option<String>) -> Option<Seq<char>> {
    match o {
        Some(s) => Some(s@),
        None => None,
    }
}

/// The store a query uses: its own (trimmed) store, else the server default.
pub open spec fn query_store_of(input_store: Option<Seq<char>>, default_store: Option<Seq<char>>) -> Option<
    Seq<char>,
> {
    match non_empty_text(input_store) {
        Some(s) => Some(s),
        None => non_empty_text(default_store),
    }
}

/// The model a query uses: its own (trimmed) model, else the server default, normalized.
pub open spec fn query_model_of(input_model: Option<Seq<char>>, default_model: Seq<char>) -> Seq<char> {
    normalized_model_name(
        match non_empty_text(input_model) {
            Some(m) => m,
            None => default_model,
        },
    )
}

pub open spec fn empty_prompt_message() -> Seq<char> {
    "prompt must not be empty"@
}

pub open spec fn missing_store_message() -> Seq<char> {
    "store is required; pass it to the tool or configure GEMINI_FILE_SEARCH_STORE"@
}

/// Applies the server defaults to a query: the trimmed prompt must not be empty, a store
/// must be given or configured, and the model falls back to the default.
pub fn resolve_query(input: &QueryInput, default_store: Option<&str>, default_model: &str) -> (r:
    Result<ResolvedQuery, String>)
    ensures
        trim(input.prompt@).len() == 0 ==> (r matches Err(e) && e@ == empty_prompt_message()),
        trim(input.prompt@).len() > 0 && query_store_of(
            opt_seq(input.store),
            match default_store {
                Some(s) => Some(s@),
                None => None,
            },
        ) is None ==> (r matches Err(e) && e@ == missing_store_message()),
        match r {
            Ok(q) => {
                &&& trim(input.prompt@).len() > 0
                &&& q.prompt@ == trim(input.prompt@)
                &&& Some(q.store@) == query_store_of(
                    opt_seq(input.store),
                    match default_store {
                        Some(s) => Some(s@),
                        None => None,
                    },
                )
                &&& q.model@ == query_model_of(opt_seq(input.model), default_model@)
            },
            Err(_) => true,
        },
        r is Ok <==> (trim(input.prompt@).len() > 0 && query_store_of(
            opt_seq(input.store),
            match default_store {
                Some(s) => Some(s@),
                None => None,
            },
        ) is Some),
{
    let prompt = trim_str(input.prompt.as_str());
    if prompt.as_str().unicode_len() == 0 {
        return Err(copy_str("prompt must not be empty"));
    }
    let own_store = match &input.store {
        Some(s) => non_empty(Some(s.as_str())),
        None => non_empty(None),
    };
    let store = match own_store {
        Some(s) => s,
        None => match non_empty(default_store) {
            Some(s) => s,
            None => {
                return Err(
                    copy_str(
                        "store is required; pass it to the tool or configure GEMINI_FILE_SEARCH_STORE",
                    ),
                );
            },
        },
    };
    let own_model = match &input.model {
        Some(m) => non_empty(Some(m.as_str())),
        None => non_empty(None),
    };
    let model = match own_model {
        Some(m) => normalize_model_name(m.as_str()),
        None => normalize_model_name(default_model),
    };
    Ok(ResolvedQuery { prompt, store, model })
}

/// The result of the query tool.
pub struct QueryOutput {
    pub answer: String,
    pub store: String,
    pub model: String,
    pub references: Vec<FileReference>,
    /// The response's `usageMetadata` member, when present.
    pub usage: Option<JsonValue>,
}

pub open spec fn no_answer_message() -> Seq<char> {
    "Gemini response did not include answer text"@
}

/// Builds the query tool's result: the answer text (required), the file references and
/// the native token usage of the response.
pub fn query_output(response: &GenerateContentResponse, store: String, model: String) -> (r: Result<
    QueryOutput,
    String,
>)
    ensures
        response_text(*response).len() == 0 ==> (r matches Err(e) && e@ == no_answer_message()),
        r is Ok <==> response_text(*response).len() > 0,
        match r {
            Ok(o) => {
                &&& o.answer@ == response_text(*response)
                &&& o.store == store
                &&& o.model == model
                &&& o.references@.len() == context_locations(seq![*response]).len()
                &&& forall|q: int|
                    0 <= q < o.references@.len() ==> reference_describes(
                        #[trigger] o.references@[q],
                        seq![*response],
                        context_locations(seq![*response])[q],
                    )
                &&& match o.usage {
                    Some(u) => entries_get(json_entries_view(response.extra@), "usageMetadata"@)
                        == Some(u@),
                    None => entries_get(json_entries_view(response.extra@), "usageMetadata"@) is None,
                }
            },
            Err(_) => true,
        },
{
    let answer = match response.text() {
        Some(t) => t,
        None => return Err(copy_str("Gemini response did not include answer text")),
    };
    let references = file_references(core::slice::from_ref(response));
    let usage = match entries_lookup(&response.extra, "usageMetadata") {
        Some(u) => Some(u.deep_clone()),
        None => None,
    };
    Ok(QueryOutput { answer, store, model, references, usage })
}

/// The allowed hosts of the server: each trimmed, the blank ones dropped.
pub open spec fn allowed_hosts_of(hosts: Seq<Seq<char>>) -> Seq<Seq<char>>
    decreases hosts.len(),
{
    if hosts.len() == 0 {
        Seq::empty()
    } else {
        allowed_hosts_of(hosts.drop_last()) + if trim(hosts.last()).len() > 0 {
            seq![trim(hosts.last())]
        } else {
            Seq::empty()
        }
    }
}

pub fn allowed_hosts(hosts: &Vec<String>) -> (r: Vec<String>)
    ensures
        r@.map_values(|h: String| h@) == allowed_hosts_of(hosts@.map_values(|h: String| h@)),
{
    let ghost hv = hosts@.map_values(|h: String| h@);
    let mut out: Vec<String> = Vec::new();
    let mut i: usize = 0;
    while i < hosts.len()
        invariant
            i <= hosts@.len(),
            hv == hosts@.map_values(|h: String| h@),
            out@.map_values(|h: String| h@) == allowed_hosts_of(hv.take(i as int)),
        decreases hosts@.len() - i,
    {
        let host = trim_str(hosts[i].as_str());
        proof {
            assert(hv.take(i + 1).drop_last() =~= hv.take(i as int));
            assert(hv.take(i + 1).last() == hosts@[i as int]@);
        }
        if host.unicode_len() > 0 {
            let ghost before = out@.map_values(|h: String| h@);
            let ghost t = host@;
            out.push(host);
            assert(out@.map_values(|h: String| h@) =~= before.push(t));
        } else {
            assert(allowed_hosts_of(hv.take(i + 1)) =~= allowed_hosts_of(hv.take(i as int)));
        }
        i = i + 1;
    }
    assert(hv.take(hosts@.len() as int) =~= hv);
    out
}

/// The server's default model: the one given, trimmed and normalized; a blank one is
/// refused.
pub fn mcp_default_model(model: &str) -> (r: Result<String, String>)
    ensures
        match r {
            Ok(m) => trim(model@).len() > 0 && m@ == normalized_model_name(trim(model@)),
            Err(e) => trim(model@).len() == 0 && e@ == "MCP default model must not be empty"@,
        },
{
    match non_empty(Some(model)) {
        Some(m) => Ok(normalize_model_name(m.as_str())),
        None => Err(copy_str("MCP default model must not be empty")),
    }
}

/// The message of a failed tool call: the context, a colon, and the error.
pub fn tool_error(context: &str, error: &str) -> (r: String)
    ensures
        r@ == context@ + ": "@ + error@,
{
    let head = concat2(context, ": ");
    concat2(head.as_str(), error)
}

} // verus!
