//! Gemini responses passed on as metadata, with member names in snake case.
use vstd::prelude::*;
use crate::json::{
    json_entries_view, json_seq_view, lemma_json_entries_view_index, lemma_json_entries_view_len,
    lemma_json_entries_view_push, lemma_json_seq_view_index, lemma_json_seq_view_len,
    lemma_json_seq_view_push, Json, JsonValue,
};
use crate::text::{ascii_lower, chars_of, is_ascii_upper, string_of, to_lower_ascii_char};

verus! {

/// A camel-case name in snake case: every ASCII capital lowered, with `_` before it
/// unless it is the first character.
pub open spec fn snake_case(s: Seq<char>) -> Seq<char>
    decreases s.len(),
{
    if s.len() == 0 {
        Seq::empty()
    } else {
        snake_case(s.drop_last()) + if is_ascii_upper(s.last()) {
            if s.len() > 1 {
                seq!['_', ascii_lower(s.last())]
            } else {
                seq![ascii_lower(s.last())]
            }
        } else {
            seq![s.last()]
        }
    }
}

/// The document with every member name, at any depth, in snake case.
pub open spec fn snake_json(j: Json) -> Json
    decreases j, 0nat,
{
    match j {
        Json::Object(es) => Json::Object(snake_entries(es, es.len() as int)),
        Json::Array(vs) => Json::Array(snake_items(vs, vs.len() as int)),
        _ => j,
    }
}

pub open spec fn snake_entries(es: Seq<(Seq<char>, Json)>, n: int) -> Seq<(Seq<char>, Json)>
    decreases es, n,
{
    if n <= 0 || n > es.len() {
        Seq::empty()
    } else {
        snake_entries(es, n - 1).push((snake_case(es[n - 1].0), snake_json(es[n - 1].1)))
    }
}

pub open spec fn snake_items(vs: Seq<Json>, n: int) -> Seq<Json>
    decreases vs, n,
{
    if n <= 0 || n > vs.len() {
        Seq::empty()
    } else {
        snake_items(vs, n - 1).push(snake_json(vs[n - 1]))
    }
}

/// The name in snake case.
pub fn to_snake_case(key: &str) -> (r: String)
    ensures
        r@ == snake_case(key@),
{
    let cs = chars_of(key);
    let mut out: Vec<char> = Vec::new();
    let mut i: usize = 0;
    while i < cs.len()
        invariant
            i <= cs@.len(),
            cs@ == key@,
            out@ == snake_case(key@.take(i as int)),
        decreases cs@.len() - i,
    {
        let c = cs[i];
        proof {
            assert(key@.take(i + 1).drop_last() =~= key@.take(i as int));
        }
        if 'A' <= c && c <= 'Z' {
            if i > 0 {
                out.push('_');
            }
            out.push(to_lower_ascii_char(c));
        } else {
            out.push(c);
        }
        assert(out@ =~= snake_case(key@.take(i + 1)));
        i = i + 1;
    }
    assert(key@.take(cs@.len() as int) =~= key@);
    string_of(out.as_slice())
}

/// The document with every member name, at any depth, in snake case.
pub fn snake_case_json_keys(value: &JsonValue) -> (r: JsonValue)
    ensures
        r@ == snake_json(value@),
    decreases *value,
{
    match value {
        JsonValue::Object(es) => {
            let mut out: Vec<(String, JsonValue)> = Vec::new();
            let mut i: usize = 0;
            proof {
                lemma_json_entries_view_len(es@);
            }
            while i < es.len()
                invariant
                    i <= es@.len(),
                    *value == JsonValue::Object(*es),
                    json_entries_view(es@).len() == es@.len(),
                    json_entries_view(out@) == snake_entries(json_entries_view(es@), i as int),
                decreases es@.len() - i,
            {
                proof {
                    assert(decreases_to!(*value => (*value)->Object_0));
                    assert(decreases_to!(*es => es[i as int]));
                    assert(decreases_to!(es[i as int] => es[i as int].1));
                    lemma_json_entries_view_index(es@, i as int);
                }
                let k = to_snake_case(es[i].0.as_str());
                let v = snake_case_json_keys(&es[i].1);
                proof {
                    lemma_json_entries_view_push(out@, k, v);
                }
                out.push((k, v));
                i = i + 1;
            }
            JsonValue::Object(out)
        },
        JsonValue::Array(vs) => {
            let mut out: Vec<JsonValue> = Vec::new();
            let mut i: usize = 0;
            proof {
                lemma_json_seq_view_len(vs@);
            }
            while i < vs.len()
                invariant
                    i <= vs@.len(),
                    *value == JsonValue::Array(*vs),
                    json_seq_view(vs@).len() == vs@.len(),
                    json_seq_view(out@) == snake_items(json_seq_view(vs@), i as int),
                decreases vs@.len() - i,
            {
                proof {
                    assert(decreases_to!(*value => (*value)->Array_0));
                    assert(decreases_to!(*vs => vs[i as int]));
                    lemma_json_seq_view_index(vs@, i as int);
                }
                let v = snake_case_json_keys(&vs[i]);
                proof {
                    lemma_json_seq_view_push(out@, v);
                }
                out.push(v);
                i = i + 1;
            }
            JsonValue::Array(out)
        },
        _ => value.deep_clone(),
    }
}

/// The metadata value of a serialized Gemini response: the document in snake case.
pub fn gemini_metadata_value(document: &JsonValue) -> (r: JsonValue)
    ensures
        r@ == snake_json(document@),
{
    snake_case_json_keys(document)
}

/// The metadata values of several serialized responses, as a JSON array.
pub fn gemini_metadata_values(documents: &Vec<JsonValue>) -> (r: JsonValue)
    ensures
        r@ == Json::Array(json_seq_view(documents@).map_values(|d: Json| snake_json(d))),
{
    let mut out: Vec<JsonValue> = Vec::new();
    let mut i: usize = 0;
    proof {
        lemma_json_seq_view_len(documents@);
    }
    while i < documents.len()
        invariant
            i <= documents@.len(),
            json_seq_view(documents@).len() == documents@.len(),
            json_seq_view(out@) == json_seq_view(documents@).take(i as int).map_values(
                |d: Json| snake_json(d),
            ),
        decreases documents@.len() - i,
    {
        let v = snake_case_json_keys(&documents[i]);
        proof {
            lemma_json_seq_view_push(out@, v);
            lemma_json_seq_view_index(documents@, i as int);
            assert(json_seq_view(documents@).take(i + 1).map_values(|d: Json| snake_json(d))
                =~= json_seq_view(documents@).take(i as int).map_values(|d: Json| snake_json(d)).push(
                snake_json(json_seq_view(documents@)[i as int]),
            ));
        }
        out.push(v);
        i = i + 1;
    }
    assert(json_seq_view(documents@).take(documents@.len() as int) =~= json_seq_view(documents@));
    JsonValue::Array(out)
}

} // verus!
