//! A JSON document model: the executable `JsonValue` and its mathematical view `Json`.
//!
//! Numbers are held as their JSON text, so that no floating-point value is needed.
//! Objects are lists of entries in document order; their keys are distinct.
use vstd::prelude::*;
use crate::text::{copy_str, decimal, decimal_string};
use crate::text::str_eq;

verus! {

/// The mathematical view of a JSON document.
pub enum Json {
    Null,
    Bool(bool),
    Number(Seq<char>),
    Str(Seq<char>),
    Array(Seq<Json>),
    Object(Seq<(Seq<char>, Json)>),
}

/// A JSON document.
pub enum JsonValue {
    Null,
    Bool(bool),
    /// A number, by its JSON text.
    Number(String),
    Str(String),
    Array(Vec<JsonValue>),
    /// Entries in document order.
    Object(Vec<(String, JsonValue)>),
}

pub open spec fn json_view(j: JsonValue) -> Json
    decreases j,
{
    match j {
        JsonValue::Null => Json::Null,
        JsonValue::Bool(b) => Json::Bool(b),
        JsonValue::Number(n) => Json::Number(n@),
        JsonValue::Str(s) => Json::Str(s@),
        JsonValue::Array(v) => Json::Array(json_seq_view(v@)),
        JsonValue::Object(m) => Json::Object(json_entries_view(m@)),
    }
}

pub open spec fn json_seq_view(s: Seq<JsonValue>) -> Seq<Json>
    decreases s,
{
    if s.len() == 0 {
        Seq::empty()
    } else {
        json_seq_view(s.subrange(0, s.len() - 1)).push(json_view(s[s.len() - 1]))
    }
}

pub open spec fn json_entries_view(s: Seq<(String, JsonValue)>) -> Seq<(Seq<char>, Json)>
    decreases s,
{
    if s.len() == 0 {
        Seq::empty()
    } else {
        json_entries_view(s.subrange(0, s.len() - 1)).push(
            (s[s.len() - 1].0@, json_view(s[s.len() - 1].1)),
        )
    }
}

impl View for JsonValue {
    type V = Json;

    open spec fn view(&self) -> Json {
        json_view(*self)
    }
}

/// The value of the first entry whose key is `key`.
pub open spec fn entries_get(entries: Seq<(Seq<char>, Json)>, key: Seq<char>) -> Option<Json>
    decreases entries.len(),
{
    if entries.len() == 0 {
        None
    } else if entries[0].0 == key {
        Some(entries[0].1)
    } else {
        entries_get(entries.drop_first(), key)
    }
}

/// `Value::get(key)` on an object; `None` on anything else.
pub open spec fn json_get(j: Json, key: Seq<char>) -> Option<Json> {
    match j {
        Json::Object(entries) => entries_get(entries, key),
        _ => None,
    }
}

/// `Value::as_str`.
pub open spec fn json_as_str(j: Json) -> Option<Seq<char>> {
    match j {
        Json::Str(s) => Some(s),
        _ => None,
    }
}

pub proof fn lemma_json_seq_view_len(s: Seq<JsonValue>)
    ensures
        json_seq_view(s).len() == s.len(),
    decreases s.len(),
{
    if s.len() > 0 {
        lemma_json_seq_view_len(s.subrange(0, s.len() - 1));
    }
}

pub proof fn lemma_json_seq_view_index(s: Seq<JsonValue>, i: int)
    requires
        0 <= i < s.len(),
    ensures
        json_seq_view(s).len() == s.len(),
        json_seq_view(s)[i] == json_view(s[i]),
    decreases s.len(),
{
    lemma_json_seq_view_len(s);
    if i < s.len() - 1 {
        lemma_json_seq_view_index(s.subrange(0, s.len() - 1), i);
    }
}

pub proof fn lemma_json_seq_view_push(s: Seq<JsonValue>, x: JsonValue)
    ensures
        json_seq_view(s.push(x)) == json_seq_view(s).push(json_view(x)),
{
    assert(s.push(x).subrange(0, s.len() as int) =~= s);
}

pub proof fn lemma_json_entries_view_len(s: Seq<(String, JsonValue)>)
    ensures
        json_entries_view(s).len() == s.len(),
    decreases s.len(),
{
    if s.len() > 0 {
        lemma_json_entries_view_len(s.subrange(0, s.len() - 1));
    }
}

pub proof fn lemma_json_entries_view_index(s: Seq<(String, JsonValue)>, i: int)
    requires
        0 <= i < s.len(),
    ensures
        json_entries_view(s).len() == s.len(),
        json_entries_view(s)[i] == (s[i].0@, json_view(s[i].1)),
    decreases s.len(),
{
    lemma_json_entries_view_len(s);
    if i < s.len() - 1 {
        lemma_json_entries_view_index(s.subrange(0, s.len() - 1), i);
    }
}

pub proof fn lemma_json_entries_view_push(s: Seq<(String, JsonValue)>, k: String, x: JsonValue)
    ensures
        json_entries_view(s.push((k, x))) == json_entries_view(s).push((k@, json_view(x))),
{
    assert(s.push((k, x)).subrange(0, s.len() as int) =~= s);
}

impl JsonValue {
    /// A deep copy.
    pub fn deep_clone(&self) -> (r: JsonValue)
        ensures
            r@ == self@,
        decreases self,
    {
        match self {
            JsonValue::Null => JsonValue::Null,
            JsonValue::Bool(b) => JsonValue::Bool(*b),
            JsonValue::Number(n) => JsonValue::Number(n.clone()),
            JsonValue::Str(s) => JsonValue::Str(s.clone()),
            JsonValue::Array(v) => {
                let mut out: Vec<JsonValue> = Vec::new();
                let mut i: usize = 0;
                while i < v.len()
                    invariant
                        i <= v@.len(),
                        *self == JsonValue::Array(*v),
                        json_seq_view(out@) == json_seq_view(v@.take(i as int)),
                    decreases v@.len() - i,
                {
                    proof {
                        assert(decreases_to!(*self => (*self)->Array_0));
                        assert(decreases_to!(*v => v[i as int]));
                        assert(decreases_to!(*self => v[i as int]));
                    }
                    let x = v[i].deep_clone();
                    proof {
                        lemma_json_seq_view_push(out@, x);
                        assert(v@.take(i + 1).subrange(0, i as int) =~= v@.take(i as int));
                    }
                    out.push(x);
                    i = i + 1;
                }
                assert(v@.take(v@.len() as int) =~= v@);
                JsonValue::Array(out)
            },
            JsonValue::Object(m) => {
                let mut out: Vec<(String, JsonValue)> = Vec::new();
                let mut i: usize = 0;
                while i < m.len()
                    invariant
                        i <= m@.len(),
                        *self == JsonValue::Object(*m),
                        json_entries_view(out@) == json_entries_view(m@.take(i as int)),
                    decreases m@.len() - i,
                {
                    let k = m[i].0.clone();
                    proof {
                        assert(decreases_to!(*self => (*self)->Object_0));
                        assert(decreases_to!(*m => m[i as int]));
                        assert(decreases_to!(m[i as int] => m[i as int].1));
                        assert(decreases_to!(*self => m[i as int].1));
                    }
                    let x = m[i].1.deep_clone();
                    proof {
                        lemma_json_entries_view_push(out@, k, x);
                        assert(m@.take(i + 1).subrange(0, i as int) =~= m@.take(i as int));
                    }
                    out.push((k, x));
                    i = i + 1;
                }
                assert(m@.take(m@.len() as int) =~= m@);
                JsonValue::Object(out)
            },
        }
    }

    /// `Value::as_str`, as a new string.
    pub fn as_str_owned(&self) -> (r: Option<String>)
        ensures
            match r {
                Some(s) => json_as_str(self@) == Some(s@),
                None => json_as_str(self@) is None,
            },
    {
        match self {
            JsonValue::Str(s) => Some(s.clone()),
            _ => None,
        }
    }

    /// `Value::get(key)`.
    pub fn get(&self, key: &str) -> (r: Option<&JsonValue>)
        ensures
            match r {
                Some(v) => json_get(self@, key@) == Some(v@),
                None => json_get(self@, key@) is None,
            },
    {
        match self {
            JsonValue::Object(m) => entries_lookup(m, key),
            _ => None,
        }
    }
}

/// The value of the first entry whose key is `key`.
pub fn entries_lookup<'a>(m: &'a Vec<(String, JsonValue)>, key: &str) -> (r: Option<&'a JsonValue>)
    ensures
        match r {
            Some(v) => entries_get(json_entries_view(m@), key@) == Some(v@),
            None => entries_get(json_entries_view(m@), key@) is None,
        },
{
    let mut i: usize = 0;
    proof {
        lemma_json_entries_view_len(m@);
        assert(json_entries_view(m@).skip(0) =~= json_entries_view(m@));
    }
    while i < m.len()
        invariant
            i <= m@.len(),
            json_entries_view(m@).len() == m@.len(),
            entries_get(json_entries_view(m@), key@) == entries_get(
                json_entries_view(m@).skip(i as int),
                key@,
            ),
        decreases m@.len() - i,
    {
        proof {
            lemma_json_entries_view_index(m@, i as int);
        }
        let ghost rest = json_entries_view(m@).skip(i as int);
        if str_eq(m[i].0.as_str(), key) {
            assert(rest[0] == json_entries_view(m@)[i as int]);
            return Some(&m[i].1);
        }
        assert(rest.drop_first() =~= json_entries_view(m@).skip(i + 1));
        i = i + 1;
    }
    None
}

/// A JSON string value.
pub fn json_str(s: &str) -> (r: JsonValue)
    ensures
        r@ == Json::Str(s@),
{
    JsonValue::Str(copy_str(s))
}

/// A JSON string value, or `null` when absent.
pub fn json_opt_str(s: &Option<String>) -> (r: JsonValue)
    ensures
        r@ == match s {
            Some(t) => Json::Str(t@),
            None => Json::Null,
        },
{
    match s {
        Some(t) => JsonValue::Str(t.clone()),
        None => JsonValue::Null,
    }
}

} // verus!

verus! {

/// The view of an optional string.
pub open spec fn opt_view(o: Option<String>) -> Option<Seq<char>> {
    match o {
        Some(s) => Some(s@),
        None => None,
    }
}

/// `a.or(b)`.
pub open spec fn or_text(a: Option<Seq<char>>, b: Option<Seq<char>>) -> Option<Seq<char>> {
    if a is Some {
        a
    } else {
        b
    }
}

/// The string a metadata value carries: a string, or the string under `stringValue`,
/// `string_value` or `value` of an object.
pub open spec fn value_string(j: Json) -> Option<Seq<char>>
    decreases j, 0nat,
{
    match j {
        Json::Str(s) => Some(s),
        Json::Object(es) => or_text(
            field_value_string(es, "stringValue"@, 0),
            or_text(field_value_string(es, "string_value"@, 0), field_value_string(es, "value"@, 0)),
        ),
        _ => None,
    }
}

/// `value_string` of the first entry at or after `i` whose key is `key`.
pub open spec fn field_value_string(es: Seq<(Seq<char>, Json)>, key: Seq<char>, i: int) -> Option<
    Seq<char>,
>
    decreases es, es.len() - i,
{
    if i < 0 || i >= es.len() {
        None
    } else if es[i].0 == key {
        value_string(es[i].1)
    } else {
        field_value_string(es, key, i + 1)
    }
}

/// The first string stored under `key` anywhere inside `j`, searching an object's own
/// entry before its values, and values in order.
pub open spec fn nested_string(j: Json, key: Seq<char>) -> Option<Seq<char>>
    decreases j, 0nat,
{
    match j {
        Json::Object(es) => or_text(field_value_string(es, key, 0), entries_nested(es, key, 0)),
        Json::Array(vs) => items_nested(vs, key, 0),
        _ => None,
    }
}

pub open spec fn entries_nested(es: Seq<(Seq<char>, Json)>, key: Seq<char>, i: int) -> Option<
    Seq<char>,
>
    decreases es, es.len() - i,
{
    if i < 0 || i >= es.len() {
        None
    } else {
        or_text(nested_string(es[i].1, key), entries_nested(es, key, i + 1))
    }
}

pub open spec fn items_nested(vs: Seq<Json>, key: Seq<char>, i: int) -> Option<Seq<char>>
    decreases vs, vs.len() - i,
{
    if i < 0 || i >= vs.len() {
        None
    } else {
        or_text(nested_string(vs[i], key), items_nested(vs, key, i + 1))
    }
}

/// The string stored under `key` in the object's entries, directly or nested in a value.
pub open spec fn extra_string(es: Seq<(Seq<char>, Json)>, key: Seq<char>) -> Option<Seq<char>> {
    or_text(field_value_string(es, key, 0), entries_nested(es, key, 0))
}

pub fn value_string_of(j: &JsonValue) -> (r: Option<String>)
    ensures
        opt_view(r) == value_string(j@),
    decreases *j, 0nat,
{
    match j {
        JsonValue::Str(s) => Some(s.clone()),
        JsonValue::Object(es) => {
            proof {
                assert(decreases_to!(*j => (*j)->Object_0));
            }
            match field_value_string_of(es, "stringValue", 0) {
                Some(s) => Some(s),
                None => match field_value_string_of(es, "string_value", 0) {
                    Some(s) => Some(s),
                    None => field_value_string_of(es, "value", 0),
                },
            }
        },
        _ => None,
    }
}

pub fn field_value_string_of(es: &Vec<(String, JsonValue)>, key: &str, i: usize) -> (r: Option<
    String,
>)
    ensures
        opt_view(r) == field_value_string(json_entries_view(es@), key@, i as int),
    decreases *es, es@.len() - i,
{
    proof {
        lemma_json_entries_view_len(es@);
    }
    if i >= es.len() {
        None
    } else {
        proof {
            lemma_json_entries_view_index(es@, i as int);
            assert(decreases_to!(*es => es[i as int]));
            assert(decreases_to!(es[i as int] => es[i as int].1));
        }
        if str_eq(es[i].0.as_str(), key) {
            value_string_of(&es[i].1)
        } else {
            field_value_string_of(es, key, i + 1)
        }
    }
}

pub fn nested_string_of(j: &JsonValue, key: &str) -> (r: Option<String>)
    ensures
        opt_view(r) == nested_string(j@, key@),
    decreases *j, 0nat,
{
    match j {
        JsonValue::Object(es) => {
            proof {
                assert(decreases_to!(*j => (*j)->Object_0));
            }
            match field_value_string_of(es, key, 0) {
                Some(s) => Some(s),
                None => entries_nested_of(es, key, 0),
            }
        },
        JsonValue::Array(vs) => {
            proof {
                assert(decreases_to!(*j => (*j)->Array_0));
            }
            items_nested_of(vs, key, 0)
        },
        _ => None,
    }
}

pub fn entries_nested_of(es: &Vec<(String, JsonValue)>, key: &str, i: usize) -> (r: Option<String>)
    ensures
        opt_view(r) == entries_nested(json_entries_view(es@), key@, i as int),
    decreases *es, es@.len() - i,
{
    proof {
        lemma_json_entries_view_len(es@);
    }
    if i >= es.len() {
        None
    } else {
        proof {
            lemma_json_entries_view_index(es@, i as int);
            assert(decreases_to!(*es => es[i as int]));
            assert(decreases_to!(es[i as int] => es[i as int].1));
        }
        match nested_string_of(&es[i].1, key) {
            Some(s) => Some(s),
            None => entries_nested_of(es, key, i + 1),
        }
    }
}

pub fn items_nested_of(vs: &Vec<JsonValue>, key: &str, i: usize) -> (r: Option<String>)
    ensures
        opt_view(r) == items_nested(json_seq_view(vs@), key@, i as int),
    decreases *vs, vs@.len() - i,
{
    proof {
        lemma_json_seq_view_len(vs@);
    }
    if i >= vs.len() {
        None
    } else {
        proof {
            lemma_json_seq_view_index(vs@, i as int);
            assert(decreases_to!(*vs => vs[i as int]));
        }
        match nested_string_of(&vs[i], key) {
            Some(s) => Some(s),
            None => items_nested_of(vs, key, i + 1),
        }
    }
}

/// The string stored under `key` in the entries, directly or nested in a value.
pub fn extra_string_of(es: &Vec<(String, JsonValue)>, key: &str) -> (r: Option<String>)
    ensures
        opt_view(r) == extra_string(json_entries_view(es@), key@),
{
    match field_value_string_of(es, key, 0) {
        Some(s) => Some(s),
        None => entries_nested_of(es, key, 0),
    }
}

} // verus!

verus! {

/// A JSON `null`, or the string when present.
pub open spec fn opt_str_json(s: Option<String>) -> Json {
    match s {
        Some(t) => Json::Str(t@),
        None => Json::Null,
    }
}

/// Adds an entry at the end of an object's entries.
pub fn push_entry(out: &mut Vec<(String, JsonValue)>, key: &str, value: JsonValue)
    ensures
        json_entries_view(final(out)@) == json_entries_view(old(out)@).push((key@, value@)),
{
    let k = copy_str(key);
    proof {
        lemma_json_entries_view_push(old(out)@, k, value);
    }
    out.push((k, value));
}

/// Appends copies of `entries` to `out`.
pub fn append_entries(out: &mut Vec<(String, JsonValue)>, entries: &Vec<(String, JsonValue)>)
    ensures
        json_entries_view(final(out)@) == json_entries_view(old(out)@) + json_entries_view(
            entries@,
        ),
{
    let mut i: usize = 0;
    while i < entries.len()
        invariant
            i <= entries@.len(),
            json_entries_view(out@) == json_entries_view(old(out)@) + json_entries_view(
                entries@.take(i as int),
            ),
        decreases entries@.len() - i,
    {
        let k = entries[i].0.clone();
        let v = entries[i].1.deep_clone();
        proof {
            lemma_json_entries_view_push(out@, k, v);
            lemma_json_entries_view_push(entries@.take(i as int), entries@[i as int].0, entries@[i as int].1);
            assert(entries@.take(i as int).push((entries@[i as int].0, entries@[i as int].1)) =~= entries@.take(i + 1));
            assert(json_entries_view(out@.push((k, v))) =~= json_entries_view(old(out)@)
                + json_entries_view(entries@.take(i + 1)));
        }
        out.push((k, v));
        i = i + 1;
    }
    assert(entries@.take(entries@.len() as int) =~= entries@);
}

/// A JSON array of strings.
pub fn string_array(values: &Vec<String>) -> (r: JsonValue)
    ensures
        r@ == Json::Array(values@.map_values(|v: String| Json::Str(v@))),
{
    let mut out: Vec<JsonValue> = Vec::new();
    let mut i: usize = 0;
    while i < values.len()
        invariant
            i <= values@.len(),
            json_seq_view(out@) == values@.take(i as int).map_values(|v: String| Json::Str(v@)),
        decreases values@.len() - i,
    {
        let x = JsonValue::Str(values[i].clone());
        proof {
            lemma_json_seq_view_push(out@, x);
            assert(values@.take(i + 1).map_values(|v: String| Json::Str(v@)) =~= values@.take(
                i as int,
            ).map_values(|v: String| Json::Str(v@)).push(Json::Str(values@[i as int]@)));
        }
        out.push(x);
        i = i + 1;
    }
    assert(values@.take(values@.len() as int) =~= values@);
    JsonValue::Array(out)
}

} // verus!

verus! {

/// `std::slice::from_ref` views one value as a slice of length one.
pub assume_specification<T>[ core::slice::from_ref::<T> ](s: &T) -> (r: &[T])
    ensures
        r@ == seq![*s],
;

} // verus!

verus! {

/// A JSON number written in decimal.
pub open spec fn nat_json(n: nat) -> Json {
    Json::Number(decimal(n))
}

/// A JSON number holding `n`.
pub fn number_json(n: u128) -> (r: JsonValue)
    ensures
        r@ == nat_json(n as nat),
{
    JsonValue::Number(decimal_string(n))
}

/// A JSON string value, or `null` when absent.
pub open spec fn opt_text_json(s: Option<Seq<char>>) -> Json {
    match s {
        Some(t) => Json::Str(t),
        None => Json::Null,
    }
}

} // verus!
