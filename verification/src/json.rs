//! The response-document model: JSON values held as the library's own plain
//! data, with verified object lookup and paginated-envelope reading. The one
//! call that renders a value back to pretty JSON text stands behind a
//! trusted wrapper.

use vstd::prelude::*;
use crate::strutil::str_eq;
use serde_json::Value as SerdeValue;

verus! {

/// A JSON value. Objects keep their entries in the order the reader hands
/// them out; numbers that fit neither `i64` nor `u64` are held as the text
/// the reader renders them to, so no floating point runs through the
/// library.
#[derive(Debug, PartialEq)]
pub enum JsonValue {
    Null,
    Bool(bool),
    Int(i64),
    UInt(u64),
    Float(String),
    Str(String),
    Array(Vec<JsonValue>),
    Object(Vec<(String, JsonValue)>),
}

impl View for JsonValue {
    type V = JsonValue;

    open spec fn view(&self) -> JsonValue {
        *self
    }
}

/// The first entry of a JSON object whose key reads `key`, if any.
pub open spec fn json_lookup(entries: Seq<(String, JsonValue)>, key: Seq<char>) -> Option<
    JsonValue,
>
    decreases entries.len(),
{
    if entries.len() == 0 {
        None
    } else if entries[0].0@ == key {
        Some(entries[0].1)
    } else {
        json_lookup(entries.subrange(1, entries.len() as int), key)
    }
}

proof fn lemma_json_lookup_skip(entries: Seq<(String, JsonValue)>, key: Seq<char>, i: int)
    requires
        0 <= i <= entries.len(),
        forall|t: int| 0 <= t < i ==> (#[trigger] entries[t]).0@ != key,
    ensures
        table_lookup_suffix_eq(entries, key, i),
    decreases i,
{
    if i > 0 {
        let tail = entries.subrange(1, entries.len() as int);
        lemma_json_lookup_skip(tail, key, i - 1);
        assert(tail.subrange(i - 1, tail.len() as int) == entries.subrange(
            i,
            entries.len() as int,
        ));
    } else {
        assert(entries.subrange(0, entries.len() as int) == entries);
    }
}

/// Whether skipping the first `i` entries leaves the lookup unchanged.
pub open spec fn table_lookup_suffix_eq(
    entries: Seq<(String, JsonValue)>,
    key: Seq<char>,
    i: int,
) -> bool {
    json_lookup(entries, key) == json_lookup(entries.subrange(i, entries.len() as int), key)
}

/// Look a key up in a JSON object's entry list; the first match wins.
pub fn json_get<'a>(entries: &'a Vec<(String, JsonValue)>, key: &str) -> (r: Option<
    &'a JsonValue,
>)
    ensures
        match r {
            Some(v) => json_lookup(entries@, key@) == Some(*v),
            None => json_lookup(entries@, key@) is None,
        },
{
    let n = entries.len();
    let mut i: usize = 0;
    while i < n
        invariant
            i <= n,
            n == entries@.len(),
            forall|t: int| 0 <= t < i ==> (#[trigger] entries@[t]).0@ != key@,
        decreases n - i,
    {
        if str_eq(entries[i].0.as_str(), key) {
            proof {
                lemma_json_lookup_skip(entries@, key@, i as int);
                assert(entries@.subrange(i as int, entries@.len() as int)[0] == entries@[i as int]);
            }
            return Some(&entries[i].1);
        }
        i = i + 1;
    }
    proof {
        lemma_json_lookup_skip(entries@, key@, n as int);
    }
    None
}

/// The entries of a JSON object; other values have none.
pub open spec fn obj_entries(v: JsonValue) -> Seq<(String, JsonValue)> {
    match v {
        JsonValue::Object(entries) => entries@,
        _ => Seq::<(String, JsonValue)>::empty(),
    }
}

/// The items of a JSON array; other values have none.
pub open spec fn arr_items(v: JsonValue) -> Seq<JsonValue> {
    match v {
        JsonValue::Array(items) => items@,
        _ => Seq::<JsonValue>::empty(),
    }
}

/// The unsigned reading of a JSON number, as a permissive reader takes it:
/// a non-negative integer or an unsigned integer, nothing else.
pub open spec fn json_as_u64(v: JsonValue) -> Option<u64> {
    match v {
        JsonValue::Int(i) => if i >= 0 {
            Some(i as u64)
        } else {
            None
        },
        JsonValue::UInt(u) => Some(u),
        _ => None,
    }
}

/// Read a JSON number as an unsigned integer.
pub fn as_u64(v: &JsonValue) -> (r: Option<u64>)
    ensures
        r == json_as_u64(*v),
{
    match v {
        JsonValue::Int(i) => {
            if *i >= 0 {
                Some(*i as u64)
            } else {
                None
            }
        },
        JsonValue::UInt(u) => Some(*u),
        _ => None,
    }
}

/// Whether a JSON object carries the paginated envelope's marker keys,
/// `results` and `count`.
pub open spec fn is_paginated_entries(entries: Seq<(String, JsonValue)>) -> bool {
    json_lookup(entries, "results"@) is Some && json_lookup(entries, "count"@) is Some
}

/// Decide whether an object is a paginated envelope.
pub fn is_paginated(entries: &Vec<(String, JsonValue)>) -> (r: bool)
    ensures
        r == is_paginated_entries(entries@),
{
    let has_results = json_get(entries, "results").is_some();
    let has_count = json_get(entries, "count").is_some();
    has_results && has_count
}

/// What pretty-printing a JSON value yields: the printer's result depends
/// on the value alone.
pub uninterp spec fn pretty_json(v: JsonValue) -> Seq<char>;

#[verifier::external_type_specification]
#[verifier::external_body]
pub struct ExSerdeValue(serde_json::Value);

/// Relies on `serde_json::Number`'s text parsing: a held number text is
/// read back as a number; one that does not read is a null.
#[verifier::external_body]
fn serde_number_of_text(t: &str) -> SerdeValue {
    match t.parse::<serde_json::Number>() {
        Ok(n) => SerdeValue::Number(n),
        Err(_) => SerdeValue::Null,
    }
}

/// Relies on `serde_json::Value`'s own shape: each variant is carried over
/// from the matching `JsonValue` variant, one for one.
#[verifier::external_body]
fn serde_of_json(v: &JsonValue) -> SerdeValue {
    match v {
        JsonValue::Null => SerdeValue::Null,
        JsonValue::Bool(b) => SerdeValue::Bool(*b),
        JsonValue::Int(i) => SerdeValue::from(*i),
        JsonValue::UInt(u) => SerdeValue::from(*u),
        JsonValue::Float(t) => serde_number_of_text(t),
        JsonValue::Str(s) => SerdeValue::String(s.clone()),
        JsonValue::Array(a) => SerdeValue::Array(a.iter().map(serde_of_json).collect()),
        JsonValue::Object(o) => SerdeValue::Object(
            o.iter().map(|(k, val)| (k.clone(), serde_of_json(val))).collect(),
        ),
    }
}

/// Relies on `serde_json::to_string_pretty`: a deterministic two-space
/// indented rendering of the value, whose object keys come back sorted.
#[verifier::external_body]
pub(crate) fn to_pretty_string(v: &JsonValue) -> (r: String)
    ensures
        r@ == pretty_json(*v),
{
    match serde_json::to_string_pretty(&serde_of_json(v)) {
        Ok(s) => s,
        Err(_) => String::new(),
    }
}

} // verus!
