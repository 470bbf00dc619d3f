//! The client-facing response envelope and the fixed API bases the typed
//! client speaks to, with verified URL building and a verified reading of
//! the paginated envelope out of a JSON document.

use vstd::prelude::*;
use vstd::string::StrSliceExecFns;
use crate::json::JsonValue;
use crate::json::json_lookup;
use crate::json::json_get;
use crate::json::json_as_u64;
use crate::json::as_u64;
use crate::json::obj_entries;
use crate::json::arr_items;
use crate::url::joined_url;
use crate::url::build_url;

verus! {

/// The paginated envelope of a list response.
#[derive(Debug, Clone, PartialEq)]
pub struct PaginatedResponse<T> {
    /// Total items available server-side.
    pub count: u32,
    /// Opaque continuation reference, absent on the last page.
    pub next: Option<String>,
    /// Opaque continuation reference, absent on the first page.
    pub previous: Option<String>,
    /// The items of this page, in order.
    pub results: Vec<T>,
}

/// The spec-level form of a paginated envelope.
pub ghost struct PaginatedSpec<V> {
    pub count: u32,
    pub next: Option<Seq<char>>,
    pub previous: Option<Seq<char>>,
    pub results: Seq<V>,
}

impl<T: View> View for PaginatedResponse<T> {
    type V = PaginatedSpec<T::V>;

    open spec fn view(&self) -> PaginatedSpec<T::V> {
        PaginatedSpec {
            count: self.count,
            next: match self.next {
                Some(s) => Some(s@),
                None => None,
            },
            previous: match self.previous {
                Some(s) => Some(s@),
                None => None,
            },
            results: Seq::new(self.results@.len(), |i: int| self.results@[i]@),
        }
    }
}

/// An optional string field of a JSON object, as a permissive reader takes
/// it: an absent key or a null reads as nothing, a string as itself, and
/// any other shape refuses the document.
pub open spec fn opt_string_field(
    entries: Seq<(String, JsonValue)>,
    key: Seq<char>,
) -> Option<Option<Seq<char>>> {
    match json_lookup(entries, key) {
        None => Some(None),
        Some(JsonValue::Null) => Some(None),
        Some(JsonValue::Str(s)) => Some(Some(s@)),
        Some(_) => None,
    }
}

/// How a JSON document reads as a paginated envelope, or fails to: it must
/// be an object whose `count` is an unsigned number fitting the counter,
/// whose `results` is an array, and whose `next` and `previous` are absent,
/// null or strings; other keys are passed over.
pub open spec fn paginated_from_json(v: JsonValue) -> Option<PaginatedSpec<JsonValue>> {
    match v {
        JsonValue::Object(entries) => {
            let count = match json_lookup(entries@, "count"@) {
                Some(cv) => json_as_u64(cv),
                None => None,
            };
            let results = match json_lookup(entries@, "results"@) {
                Some(JsonValue::Array(items)) => Some(items@),
                _ => None,
            };
            if count is Some && count->0 <= u32::MAX && results is Some && opt_string_field(
                entries@,
                "next"@,
            ) is Some && opt_string_field(entries@, "previous"@) is Some {
                Some(
                    PaginatedSpec {
                        count: count->0 as u32,
                        next: opt_string_field(entries@, "next"@)->0,
                        previous: opt_string_field(entries@, "previous"@)->0,
                        results: results->0,
                    },
                )
            } else {
                None
            }
        },
        _ => None,
    }
}

fn opt_string_of(entries: &Vec<(String, JsonValue)>, key: &str) -> (r: Option<
    Option<String>,
>)
    ensures
        match r {
            Some(None) => opt_string_field(entries@, key@) == Some(None::<Seq<char>>),
            Some(Some(s)) => opt_string_field(entries@, key@) == Some(Some(s@)),
            None => opt_string_field(entries@, key@) is None,
        },
{
    match json_get(entries, key) {
        None => Some(None),
        Some(v) => match v {
            JsonValue::Null => Some(None),
            JsonValue::Str(s) => Some(Some(s.clone())),
            _ => None,
        },
    }
}

fn json_index_of(entries: &Vec<(String, JsonValue)>, key: &str) -> (r: Option<usize>)
    ensures
        match r {
            Some(j) => j < entries@.len() && json_lookup(entries@, key@) == Some(
                entries@[j as int].1,
            ),
            None => json_lookup(entries@, key@) is None,
        },
{
    let n = entries.len();
    let mut i: usize = 0;
    while i < n
        invariant
            i <= n,
            n == entries@.len(),
            forall|t: int| 0 <= t < i ==> (#[trigger] entries@[t]).0@ != key@,
        decreases n - i,
    {
        if crate::strutil::str_eq(entries[i].0.as_str(), key) {
            proof {
                lemma_json_lookup_prefix(entries@, key@, i as int);
            }
            return Some(i);
        }
        i = i + 1;
    }
    proof {
        lemma_json_lookup_none(entries@, key@);
    }
    None
}

proof fn lemma_json_lookup_prefix(entries: Seq<(String, JsonValue)>, key: Seq<char>, i: int)
    requires
        0 <= i < entries.len(),
        entries[i].0@ == key,
        forall|t: int| 0 <= t < i ==> (#[trigger] entries[t]).0@ != key,
    ensures
        json_lookup(entries, key) == Some(entries[i].1),
    decreases i,
{
    if i > 0 {
        let tail = entries.subrange(1, entries.len() as int);
        lemma_json_lookup_prefix(tail, key, i - 1);
    }
}

proof fn lemma_json_lookup_none(entries: Seq<(String, JsonValue)>, key: Seq<char>)
    requires
        forall|t: int| 0 <= t < entries.len() ==> (#[trigger] entries[t]).0@ != key,
    ensures
        json_lookup(entries, key) is None,
    decreases entries.len(),
{
    if entries.len() > 0 {
        lemma_json_lookup_none(entries.subrange(1, entries.len() as int), key);
    }
}

/// Read a paginated envelope out of a JSON document, as a permissive
/// reader would, taking the page's items over.
pub fn paginated_of_json(v: JsonValue) -> (r: Option<PaginatedResponse<JsonValue>>)
    ensures
        match r {
            Some(p) => paginated_from_json(v) == Some(p@),
            None => paginated_from_json(v) is None,
        },
{
    match v {
        JsonValue::Object(mut entries) => {
            let ghost orig = entries@;
            let count64 = match json_get(&entries, "count") {
                Some(cv) => as_u64(cv),
                None => None,
            };
            let count: u32 = match count64 {
                Some(c) => {
                    if c <= 0xffffffffu64 {
                        c as u32
                    } else {
                        return None;
                    }
                },
                None => {
                    return None;
                },
            };
            let next = match opt_string_of(&entries, "next") {
                Some(n) => n,
                None => {
                    return None;
                },
            };
            let previous = match opt_string_of(&entries, "previous") {
                Some(p) => p,
                None => {
                    return None;
                },
            };
            let j = match json_index_of(&entries, "results") {
                Some(j) => j,
                None => {
                    return None;
                },
            };
            let entry = entries.remove(j);
            let results = match entry.1 {
                JsonValue::Array(items) => items,
                _ => {
                    return None;
                },
            };
            let p = PaginatedResponse { count, next, previous, results };
            proof {
                assert(Seq::new(p.results@.len(), |i: int| p.results@[i]@) =~= p.results@);
            }
            Some(p)
        },
        _ => None,
    }
}

/// Law: the paginated round trip — a document whose `count` reads as an
/// unsigned number that fits the counter, whose `results` is an array, and
/// which leaves `next` and `previous` out, reads back as an envelope with
/// exactly that count, exactly those items in order, and no continuation
/// references.
pub proof fn lemma_paginated_round_trip(v: JsonValue)
    requires
        v is Object,
        json_lookup(obj_entries(v), "next"@) is None,
        json_lookup(obj_entries(v), "previous"@) is None,
        json_lookup(obj_entries(v), "count"@) is Some,
        json_as_u64(json_lookup(obj_entries(v), "count"@)->0) is Some,
        json_as_u64(json_lookup(obj_entries(v), "count"@)->0)->0 <= u32::MAX,
        json_lookup(obj_entries(v), "results"@) is Some,
        json_lookup(obj_entries(v), "results"@)->0 is Array,
    ensures
        paginated_from_json(v) is Some,
        paginated_from_json(v)->0.next is None,
        paginated_from_json(v)->0.previous is None,
        paginated_from_json(v)->0.results == arr_items(
            json_lookup(obj_entries(v), "results"@)->0,
        ),
        paginated_from_json(v)->0.count as u64 == json_as_u64(
            json_lookup(obj_entries(v), "count"@)->0,
        )->0,
{
}

/// The two API bases the typed client speaks to.
#[derive(Debug, Clone, PartialEq, Eq, Structural)]
pub enum SpaceDevsAPIBase {
    SPACENEWS,
    SPACEDATA,
}

impl SpaceDevsAPIBase {
    /// The base URL of the chosen API.
    pub fn base_url(&self) -> (r: &'static str)
        ensures
            match self {
                SpaceDevsAPIBase::SPACENEWS => r@ == "https://api.spaceflightnewsapi.net/v4"@,
                SpaceDevsAPIBase::SPACEDATA => r@ == "https://ll.thespacedevs.com/2.2.0"@,
            },
    {
        match self {
            SpaceDevsAPIBase::SPACENEWS => "https://api.spaceflightnewsapi.net/v4",
            SpaceDevsAPIBase::SPACEDATA => "https://ll.thespacedevs.com/2.2.0",
        }
    }

    /// The full URL of an endpoint under this base: the base, one `/`, and
    /// the endpoint with its leading slashes dropped.
    pub fn endpoint_url(&self, endpoint: &str) -> (r: String)
        ensures
            match self {
                SpaceDevsAPIBase::SPACENEWS => r@ == joined_url(
                    "https://api.spaceflightnewsapi.net/v4"@,
                    endpoint@,
                ),
                SpaceDevsAPIBase::SPACEDATA => r@ == joined_url(
                    "https://ll.thespacedevs.com/2.2.0"@,
                    endpoint@,
                ),
            },
    {
        build_url(self.base_url(), endpoint)
    }
}

} // verus!
