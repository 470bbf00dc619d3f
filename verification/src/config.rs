//! The configuration document model: the value shapes a TOML reader yields,
//! held as the library's own plain data, with verified table lookup. The one
//! call into the reader stands behind a trusted wrapper.

use vstd::prelude::*;
use crate::error::ApiError;
use crate::strutil::str_eq;
use toml::Value as TomlValue;

verus! {

/// A configuration value. Tables keep their entries in the order the reader
/// hands them out; floats and datetimes are held as the text the reader
/// renders them to, so no floating point runs through the library.
#[derive(Debug, PartialEq)]
pub enum ConfigValue {
    Str(String),
    Int(i64),
    Float(String),
    Bool(bool),
    Datetime(String),
    Array(Vec<ConfigValue>),
    Table(Vec<(String, ConfigValue)>),
}

/// The first entry of `entries` whose key reads `key`, if any.
pub open spec fn table_lookup(entries: Seq<(String, ConfigValue)>, key: Seq<char>) -> Option<
    ConfigValue,
>
    decreases entries.len(),
{
    if entries.len() == 0 {
        None
    } else if entries[0].0@ == key {
        Some(entries[0].1)
    } else {
        table_lookup(entries.subrange(1, entries.len() as int), key)
    }
}

proof fn lemma_table_lookup_skip(entries: Seq<(String, ConfigValue)>, key: Seq<char>, i: int)
    requires
        0 <= i <= entries.len(),
        forall|t: int| 0 <= t < i ==> (#[trigger] entries[t]).0@ != key,
    ensures
        table_lookup(entries, key) == table_lookup(
            entries.subrange(i, entries.len() as int),
            key,
        ),
    decreases i,
{
    if i > 0 {
        let tail = entries.subrange(1, entries.len() as int);
        lemma_table_lookup_skip(tail, key, i - 1);
        assert(tail.subrange(i - 1, tail.len() as int) == entries.subrange(
            i,
            entries.len() as int,
        ));
    } else {
        assert(entries.subrange(0, entries.len() as int) == entries);
    }
}

/// Look a key up in a table's entry list; the first match wins.
pub fn table_get<'a>(entries: &'a Vec<(String, ConfigValue)>, key: &str) -> (r: Option<
    &'a ConfigValue,
>)
    ensures
        match r {
            Some(v) => table_lookup(entries@, key@) == Some(*v),
            None => table_lookup(entries@, key@) is None,
        },
{
    let n = entries.len();
    let mut i: usize = 0;
    while i < n
        invariant
            i <= n,
            n == entries@.len(),
            forall|t: int| 0 <= t < i ==> (#[trigger] entries@[t]).0@ != key@,
        decreases n - i,
    {
        if str_eq(entries[i].0.as_str(), key) {
            proof {
                lemma_table_lookup_skip(entries@, key@, i as int);
                assert(entries@.subrange(i as int, entries@.len() as int)[0] == entries@[i as int]);
            }
            return Some(&entries[i].1);
        }
        i = i + 1;
    }
    proof {
        lemma_table_lookup_skip(entries@, key@, n as int);
    }
    None
}

/// What parsing a configuration text yields: the reader's result depends on
/// the text alone. `None` stands for a text the reader refuses.
pub uninterp spec fn parsed_config(text: Seq<char>) -> Option<ConfigValue>;

#[verifier::external_type_specification]
#[verifier::external_body]
pub struct ExTomlValue(toml::Value);

/// Relies on `toml::Value`'s own shape: each variant is carried over to the
/// matching `ConfigValue` variant, one for one; floats and datetimes are
/// rendered to text by their `to_string`.
#[verifier::external_body]
fn config_of_toml(v: &TomlValue) -> ConfigValue {
    match v {
        TomlValue::String(s) => ConfigValue::Str(s.clone()),
        TomlValue::Integer(i) => ConfigValue::Int(*i),
        TomlValue::Float(f) => ConfigValue::Float(f.to_string()),
        TomlValue::Boolean(b) => ConfigValue::Bool(*b),
        TomlValue::Datetime(d) => ConfigValue::Datetime(d.to_string()),
        TomlValue::Array(a) => ConfigValue::Array(a.iter().map(config_of_toml).collect()),
        TomlValue::Table(t) => ConfigValue::Table(
            t.iter().map(|(k, val)| (k.clone(), config_of_toml(val))).collect(),
        ),
    }
}

/// Relies on `toml::from_str::<toml::Value>`: a deterministic parse of the
/// text, whose table entries come back sorted by key; a text that is not
/// well-formed TOML is refused with the reader's message.
#[verifier::external_body]
pub(crate) fn parse_config_text(text: &str) -> (r: Result<ConfigValue, ApiError>)
    ensures
        match parsed_config(text@) {
            Some(v) => r == Ok::<ConfigValue, ApiError>(v),
            None => r is Err,
        },
{
    match toml::from_str::<toml::Value>(text) {
        Ok(v) => Ok(config_of_toml(&v)),
        Err(e) => Err(ApiError::ConfigParse(e.to_string())),
    }
}

} // verus!
