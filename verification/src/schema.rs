//! Configuration-driven schemas: endpoint field and query-parameter
//! definitions read from a configuration document at runtime, a manager that
//! stores them by name, query-string building from caller and default
//! parameters, and the pass-through schema application.

use vstd::prelude::*;
use vstd::string::StringExecFns;
use crate::config::ConfigValue;
use crate::config::table_lookup;
use crate::config::table_get;
use crate::config::parse_config_text;
use crate::config::parsed_config;
use crate::error::ApiError;
use crate::json::JsonValue;
use crate::numparse::parsed_i64;
use crate::numparse::is_f64_literal;
use crate::numparse::is_bool_literal;
use crate::numparse::parse_i64;
use crate::numparse::is_f64_lit;
use crate::numparse::is_bool_lit;
use crate::strutil::bool_chars;
use crate::strutil::bool_to_str;
use crate::strutil::contains_seq;
use crate::strutil::contains_sub;
use crate::strutil::dec_int_digits;
use crate::strutil::i64_to_dec;
use crate::strutil::str_eq;
use crate::urlenc::url_encoded;
use crate::urlenc::encode_component;

verus! {

/// A field of a configured endpoint record.
#[derive(Debug, Clone, PartialEq)]
pub struct FieldDefinition {
    /// Name of the field.
    pub name: String,
    /// Declared type name of the field, free text from the configuration.
    pub type_tag: String,
    /// Whether the field is optional.
    pub optional: bool,
}

/// The value a query parameter defaults to. Floats are held as their
/// configuration text, so no floating point runs through the library.
#[derive(Debug, Clone, PartialEq)]
pub enum QueryParamValue {
    Text(String),
    Integer(i64),
    Float(String),
    Boolean(bool),
}

/// A query parameter a configured endpoint accepts.
#[derive(Debug, Clone, PartialEq)]
pub struct QueryParamDefinition {
    /// Name of the parameter.
    pub name: String,
    /// Declared type tag of the parameter.
    pub param_type: String,
    /// Default value, if one is configured.
    pub default: Option<QueryParamValue>,
    /// Human-readable description, if one is configured.
    pub description: Option<String>,
}

/// A complete configured schema for one endpoint.
#[derive(Debug, Clone, PartialEq)]
pub struct Schema {
    /// Name of the schema, equal to the endpoint entry's name.
    pub name: String,
    /// Field definitions, in configuration order.
    pub fields: Vec<FieldDefinition>,
    /// Nested fields: field name to the schema name it resolves against.
    pub nested_fields: Vec<(String, String)>,
    /// Query parameters, keyed by parameter name, in configuration order.
    pub query_params: Vec<(String, QueryParamDefinition)>,
}

/// The spec-level form of a field definition.
pub ghost struct FieldDefSpec {
    pub name: Seq<char>,
    pub type_tag: Seq<char>,
    pub optional: bool,
}

/// The spec-level form of a default value.
pub ghost enum ParamValueSpec {
    Text(Seq<char>),
    Integer(int),
    Float(Seq<char>),
    Boolean(bool),
}

/// The spec-level form of a query parameter definition.
pub ghost struct ParamDefSpec {
    pub name: Seq<char>,
    pub param_type: Seq<char>,
    pub default: Option<ParamValueSpec>,
    pub description: Option<Seq<char>>,
}

/// The spec-level form of a schema.
pub ghost struct SchemaSpec {
    pub name: Seq<char>,
    pub fields: Seq<FieldDefSpec>,
    pub nested_fields: Seq<(Seq<char>, Seq<char>)>,
    pub query_params: Seq<(Seq<char>, ParamDefSpec)>,
}

impl View for FieldDefinition {
    type V = FieldDefSpec;

    open spec fn view(&self) -> FieldDefSpec {
        FieldDefSpec { name: self.name@, type_tag: self.type_tag@, optional: self.optional }
    }
}

impl View for QueryParamValue {
    type V = ParamValueSpec;

    open spec fn view(&self) -> ParamValueSpec {
        match self {
            QueryParamValue::Text(s) => ParamValueSpec::Text(s@),
            QueryParamValue::Integer(i) => ParamValueSpec::Integer(*i as int),
            QueryParamValue::Float(t) => ParamValueSpec::Float(t@),
            QueryParamValue::Boolean(b) => ParamValueSpec::Boolean(*b),
        }
    }
}

impl View for QueryParamDefinition {
    type V = ParamDefSpec;

    open spec fn view(&self) -> ParamDefSpec {
        ParamDefSpec {
            name: self.name@,
            param_type: self.param_type@,
            default: match self.default {
                Some(v) => Some(v@),
                None => None,
            },
            description: match self.description {
                Some(s) => Some(s@),
                None => None,
            },
        }
    }
}

/// The spec-level form of a field list.
pub open spec fn fields_view(s: Seq<FieldDefinition>) -> Seq<FieldDefSpec> {
    Seq::new(s.len(), |i: int| s[i]@)
}

/// The spec-level form of a string-pair list.
pub open spec fn pairs_view(s: Seq<(String, String)>) -> Seq<(Seq<char>, Seq<char>)> {
    Seq::new(s.len(), |i: int| (s[i].0@, s[i].1@))
}

/// The spec-level form of a parameter list.
pub open spec fn params_view(s: Seq<(String, QueryParamDefinition)>) -> Seq<
    (Seq<char>, ParamDefSpec),
> {
    Seq::new(s.len(), |i: int| (s[i].0@, s[i].1@))
}

impl View for Schema {
    type V = SchemaSpec;

    open spec fn view(&self) -> SchemaSpec {
        SchemaSpec {
            name: self.name@,
            fields: fields_view(self.fields@),
            nested_fields: pairs_view(self.nested_fields@),
            query_params: params_view(self.query_params@),
        }
    }
}

/// The first value under `key` in a spec-level keyed sequence, if any.
pub open spec fn slookup<T>(entries: Seq<(Seq<char>, T)>, key: Seq<char>) -> Option<T>
    decreases entries.len(),
{
    if entries.len() == 0 {
        None
    } else if entries[0].0 == key {
        Some(entries[0].1)
    } else {
        slookup(entries.subrange(1, entries.len() as int), key)
    }
}

/// Whether a spec-level keyed sequence holds `key`.
pub open spec fn scontains<T>(entries: Seq<(Seq<char>, T)>, key: Seq<char>) -> bool {
    slookup(entries, key) is Some
}

/// The keyed sequence with the first entry under `key` replaced by `value`,
/// or with `(key, value)` appended when `key` is absent.
pub open spec fn supsert<T>(entries: Seq<(Seq<char>, T)>, key: Seq<char>, value: T) -> Seq<
    (Seq<char>, T),
>
    decreases entries.len(),
{
    if entries.len() == 0 {
        seq![(key, value)]
    } else if entries[0].0 == key {
        seq![(key, value)] + entries.subrange(1, entries.len() as int)
    } else {
        seq![entries[0]] + supsert(entries.subrange(1, entries.len() as int), key, value)
    }
}

/// A manager that holds the loaded schemas, keyed by name.
#[derive(Debug, Clone)]
pub struct SchemaManager {
    /// Loaded schemas, in load order; `keys_distinct` holds of the view of
    /// every manager the library hands out.
    pub schemas: Vec<(String, Schema)>,
}

/// The spec-level form of a named schema list.
pub open spec fn schema_pairs_view(s: Seq<(String, Schema)>) -> Seq<(Seq<char>, SchemaSpec)> {
    Seq::new(s.len(), |i: int| (s[i].0@, s[i].1@))
}

impl View for SchemaManager {
    type V = Seq<(Seq<char>, SchemaSpec)>;

    open spec fn view(&self) -> Seq<(Seq<char>, SchemaSpec)> {
        schema_pairs_view(self.schemas@)
    }
}

impl SchemaManager {
    /// A manager with no schemas loaded.
    pub fn new() -> (r: Self)
        ensures
            r@ == Seq::<(Seq<char>, SchemaSpec)>::empty(),
            keys_distinct(r@),
    {
        let r = SchemaManager { schemas: Vec::new() };
        proof {
            assert(r@ =~= Seq::<(Seq<char>, SchemaSpec)>::empty());
        }
        r
    }

    /// Find a schema by name.
    pub fn get_schema(&self, name: &str) -> (r: Option<&Schema>)
        ensures
            match r {
                Some(s) => slookup(self@, name@) == Some(s@),
                None => slookup(self@, name@) is None,
            },
    {
        let n = self.schemas.len();
        let mut i: usize = 0;
        while i < n
            invariant
                i <= n,
                n == self.schemas@.len(),
                forall|t: int| 0 <= t < i ==> (#[trigger] self.schemas@[t]).0@ != name@,
        decreases n - i,
        {
            if str_eq(self.schemas[i].0.as_str(), name) {
                proof {
                    lemma_slookup_skip(self@, name@, i as int);
                    assert(self@.subrange(i as int, self@.len() as int)[0] == self@[i as int]);
                }
                return Some(&self.schemas[i].1);
            }
            i = i + 1;
        }
        proof {
            lemma_slookup_skip(self@, name@, n as int);
        }
        None
    }

    /// The names of all loaded schemas, in load order; with distinct keys
    /// held, each name comes once.
    pub fn list_schemas(&self) -> (r: Vec<String>)
        ensures
            r@.len() == self@.len(),
            forall|i: int| 0 <= i < r@.len() ==> (#[trigger] r@[i])@ == self@[i].0,
            keys_distinct(self@) ==> forall|a: int, b: int|
                0 <= a < b < r@.len() ==> (#[trigger] r@[a])@ != (#[trigger] r@[b])@,
    {
        let n = self.schemas.len();
        let mut out: Vec<String> = Vec::new();
        let mut i: usize = 0;
        while i < n
            invariant
                i <= n,
                n == self.schemas@.len(),
                out@.len() == i,
                forall|t: int| 0 <= t < i ==> (#[trigger] out@[t])@ == self.schemas@[t].0@,
            decreases n - i,
        {
            out.push(self.schemas[i].0.clone());
            i = i + 1;
        }
        proof {
            if keys_distinct(self@) {
                assert forall|a: int, b: int| 0 <= a < b < out@.len() implies (
                #[trigger] out@[a])@ != (#[trigger] out@[b])@ by {
                    assert(out@[a]@ == self@[a].0);
                    assert(out@[b]@ == self@[b].0);
                    assert(self@[a].0 != self@[b].0);
                }
            }
        }
        out
    }

    fn upsert_schema(&mut self, name: String, schema: Schema)
        ensures
            final(self)@ == supsert(old(self)@, name@, schema@),
    {
        let n = self.schemas.len();
        let mut i: usize = 0;
        while i < n
            invariant
                *self == *old(self),
                i <= n,
                n == self.schemas@.len(),
                forall|t: int| 0 <= t < i ==> (#[trigger] self.schemas@[t]).0@ != name@,
            decreases n - i,
        {
            if str_eq(self.schemas[i].0.as_str(), name.as_str()) {
                self.schemas.set(i, (name, schema));
                proof {
                    lemma_supsert_found(old(self)@, name@, schema@, i as int);
                    assert(self@ =~= supsert(old(self)@, name@, schema@));
                }
                return ;
            }
            i = i + 1;
        }
        self.schemas.push((name, schema));
        proof {
            lemma_supsert_missing(old(self)@, name@, schema@);
            assert(self@ =~= supsert(old(self)@, name@, schema@));
        }
    }
}

proof fn lemma_slookup_skip<T>(entries: Seq<(Seq<char>, T)>, key: Seq<char>, i: int)
    requires
        0 <= i <= entries.len(),
        forall|t: int| 0 <= t < i ==> (#[trigger] entries[t]).0 != key,
    ensures
        slookup(entries, key) == slookup(entries.subrange(i, entries.len() as int), key),
    decreases i,
{
    if i > 0 {
        let tail = entries.subrange(1, entries.len() as int);
        lemma_slookup_skip(tail, key, i - 1);
        assert(tail.subrange(i - 1, tail.len() as int) == entries.subrange(
            i,
            entries.len() as int,
        ));
    } else {
        assert(entries.subrange(0, entries.len() as int) == entries);
    }
}

proof fn lemma_supsert_found<T>(entries: Seq<(Seq<char>, T)>, key: Seq<char>, value: T, i: int)
    requires
        0 <= i < entries.len(),
        entries[i].0 == key,
        forall|t: int| 0 <= t < i ==> (#[trigger] entries[t]).0 != key,
    ensures
        supsert(entries, key, value) == entries.update(i, (key, value)),
    decreases i,
{
    if i == 0 {
        assert(supsert(entries, key, value) == seq![(key, value)] + entries.subrange(
            1,
            entries.len() as int,
        ));
        assert(seq![(key, value)] + entries.subrange(1, entries.len() as int) =~= entries.update(
            0,
            (key, value),
        ));
    } else {
        let tail = entries.subrange(1, entries.len() as int);
        lemma_supsert_found(tail, key, value, i - 1);
        assert(seq![entries[0]] + tail.update(i - 1, (key, value)) =~= entries.update(
            i,
            (key, value),
        ));
    }
}

proof fn lemma_supsert_missing<T>(entries: Seq<(Seq<char>, T)>, key: Seq<char>, value: T)
    requires
        forall|t: int| 0 <= t < entries.len() ==> (#[trigger] entries[t]).0 != key,
    ensures
        supsert(entries, key, value) == entries.push((key, value)),
    decreases entries.len(),
{
    if entries.len() == 0 {
        assert(supsert(entries, key, value) =~= entries.push((key, value)));
    } else {
        let tail = entries.subrange(1, entries.len() as int);
        lemma_supsert_missing(tail, key, value);
        assert(seq![entries[0]] + tail.push((key, value)) =~= entries.push((key, value)));
    }
}

/// The text form a scalar configuration value is read back as; tables,
/// arrays and datetimes have none.
pub open spec fn cfg_text(v: ConfigValue) -> Option<Seq<char>> {
    match v {
        ConfigValue::Str(s) => Some(s@),
        ConfigValue::Int(i) => Some(dec_int_digits(i as int)),
        ConfigValue::Float(t) => Some(t@),
        ConfigValue::Bool(b) => Some(bool_chars(b)),
        _ => None,
    }
}

/// The type tag inferred from a parameter's text: integer, float and
/// boolean forms are tried in that order, anything else is a string.
pub open spec fn inferred_type_chars(vs: Seq<char>) -> Seq<char> {
    if parsed_i64(vs) is Some {
        "i64"@
    } else if is_f64_literal(vs) {
        "f64"@
    } else if is_bool_literal(vs) {
        "bool"@
    } else {
        "String"@
    }
}

/// The default value read from a parameter's text, tried in the same order
/// as the inferred type.
pub open spec fn param_value_spec_of(vs: Seq<char>) -> ParamValueSpec {
    if parsed_i64(vs) is Some {
        ParamValueSpec::Integer(parsed_i64(vs)->0 as int)
    } else if is_f64_literal(vs) {
        ParamValueSpec::Float(vs)
    } else if is_bool_literal(vs) {
        ParamValueSpec::Boolean(vs == "true"@)
    } else {
        ParamValueSpec::Text(vs)
    }
}

/// The field definitions read from a schema table, from entry `i` on:
/// every entry but `nested_fields` whose value is a string becomes a
/// required field with that type tag.
pub open spec fn field_defs_from(sd: Seq<(String, ConfigValue)>, i: int) -> Seq<FieldDefSpec>
    decreases sd.len() - i,
{
    if i < 0 || i >= sd.len() {
        Seq::<FieldDefSpec>::empty()
    } else {
        let rest = field_defs_from(sd, i + 1);
        match sd[i].1 {
            ConfigValue::Str(t) => if sd[i].0@ != "nested_fields"@ {
                seq![FieldDefSpec { name: sd[i].0@, type_tag: t@, optional: false }] + rest
            } else {
                rest
            },
            _ => rest,
        }
    }
}

/// The nested-field entries read from a table, from entry `i` on: every
/// entry whose value is a string maps a field name to a schema name.
pub open spec fn nested_from(nt: Seq<(String, ConfigValue)>, i: int) -> Seq<
    (Seq<char>, Seq<char>),
>
    decreases nt.len() - i,
{
    if i < 0 || i >= nt.len() {
        Seq::<(Seq<char>, Seq<char>)>::empty()
    } else {
        let rest = nested_from(nt, i + 1);
        match nt[i].1 {
            ConfigValue::Str(t) => seq![(nt[i].0@, t@)] + rest,
            _ => rest,
        }
    }
}

/// The nested fields of a schema table: its `nested_fields` sub-table,
/// when that is a table.
pub open spec fn nested_defs_of(sd: Seq<(String, ConfigValue)>) -> Seq<(Seq<char>, Seq<char>)> {
    match table_lookup(sd, "nested_fields"@) {
        Some(ConfigValue::Table(nt)) => nested_from(nt@, 0),
        _ => Seq::<(Seq<char>, Seq<char>)>::empty(),
    }
}

/// The definition read from one `query_params` entry: a scalar of the four
/// kinds becomes a definition whose type is inferred from the value's text
/// and whose default is that value; a table or a bare type tag is read as
/// an explicit definition; any other shape is malformed.
pub open spec fn param_def_read(name: Seq<char>, v: ConfigValue) -> Option<ParamDefSpec> {
    match cfg_text(v) {
        Some(vs) => Some(
            ParamDefSpec {
            name: name,
            param_type: inferred_type_chars(vs),
            default: Some(param_value_spec_of(vs)),
            description: None,
        },
        ),
        None => match v {
            ConfigValue::Table(_) => explicit_param_def_of(name, v),
            _ => None,
        },
    }
}

/// The parameters read from a `query_params` table, from entry `i` on, or
/// the name of the first malformed entry.
pub open spec fn params_read_from(qt: Seq<(String, ConfigValue)>, i: int) -> Result<
    Seq<(Seq<char>, ParamDefSpec)>,
    Seq<char>,
>
    decreases qt.len() - i,
{
    if i < 0 || i >= qt.len() {
        Ok(Seq::<(Seq<char>, ParamDefSpec)>::empty())
    } else {
        match param_def_read(qt[i].0@, qt[i].1) {
            Some(d) => prepend_ok(seq![(qt[i].0@, d)], params_read_from(qt, i + 1)),
            None => Err(qt[i].0@),
        }
    }
}

/// A pair list prepended to the success side of a read, carrying a failure
/// through unchanged.
pub open spec fn prepend_ok<T>(p: Seq<T>, r: Result<Seq<T>, Seq<char>>) -> Result<
    Seq<T>,
    Seq<char>,
> {
    match r {
        Ok(rest) => Ok(p + rest),
        Err(e) => Err(e),
    }
}

proof fn lemma_prepend_ok_assoc<T>(p: Seq<T>, q: Seq<T>, r: Result<Seq<T>, Seq<char>>)
    ensures
        prepend_ok(p, prepend_ok(q, r)) == prepend_ok(p + q, r),
{
    match r {
        Ok(rest) => {
            assert(p + (q + rest) =~= (p + q) + rest);
        },
        Err(_) => {},
    }
}

/// The schema read for a top-level entry `name`: fields and nested fields
/// from the sibling `<name>.schema` table, query parameters from the
/// sibling `<name>.query_params` table — or the name of the first
/// malformed parameter definition.
pub open spec fn schema_spec_of(all: Seq<(String, ConfigValue)>, name: Seq<char>) -> Result<
    SchemaSpec,
    Seq<char>,
> {
    let fields = match table_lookup(all, name + ".schema"@) {
        Some(ConfigValue::Table(sd)) => field_defs_from(sd@, 0),
        _ => Seq::<FieldDefSpec>::empty(),
    };
    let nested = match table_lookup(all, name + ".schema"@) {
        Some(ConfigValue::Table(sd)) => nested_defs_of(sd@),
        _ => Seq::<(Seq<char>, Seq<char>)>::empty(),
    };
    match (match table_lookup(all, name + ".query_params"@) {
        Some(ConfigValue::Table(qt)) => params_read_from(qt@, 0),
        _ => Ok(Seq::<(Seq<char>, ParamDefSpec)>::empty()),
    }) {
        Ok(params) => Ok(
            SchemaSpec { name: name, fields: fields, nested_fields: nested, query_params: params },
        ),
        Err(e) => Err(e),
    }
}

/// The top-level entries the loader passes over: the reserved sections and
/// the sibling sections that are read back with their owning entry.
pub open spec fn skipped_entry(name: Seq<char>) -> bool {
    name == "types"@ || name == "config"@ || contains_seq(name, ".query_params"@) || contains_seq(
        name,
        ".nested_fields"@,
    ) || contains_seq(name, ".schema"@)
}

/// The schemas a document table defines, in entry order from `i` on: one
/// per remaining table-shaped entry — or the name of the first malformed
/// parameter definition.
pub open spec fn planned_from(all: Seq<(String, ConfigValue)>, i: int) -> Result<
    Seq<(Seq<char>, SchemaSpec)>,
    Seq<char>,
>
    decreases all.len() - i,
{
    if i < 0 || i >= all.len() {
        Ok(Seq::<(Seq<char>, SchemaSpec)>::empty())
    } else if !skipped_entry(all[i].0@) && all[i].1 is Table {
        match schema_spec_of(all, all[i].0@) {
            Ok(sp) => prepend_ok(seq![(all[i].0@, sp)], planned_from(all, i + 1)),
            Err(e) => Err(e),
        }
    } else {
        planned_from(all, i + 1)
    }
}

/// Each planned schema stored in turn, overwriting one already held under
/// the same name.
pub open spec fn upsert_all(
    acc: Seq<(Seq<char>, SchemaSpec)>,
    plan: Seq<(Seq<char>, SchemaSpec)>,
    i: int,
) -> Seq<(Seq<char>, SchemaSpec)>
    decreases plan.len() - i,
{
    if i < 0 || i >= plan.len() {
        acc
    } else {
        upsert_all(supsert(acc, plan[i].0, plan[i].1), plan, i + 1)
    }
}

/// The schemas held after loading a whole document into `acc`: a document
/// that is not a table loads nothing; a malformed parameter definition
/// fails the load, naming the parameter, and nothing is stored.
pub open spec fn loaded_schemas(
    acc: Seq<(Seq<char>, SchemaSpec)>,
    doc: ConfigValue,
) -> Result<Seq<(Seq<char>, SchemaSpec)>, Seq<char>> {
    match doc {
        ConfigValue::Table(entries) => match planned_from(entries@, 0) {
            Ok(plan) => Ok(upsert_all(acc, plan, 0)),
            Err(e) => Err(e),
        },
        _ => Ok(acc),
    }
}

/// Whether the keys of a keyed sequence are pairwise distinct.
pub open spec fn keys_distinct<T>(entries: Seq<(Seq<char>, T)>) -> bool {
    forall|a: int, b: int|
        0 <= a < b < entries.len() ==> (#[trigger] entries[a]).0 != (#[trigger] entries[b]).0
}

proof fn lemma_supsert_key_origin<T>(entries: Seq<(Seq<char>, T)>, key: Seq<char>, value: T, j: int)
    requires
        0 <= j < supsert(entries, key, value).len(),
    ensures
        supsert(entries, key, value)[j].0 == key || exists|t: int|
            0 <= t < entries.len() && (#[trigger] entries[t]).0 == supsert(entries, key, value)[j].0,
    decreases entries.len(),
{
    if entries.len() == 0 {
    } else if entries[0].0 == key {
        if j > 0 {
            assert(entries[j].0 == supsert(entries, key, value)[j].0);
        }
    } else {
        if j > 0 {
            let tail = entries.subrange(1, entries.len() as int);
            lemma_supsert_key_origin(tail, key, value, j - 1);
            if supsert(tail, key, value)[j - 1].0 != key {
                let t = choose|t: int|
                    0 <= t < tail.len() && (#[trigger] tail[t]).0 == supsert(
                        tail,
                        key,
                        value,
                    )[j - 1].0;
                assert(entries[t + 1].0 == supsert(entries, key, value)[j].0);
            }
        } else {
            assert(entries[0].0 == supsert(entries, key, value)[0].0);
        }
    }
}

/// Storing under a key keeps the keys pairwise distinct.
proof fn lemma_supsert_distinct<T>(entries: Seq<(Seq<char>, T)>, key: Seq<char>, value: T)
    requires
        keys_distinct(entries),
    ensures
        keys_distinct(supsert(entries, key, value)),
    decreases entries.len(),
{
    let s = supsert(entries, key, value);
    if entries.len() == 0 {
    } else if entries[0].0 == key {
        assert forall|a: int, b: int| 0 <= a < b < s.len() implies (#[trigger] s[a]).0 != (
        #[trigger] s[b]).0 by {
            assert(s[a].0 == entries[a].0);
            assert(s[b].0 == entries[b].0);
        }
    } else {
        let tail = entries.subrange(1, entries.len() as int);
        assert(keys_distinct(tail)) by {
            assert forall|a: int, b: int| 0 <= a < b < tail.len() implies (#[trigger] tail[a]).0
                != (#[trigger] tail[b]).0 by {
                assert(tail[a] == entries[a + 1]);
                assert(tail[b] == entries[b + 1]);
            }
        }
        lemma_supsert_distinct(tail, key, value);
        let st = supsert(tail, key, value);
        assert forall|a: int, b: int| 0 <= a < b < s.len() implies (#[trigger] s[a]).0 != (
        #[trigger] s[b]).0 by {
            if a == 0 {
                assert(s[b].0 == st[b - 1].0);
                lemma_supsert_key_origin(tail, key, value, b - 1);
                if st[b - 1].0 == key {
                } else {
                    let t = choose|t: int|
                        0 <= t < tail.len() && (#[trigger] tail[t]).0 == st[b - 1].0;
                    assert(entries[t + 1].0 == st[b - 1].0);
                }
            } else {
                assert(s[a].0 == st[a - 1].0);
                assert(s[b].0 == st[b - 1].0);
            }
        }
    }
}

/// Storing a whole plan keeps the keys pairwise distinct.
proof fn lemma_upsert_all_distinct(
    acc: Seq<(Seq<char>, SchemaSpec)>,
    plan: Seq<(Seq<char>, SchemaSpec)>,
    i: int,
)
    requires
        keys_distinct(acc),
    ensures
        keys_distinct(upsert_all(acc, plan, i)),
    decreases plan.len() - i,
{
    if 0 <= i < plan.len() {
        lemma_supsert_distinct(acc, plan[i].0, plan[i].1);
        lemma_upsert_all_distinct(supsert(acc, plan[i].0, plan[i].1), plan, i + 1);
    }
}

impl SchemaManager {
    /// The text a scalar configuration value is read back as.
    pub fn toml_value_to_string(value: &ConfigValue) -> (r: Option<String>)
        ensures
            match r {
                Some(s) => cfg_text(*value) == Some(s@),
                None => cfg_text(*value) is None,
            },
    {
        match value {
            ConfigValue::Str(s) => Some(s.clone()),
            ConfigValue::Int(i) => Some(i64_to_dec(*i)),
            ConfigValue::Float(t) => Some(t.clone()),
            ConfigValue::Bool(b) => Some(String::from_str(bool_to_str(*b))),
            _ => None,
        }
    }

    /// Infer a parameter's type tag from its text.
    pub fn infer_param_type(value: &str) -> (r: String)
        ensures
            r@ == inferred_type_chars(value@),
    {
        if parse_i64(value).is_some() {
            String::from_str("i64")
        } else if is_f64_lit(value) {
            String::from_str("f64")
        } else if is_bool_lit(value) {
            String::from_str("bool")
        } else {
            String::from_str("String")
        }
    }

    /// Read a parameter's default value from its text.
    pub fn string_to_param_value(value: &str) -> (r: QueryParamValue)
        ensures
            r@ == param_value_spec_of(value@),
    {
        match parse_i64(value) {
            Some(i) => QueryParamValue::Integer(i),
            None => {
                if is_f64_lit(value) {
                    QueryParamValue::Float(String::from_str(value))
                } else if is_bool_lit(value) {
                    QueryParamValue::Boolean(str_eq(value, "true"))
                } else {
                    QueryParamValue::Text(String::from_str(value))
                }
            },
        }
    }

    fn build_fields(sd: &Vec<(String, ConfigValue)>) -> (r: Vec<FieldDefinition>)
        ensures
            fields_view(r@) == field_defs_from(sd@, 0),
    {
        let m = sd.len();
        let mut out: Vec<FieldDefinition> = Vec::new();
        let mut j: usize = 0;
        while j < m
            invariant
                j <= m,
                m == sd@.len(),
                field_defs_from(sd@, 0) =~= fields_view(out@) + field_defs_from(sd@, j as int),
            decreases m - j,
        {
            let ghost before = out@;
            let keep = !str_eq(sd[j].0.as_str(), "nested_fields");
            match &sd[j].1 {
                ConfigValue::Str(t) => {
                    if keep {
                        out.push(
                            FieldDefinition {
                                name: sd[j].0.clone(),
                                type_tag: t.clone(),
                                optional: false,
                            },
                        );
                        proof {
                            assert(fields_view(out@) =~= fields_view(before) + seq![
                                out@[out@.len() - 1]@,
                            ]);
                        }
                    }
                },
                _ => {},
            }
            proof {
                assert(field_defs_from(sd@, 0) =~= fields_view(out@) + field_defs_from(
                    sd@,
                    j + 1,
                ));
            }
            j = j + 1;
        }
        proof {
            assert(fields_view(out@) + field_defs_from(sd@, m as int) =~= fields_view(out@));
        }
        out
    }

    fn build_nested(sd: &Vec<(String, ConfigValue)>) -> (r: Vec<(String, String)>)
        ensures
            pairs_view(r@) == nested_defs_of(sd@),
    {
        let mut out: Vec<(String, String)> = Vec::new();
        match table_get(sd, "nested_fields") {
            Some(section) => {
                match section {
                    ConfigValue::Table(nt) => {
                        let m = nt.len();
                        let mut j: usize = 0;
                        while j < m
                            invariant
                                j <= m,
                                m == nt@.len(),
                                nested_from(nt@, 0) =~= pairs_view(out@) + nested_from(
                                    nt@,
                                    j as int,
                                ),
                            decreases m - j,
                        {
                            let ghost before = out@;
                            match &nt[j].1 {
                                ConfigValue::Str(t) => {
                                    out.push((nt[j].0.clone(), t.clone()));
                                    proof {
                                        assert(pairs_view(out@) =~= pairs_view(before) + seq![
                                            (
                                                out@[out@.len() - 1].0@,
                                                out@[out@.len() - 1].1@,
                                            ),
                                        ]);
                                    }
                                },
                                _ => {},
                            }
                            proof {
                                assert(nested_from(nt@, 0) =~= pairs_view(out@) + nested_from(
                                    nt@,
                                    j + 1,
                                ));
                            }
                            j = j + 1;
                        }
                        proof {
                            assert(pairs_view(out@) + nested_from(nt@, m as int) =~= pairs_view(
                                out@,
                            ));
                        }
                    },
                    _ => {
                        proof {
                            assert(pairs_view(out@) =~= Seq::<(Seq<char>, Seq<char>)>::empty());
                        }
                    },
                }
            },
            None => {
                proof {
                    assert(pairs_view(out@) =~= Seq::<(Seq<char>, Seq<char>)>::empty());
                }
            },
        }
        out
    }

    fn build_params(qt: &Vec<(String, ConfigValue)>) -> (r: Result<
        Vec<(String, QueryParamDefinition)>,
        ApiError,
    >)
        ensures
            match r {
                Ok(v) => params_read_from(qt@, 0) == Ok::<Seq<(Seq<char>, ParamDefSpec)>, Seq<char>>(
                    params_view(v@),
                ),
                Err(e) => params_read_from(qt@, 0) matches Err(en) && (
                e matches ApiError::InvalidQueryParam(n) && n@ == en),
            },
    {
        let m = qt.len();
        let mut out: Vec<(String, QueryParamDefinition)> = Vec::new();
        proof {
            assert(params_view(out@) =~= Seq::<(Seq<char>, ParamDefSpec)>::empty());
            lemma_prepend_ok_empty(params_read_from(qt@, 0));
        }
        let mut j: usize = 0;
        while j < m
            invariant
                j <= m,
                m == qt@.len(),
                params_read_from(qt@, 0) == prepend_ok(
                    params_view(out@),
                    params_read_from(qt@, j as int),
                ),
            decreases m - j,
        {
            let ghost before = out@;
            let def = match Self::toml_value_to_string(&qt[j].1) {
                Some(vs) => QueryParamDefinition {
                    name: qt[j].0.clone(),
                    param_type: Self::infer_param_type(vs.as_str()),
                    default: Some(Self::string_to_param_value(vs.as_str())),
                    description: None,
                },
                None => {
                    match &qt[j].1 {
                        ConfigValue::Table(_) => {
                            match Self::read_explicit_param(qt[j].0.as_str(), &qt[j].1) {
                                Ok(d) => d,
                                Err(e) => {
                                    // a table always reads as a definition
                                    proof {
                                        assert(false);
                                    }
                                    return Err(e);
                                },
                            }
                        },
                        _ => {
                            proof {
                                assert(params_read_from(qt@, j as int) == Err::<
                                    Seq<(Seq<char>, ParamDefSpec)>,
                                    Seq<char>,
                                >(qt@[j as int].0@));
                            }
                            return Err(ApiError::InvalidQueryParam(qt[j].0.clone()));
                        },
                    }
                },
            };
            proof {
                assert(param_def_read(qt@[j as int].0@, qt@[j as int].1) == Some(def@));
            }
            out.push((qt[j].0.clone(), def));
            proof {
                assert(params_view(out@) =~= params_view(before) + seq![
                    (out@[out@.len() - 1].0@, out@[out@.len() - 1].1@),
                ]);
                lemma_prepend_ok_assoc(
                    params_view(before),
                    seq![(out@[out@.len() - 1].0@, out@[out@.len() - 1].1@)],
                    params_read_from(qt@, j + 1),
                );
            }
            j = j + 1;
        }
        proof {
            match params_read_from(qt@, m as int) {
                Ok(rest) => {
                    assert(params_view(out@) + rest =~= params_view(out@));
                },
                Err(_) => {},
            }
        }
        Ok(out)
    }

    fn build_schema(all: &Vec<(String, ConfigValue)>, name: &String) -> (r: Result<
        Schema,
        ApiError,
    >)
        ensures
            match r {
                Ok(s) => schema_spec_of(all@, name@) == Ok::<SchemaSpec, Seq<char>>(s@),
                Err(e) => schema_spec_of(all@, name@) matches Err(en) && (
                e matches ApiError::InvalidQueryParam(n) && n@ == en),
            },
    {
        let mut skey = name.clone();
        skey.append(".schema");
        proof {
            reveal_strlit(".schema");
        }
        let mut fields: Vec<FieldDefinition> = Vec::new();
        let mut nested: Vec<(String, String)> = Vec::new();
        match table_get(all, skey.as_str()) {
            Some(section) => {
                match section {
                    ConfigValue::Table(sd) => {
                        fields = Self::build_fields(sd);
                        nested = Self::build_nested(sd);
                    },
                    _ => {},
                }
            },
            None => {},
        }
        let mut qkey = name.clone();
        qkey.append(".query_params");
        proof {
            reveal_strlit(".query_params");
        }
        let mut params: Vec<(String, QueryParamDefinition)> = Vec::new();
        match table_get(all, qkey.as_str()) {
            Some(section) => {
                match section {
                    ConfigValue::Table(qt) => {
                        match Self::build_params(qt) {
                            Ok(p) => {
                                params = p;
                            },
                            Err(e) => {
                                return Err(e);
                            },
                        }
                    },
                    _ => {},
                }
            },
            None => {},
        }
        let r = Schema { name: name.clone(), fields, nested_fields: nested, query_params: params };
        proof {
            assert(fields_view(Seq::<FieldDefinition>::empty()) =~= Seq::<
                FieldDefSpec,
            >::empty());
            assert(pairs_view(Seq::<(String, String)>::empty()) =~= Seq::<
                (Seq<char>, Seq<char>),
            >::empty());
            assert(params_view(Seq::<(String, QueryParamDefinition)>::empty()) =~= Seq::<
                (Seq<char>, ParamDefSpec),
            >::empty());
        }
        Ok(r)
    }

    /// Load every schema a configuration document defines, overwriting
    /// schemas already held under the same names. A document that is not a
    /// table loads nothing. A malformed query-parameter definition fails
    /// the load with an error naming the parameter, and the manager is
    /// left unchanged.
    pub fn load_from_toml_value(&mut self, config: &ConfigValue) -> (r: Result<(), ApiError>)
        ensures
            match loaded_schemas(old(self)@, *config) {
                Ok(m) => r is Ok && final(self)@ == m,
                Err(en) => final(self)@ == old(self)@ && (r matches Err(e)
                    && e matches ApiError::InvalidQueryParam(n) && n@ == en),
            },
            keys_distinct(old(self)@) ==> keys_distinct(final(self)@),
    {
        match config {
            ConfigValue::Table(entries) => {
                let n = entries.len();
                let mut planned: Vec<(String, Schema)> = Vec::new();
                proof {
                    assert(schema_pairs_view(planned@) =~= Seq::<
                        (Seq<char>, SchemaSpec),
                    >::empty());
                    lemma_prepend_ok_empty(planned_from(entries@, 0));
                }
                let mut i: usize = 0;
                while i < n
                    invariant
                        i <= n,
                        n == entries@.len(),
                        *self == *old(self),
                        planned_from(entries@, 0) == prepend_ok(
                            schema_pairs_view(planned@),
                            planned_from(entries@, i as int),
                        ),
                        loaded_schemas(old(self)@, *config) == (match planned_from(
                            entries@,
                            0,
                        ) {
                            Ok(p) => Ok::<Seq<(Seq<char>, SchemaSpec)>, Seq<char>>(
                                upsert_all(old(self)@, p, 0),
                            ),
                            Err(e) => Err::<Seq<(Seq<char>, SchemaSpec)>, Seq<char>>(e),
                        }),
                    decreases n - i,
                {
                    let name = &entries[i].0;
                    let skip = str_eq(name.as_str(), "types") || str_eq(name.as_str(), "config")
                        || contains_sub(name.as_str(), ".query_params") || contains_sub(
                        name.as_str(),
                        ".nested_fields",
                    ) || contains_sub(name.as_str(), ".schema");
                    proof {
                        reveal_strlit("types");
                        reveal_strlit("config");
                        reveal_strlit(".query_params");
                        reveal_strlit(".nested_fields");
                        reveal_strlit(".schema");
                    }
                    let is_table = matches!(&entries[i].1, ConfigValue::Table(_));
                    if !skip && is_table {
                        let ghost before = planned@;
                        match Self::build_schema(entries, name) {
                            Ok(schema) => {
                                planned.push((name.clone(), schema));
                                proof {
                                    assert(schema_pairs_view(planned@) =~= schema_pairs_view(
                                        before,
                                    ) + seq![
                                        (
                                            planned@[planned@.len() - 1].0@,
                                            planned@[planned@.len() - 1].1@,
                                        ),
                                    ]);
                                    lemma_prepend_ok_assoc(
                                        schema_pairs_view(before),
                                        seq![
                                            (
                                                planned@[planned@.len() - 1].0@,
                                                planned@[planned@.len() - 1].1@,
                                            ),
                                        ],
                                        planned_from(entries@, i + 1),
                                    );
                                }
                            },
                            Err(e) => {
                                proof {
                                    let pf = planned_from(entries@, i as int);
                                    assert(pf is Err);
                                    match pf {
                                        Err(x) => {
                                            assert(prepend_ok(schema_pairs_view(planned@), pf)
                                                == Err::<Seq<(Seq<char>, SchemaSpec)>, Seq<char>>(
                                                x,
                                            ));
                                        },
                                        Ok(_) => {},
                                    }
                                    assert(planned_from(entries@, 0) is Err);
                                    assert(loaded_schemas(old(self)@, *config) is Err);
                                }
                                return Err(e);
                            },
                        }
                    }
                    i = i + 1;
                }
                let ghost plan0 = schema_pairs_view(planned@);
                proof {
                    match planned_from(entries@, n as int) {
                        Ok(rest) => {
                            assert(plan0 + rest =~= plan0);
                        },
                        Err(_) => {},
                    }
                    assert(planned_from(entries@, 0) == Ok::<
                        Seq<(Seq<char>, SchemaSpec)>,
                        Seq<char>,
                    >(plan0));
                    assert(plan0.subrange(0, plan0.len() as int) == plan0);
                }
                let total = planned.len();
                let mut k: usize = 0;
                while k < total
                    invariant
                        k <= total,
                        total == plan0.len(),
                        planned@.len() == total - k,
                        schema_pairs_view(planned@) == plan0.subrange(
                            k as int,
                            plan0.len() as int,
                        ),
                        upsert_all(old(self)@, plan0, 0) == upsert_all(self@, plan0, k as int),
                    decreases total - k,
                {
                    let ghost before = planned@;
                    let entry = planned.remove(0);
                    let ghost ekey = entry.0@;
                    let ghost eschema = entry.1@;
                    let ghost prev = self@;
                    proof {
                        assert(schema_pairs_view(before)[0] == (ekey, eschema));
                        assert(plan0.subrange(k as int, plan0.len() as int)[0] == plan0[k as int]);
                        assert(plan0[k as int] == (ekey, eschema));
                        assert(planned@ =~= before.subrange(1, before.len() as int));
                        assert forall|t: int|
                            0 <= t < planned@.len() implies #[trigger] schema_pairs_view(
                            planned@,
                        )[t] == plan0.subrange(k + 1, plan0.len() as int)[t] by {
                            assert(planned@[t] == before[t + 1]);
                            assert(schema_pairs_view(planned@)[t] == (
                                planned@[t].0@,
                                planned@[t].1@,
                            ));
                            assert(schema_pairs_view(before)[t + 1] == (
                                before[t + 1].0@,
                                before[t + 1].1@,
                            ));
                            assert(schema_pairs_view(before)[t + 1] == plan0.subrange(
                                k as int,
                                plan0.len() as int,
                            )[t + 1]);
                        }
                        assert(schema_pairs_view(planned@) =~= plan0.subrange(
                            k + 1,
                            plan0.len() as int,
                        ));
                    }
                    self.upsert_schema(entry.0, entry.1);
                    proof {
                        assert(self@ == supsert(prev, ekey, eschema));
                        assert(upsert_all(prev, plan0, k as int) == upsert_all(
                            self@,
                            plan0,
                            k + 1,
                        ));
                    }
                    k = k + 1;
                }
                proof {
                    assert(upsert_all(self@, plan0, plan0.len() as int) == self@);
                    if keys_distinct(old(self)@) {
                        lemma_upsert_all_distinct(old(self)@, plan0, 0);
                    }
                }
                Ok(())
            },
            _ => Ok(()),
        }
    }

    /// Parse a configuration text and load every schema it defines. A text
    /// that is not well-formed TOML, or a malformed query-parameter
    /// definition, fails the load and leaves the manager unchanged.
    pub fn load_from_str(&mut self, text: &str) -> (r: Result<(), ApiError>)
        ensures
            match parsed_config(text@) {
                Some(doc) => match loaded_schemas(old(self)@, doc) {
                    Ok(m) => r is Ok && final(self)@ == m,
                    Err(en) => final(self)@ == old(self)@ && (r matches Err(e)
                        && e matches ApiError::InvalidQueryParam(n) && n@ == en),
                },
                None => r is Err && final(self)@ == old(self)@,
            },
            keys_distinct(old(self)@) ==> keys_distinct(final(self)@),
    {
        match parse_config_text(text) {
            Ok(doc) => self.load_from_toml_value(&doc),
            Err(e) => Err(e),
        }
    }
}

proof fn lemma_prepend_ok_empty<T>(r: Result<Seq<T>, Seq<char>>)
    ensures
        prepend_ok(Seq::<T>::empty(), r) == r,
{
    match r {
        Ok(rest) => {
            assert(Seq::<T>::empty() + rest =~= rest);
        },
        Err(_) => {},
    }
}

/// The text a parameter value is written as in a query string.
pub open spec fn param_value_chars(v: ParamValueSpec) -> Seq<char> {
    match v {
        ParamValueSpec::Text(s) => s,
        ParamValueSpec::Integer(i) => dec_int_digits(i),
        ParamValueSpec::Float(t) => t,
        ParamValueSpec::Boolean(b) => bool_chars(b),
    }
}

impl QueryParamValue {
    /// The value's text form, as it is written into a query string.
    pub fn to_string(&self) -> (r: String)
        ensures
            r@ == param_value_chars(self@),
    {
        match self {
            QueryParamValue::Text(s) => s.clone(),
            QueryParamValue::Integer(i) => i64_to_dec(*i),
            QueryParamValue::Float(t) => t.clone(),
            QueryParamValue::Boolean(b) => String::from_str(bool_to_str(*b)),
        }
    }
}

/// Whether the caller's parameter list holds `key`.
pub open spec fn params_contains(params: Seq<(String, String)>, key: Seq<char>) -> bool {
    exists|i: int| 0 <= i < params.len() && (#[trigger] params[i]).0@ == key
}

/// The key/encoded-value pairs contributed by the caller, from entry `i`
/// on: each supplied parameter the schema declares, with its value
/// percent-encoded; undeclared keys are dropped.
pub open spec fn provided_kv_from(
    schema: SchemaSpec,
    params: Seq<(String, String)>,
    i: int,
) -> Seq<(Seq<char>, Seq<char>)>
    decreases params.len() - i,
{
    if i < 0 || i >= params.len() {
        Seq::<(Seq<char>, Seq<char>)>::empty()
    } else {
        let rest = provided_kv_from(schema, params, i + 1);
        if scontains(schema.query_params, params[i].0@) {
            seq![(params[i].0@, url_encoded(params[i].1@))] + rest
        } else {
            rest
        }
    }
}

/// The key/encoded-value pairs contributed by defaults, from declared
/// parameter `i` on: each declared parameter the caller did not supply
/// whose definition carries a default.
pub open spec fn default_kv_from(
    schema: SchemaSpec,
    params: Seq<(String, String)>,
    i: int,
) -> Seq<(Seq<char>, Seq<char>)>
    decreases schema.query_params.len() - i,
{
    if i < 0 || i >= schema.query_params.len() {
        Seq::<(Seq<char>, Seq<char>)>::empty()
    } else {
        let rest = default_kv_from(schema, params, i + 1);
        let entry = schema.query_params[i];
        if !params_contains(params, entry.0) && entry.1.default is Some {
            seq![(entry.0, url_encoded(param_value_chars(entry.1.default->0)))] + rest
        } else {
            rest
        }
    }
}

/// Every key/encoded-value pair of the query string: the caller's declared
/// pairs, then the defaults for declared parameters the caller left out.
pub open spec fn query_kv(schema: SchemaSpec, params: Seq<(String, String)>) -> Seq<
    (Seq<char>, Seq<char>),
> {
    provided_kv_from(schema, params, 0) + default_kv_from(schema, params, 0)
}

/// One pair written out: the key, `=`, the encoded value.
pub open spec fn pair_chars(kv: (Seq<char>, Seq<char>)) -> Seq<char> {
    kv.0 + "="@ + kv.1
}

/// The pairs from `i` on, each written after a `&`.
pub open spec fn amp_join_from(kvs: Seq<(Seq<char>, Seq<char>)>, i: int) -> Seq<char>
    decreases kvs.len() - i,
{
    if i < 0 || i >= kvs.len() {
        Seq::<char>::empty()
    } else {
        "&"@ + pair_chars(kvs[i]) + amp_join_from(kvs, i + 1)
    }
}

/// The whole query string: empty without pairs, else `?`, the first pair,
/// and each further pair after a `&`.
pub open spec fn query_string_chars(schema: SchemaSpec, params: Seq<(String, String)>) -> Seq<
    char,
> {
    let kvs = query_kv(schema, params);
    if kvs.len() == 0 {
        Seq::<char>::empty()
    } else {
        "?"@ + pair_chars(kvs[0]) + amp_join_from(kvs, 1)
    }
}

/// What applying a schema yields: the data unchanged when the schema is
/// loaded, nothing when it is not.
pub open spec fn apply_schema_spec(
    schemas: Seq<(Seq<char>, SchemaSpec)>,
    name: Seq<char>,
    data: JsonValue,
) -> Option<JsonValue> {
    if scontains(schemas, name) {
        Some(data)
    } else {
        None
    }
}

fn params_has_key(params: &Vec<(String, String)>, key: &str) -> (r: bool)
    ensures
        r == params_contains(params@, key@),
{
    let n = params.len();
    let mut i: usize = 0;
    while i < n
        invariant
            i <= n,
            n == params@.len(),
            forall|t: int| 0 <= t < i ==> (#[trigger] params@[t]).0@ != key@,
        decreases n - i,
    {
        if str_eq(params[i].0.as_str(), key) {
            return true;
        }
        i = i + 1;
    }
    false
}

fn param_declared(defs: &Vec<(String, QueryParamDefinition)>, key: &str) -> (r: bool)
    ensures
        r == scontains(params_view(defs@), key@),
{
    let n = defs.len();
    let mut i: usize = 0;
    while i < n
        invariant
            i <= n,
            n == defs@.len(),
            forall|t: int| 0 <= t < i ==> (#[trigger] defs@[t]).0@ != key@,
        decreases n - i,
    {
        if str_eq(defs[i].0.as_str(), key) {
            proof {
                lemma_slookup_skip(params_view(defs@), key@, i as int);
                assert(params_view(defs@).subrange(i as int, defs@.len() as int)[0]
                    == params_view(defs@)[i as int]);
            }
            return true;
        }
        i = i + 1;
    }
    proof {
        lemma_slookup_skip(params_view(defs@), key@, n as int);
    }
    false
}

/// The spec-level form of a built pair list.
pub open spec fn strs_view(s: Seq<String>) -> Seq<Seq<char>> {
    Seq::new(s.len(), |i: int| s[i]@)
}

impl SchemaManager {
    /// Build the query string for a schema: every supplied parameter the
    /// schema declares, percent-encoded, then a default for every declared
    /// parameter the caller left out; empty when no pair results, else
    /// written after a `?` and joined with `&`. Fails exactly when the
    /// schema is not loaded.
    pub fn build_query_string(&self, schema_name: &str, params: &Vec<(String, String)>) -> (r:
        Result<String, ApiError>)
        ensures
            match r {
                Ok(s) => scontains(self@, schema_name@) && s@ == query_string_chars(
                    slookup(self@, schema_name@)->0,
                    params@,
                ),
                Err(e) => !scontains(self@, schema_name@) && (e matches ApiError::SchemaNotFound(
                    n,
                ) && n@ == schema_name@),
            },
    {
        let schema = match self.get_schema(schema_name) {
            Some(s) => s,
            None => {
                return Err(ApiError::SchemaNotFound(String::from_str(schema_name)));
            },
        };
        let ghost sv = schema@;
        let n = params.len();
        let mut kvs: Vec<String> = Vec::new();
        let ghost mut kv_spec = Seq::<(Seq<char>, Seq<char>)>::empty();
        let mut i: usize = 0;
        while i < n
            invariant
                i <= n,
                n == params@.len(),
                sv == schema@,
                kvs@.len() == kv_spec.len(),
                forall|t: int| 0 <= t < kv_spec.len() ==> (#[trigger] kvs@[t])@ == pair_chars(
                    kv_spec[t],
                ),
                provided_kv_from(sv, params@, 0) =~= kv_spec + provided_kv_from(
                    sv,
                    params@,
                    i as int,
                ),
            decreases n - i,
        {
            if param_declared(&schema.query_params, params[i].0.as_str()) {
                let mut pair = params[i].0.clone();
                pair.append("=");
                let encoded = encode_component(params[i].1.as_str());
                pair.append(encoded.as_str());
                proof {
                    reveal_strlit("=");
                    kv_spec = kv_spec.push((params@[i as int].0@, url_encoded(params@[i as int].1@)));
                }
                kvs.push(pair);
                proof {
                    assert(provided_kv_from(sv, params@, 0) =~= kv_spec + provided_kv_from(
                        sv,
                        params@,
                        i + 1,
                    ));
                }
            } else {
                proof {
                    assert(provided_kv_from(sv, params@, 0) =~= kv_spec + provided_kv_from(
                        sv,
                        params@,
                        i + 1,
                    ));
                }
            }
            i = i + 1;
        }
        let ghost provided = kv_spec;
        proof {
            assert(provided =~= provided_kv_from(sv, params@, 0));
        }
        let m = schema.query_params.len();
        let mut j: usize = 0;
        while j < m
            invariant
                j <= m,
                m == schema.query_params@.len(),
                sv == schema@,
                kvs@.len() == kv_spec.len(),
                forall|t: int| 0 <= t < kv_spec.len() ==> (#[trigger] kvs@[t])@ == pair_chars(
                    kv_spec[t],
                ),
                provided == provided_kv_from(sv, params@, 0),
                provided + default_kv_from(sv, params@, 0) =~= kv_spec + default_kv_from(
                    sv,
                    params@,
                    j as int,
                ),
            decreases m - j,
        {
            let entry_key = &schema.query_params[j].0;
            let supplied = params_has_key(params, entry_key.as_str());
            let has_default = schema.query_params[j].1.default.is_some();
            if !supplied && has_default {
                let mut pair = entry_key.clone();
                pair.append("=");
                let value_text = match &schema.query_params[j].1.default {
                    Some(v) => v.to_string(),
                    None => String::new(),
                };
                let encoded = encode_component(value_text.as_str());
                pair.append(encoded.as_str());
                proof {
                    reveal_strlit("=");
                    assert(sv.query_params[j as int] == (
                        schema.query_params@[j as int].0@,
                        schema.query_params@[j as int].1@,
                    ));
                    kv_spec = kv_spec.push(
                        (
                            sv.query_params[j as int].0,
                            url_encoded(param_value_chars(sv.query_params[j as int].1.default->0)),
                        ),
                    );
                }
                kvs.push(pair);
                proof {
                    assert(provided + default_kv_from(sv, params@, 0) =~= kv_spec
                        + default_kv_from(sv, params@, j + 1));
                }
            } else {
                proof {
                    assert(sv.query_params[j as int] == (
                        schema.query_params@[j as int].0@,
                        schema.query_params@[j as int].1@,
                    ));
                    assert(provided + default_kv_from(sv, params@, 0) =~= kv_spec
                        + default_kv_from(sv, params@, j + 1));
                }
            }
            j = j + 1;
        }
        proof {
            assert(kv_spec =~= query_kv(sv, params@));
        }
        let count = kvs.len();
        if count == 0 {
            return Ok(String::new());
        }
        let mut out = String::from_str("?");
        proof {
            reveal_strlit("?");
        }
        out.append(kvs[0].as_str());
        let mut k: usize = 1;
        while k < count
            invariant
                1 <= k <= count,
                count == kvs@.len(),
                kvs@.len() == kv_spec.len(),
                forall|t: int| 0 <= t < kv_spec.len() ==> (#[trigger] kvs@[t])@ == pair_chars(
                    kv_spec[t],
                ),
                out@ + amp_join_from(kv_spec, k as int) == "?"@ + pair_chars(kv_spec[0])
                    + amp_join_from(kv_spec, 1),
            decreases count - k,
        {
            out.append("&");
            proof {
                reveal_strlit("&");
            }
            out.append(kvs[k].as_str());
            k = k + 1;
        }
        Ok(out)
    }

    /// Apply a schema to response data. Looking the schema up fails exactly
    /// when it is not loaded; the data itself — every key and value of an
    /// object, and any non-object as a whole — passes through unchanged.
    pub fn apply_schema(&self, schema_name: &str, data: JsonValue) -> (r: Result<
        JsonValue,
        ApiError,
    >)
        ensures
            match r {
                Ok(v) => apply_schema_spec(self@, schema_name@, data) == Some(v) && v == data,
                Err(e) => apply_schema_spec(self@, schema_name@, data) is None && (
                e matches ApiError::SchemaNotFound(n) && n@ == schema_name@),
            },
    {
        match self.get_schema(schema_name) {
            Some(_) => Ok(data),
            None => Err(ApiError::SchemaNotFound(String::from_str(schema_name))),
        }
    }
}

/// The default value read from an explicit `default` key: scalars keep
/// their kind, datetimes their text; shapes with no text read as empty.
pub open spec fn explicit_default_of(v: ConfigValue) -> ParamValueSpec {
    match v {
        ConfigValue::Str(s) => ParamValueSpec::Text(s@),
        ConfigValue::Int(i) => ParamValueSpec::Integer(i as int),
        ConfigValue::Float(t) => ParamValueSpec::Float(t@),
        ConfigValue::Bool(b) => ParamValueSpec::Boolean(b),
        ConfigValue::Datetime(t) => ParamValueSpec::Text(t@),
        _ => ParamValueSpec::Text(Seq::<char>::empty()),
    }
}

/// What an explicit query parameter definition reads as: a table carries a
/// `type` tag (`String` when absent), an optional `default` and an optional
/// `description`; a bare string is the type tag alone; anything else is
/// refused.
pub open spec fn explicit_param_def_of(name: Seq<char>, v: ConfigValue) -> Option<ParamDefSpec> {
    match v {
        ConfigValue::Table(t) => Some(
            ParamDefSpec {
                name: name,
                param_type: match table_lookup(t@, "type"@) {
                    Some(ConfigValue::Str(s)) => s@,
                    _ => "String"@,
                },
                default: match table_lookup(t@, "default"@) {
                    Some(dv) => Some(explicit_default_of(dv)),
                    None => None,
                },
                description: match table_lookup(t@, "description"@) {
                    Some(ConfigValue::Str(s)) => Some(s@),
                    _ => None,
                },
            },
        ),
        ConfigValue::Str(s) => Some(
            ParamDefSpec { name: name, param_type: s@, default: None, description: None },
        ),
        _ => None,
    }
}

impl SchemaManager {
    /// Read an explicit query parameter definition: a table with `type`,
    /// optional `default` and optional `description`, or a bare type tag.
    pub fn parse_query_param_definition(&self, name: &str, value: &ConfigValue) -> (r: Result<
        QueryParamDefinition,
        ApiError,
    >)
        ensures
            match r {
                Ok(d) => explicit_param_def_of(name@, *value) == Some(d@),
                Err(e) => explicit_param_def_of(name@, *value) is None && (
                e matches ApiError::InvalidQueryParam(n) && n@ == name@),
            },
    {
        Self::read_explicit_param(name, value)
    }

    fn read_explicit_param(name: &str, value: &ConfigValue) -> (r: Result<
        QueryParamDefinition,
        ApiError,
    >)
        ensures
            match r {
                Ok(d) => explicit_param_def_of(name@, *value) == Some(d@),
                Err(e) => explicit_param_def_of(name@, *value) is None && (
                e matches ApiError::InvalidQueryParam(n) && n@ == name@),
            },
    {
        match value {
            ConfigValue::Table(t) => {
                let param_type = match table_get(t, "type") {
                    Some(v) => match v {
                        ConfigValue::Str(s) => s.clone(),
                        _ => String::from_str("String"),
                    },
                    None => String::from_str("String"),
                };
                let default = match table_get(t, "default") {
                    Some(dv) => Some(
                        match dv {
                            ConfigValue::Str(s) => QueryParamValue::Text(s.clone()),
                            ConfigValue::Int(i) => QueryParamValue::Integer(*i),
                            ConfigValue::Float(ft) => QueryParamValue::Float(ft.clone()),
                            ConfigValue::Bool(b) => QueryParamValue::Boolean(*b),
                            ConfigValue::Datetime(dt) => QueryParamValue::Text(dt.clone()),
                            _ => QueryParamValue::Text(String::new()),
                        },
                    ),
                    None => None,
                };
                let description = match table_get(t, "description") {
                    Some(v) => match v {
                        ConfigValue::Str(s) => Some(s.clone()),
                        _ => None,
                    },
                    None => None,
                };
                Ok(
                    QueryParamDefinition {
                        name: String::from_str(name),
                        param_type,
                        default,
                        description,
                    },
                )
            },
            ConfigValue::Str(s) => Ok(
                QueryParamDefinition {
                    name: String::from_str(name),
                    param_type: s.clone(),
                    default: None,
                    description: None,
                },
            ),
            _ => Err(ApiError::InvalidQueryParam(String::from_str(name))),
        }
    }
}

/// Law: applying a schema is idempotent — what one application returns, a
/// second application of the same schema returns unchanged.
pub proof fn lemma_apply_schema_idempotent(
    schemas: Seq<(Seq<char>, SchemaSpec)>,
    name: Seq<char>,
    data: JsonValue,
)
    ensures
        apply_schema_spec(schemas, name, data) matches Some(once) ==> apply_schema_spec(
            schemas,
            name,
            once,
        ) == Some(once),
{
}

proof fn lemma_provided_kv_declared(
    schema: SchemaSpec,
    params: Seq<(String, String)>,
    i: int,
    j: int,
)
    requires
        0 <= j < provided_kv_from(schema, params, i).len(),
    ensures
        scontains(schema.query_params, provided_kv_from(schema, params, i)[j].0),
    decreases params.len() - i,
{
    if i < 0 || i >= params.len() {
    } else {
        let rest = provided_kv_from(schema, params, i + 1);
        if scontains(schema.query_params, params[i].0@) {
            if j > 0 {
                lemma_provided_kv_declared(schema, params, i + 1, j - 1);
            }
        } else {
            lemma_provided_kv_declared(schema, params, i + 1, j);
        }
    }
}

proof fn lemma_default_kv_declared(
    schema: SchemaSpec,
    params: Seq<(String, String)>,
    i: int,
    j: int,
)
    requires
        0 <= j < default_kv_from(schema, params, i).len(),
    ensures
        scontains(schema.query_params, default_kv_from(schema, params, i)[j].0),
    decreases schema.query_params.len() - i,
{
    if i < 0 || i >= schema.query_params.len() {
    } else {
        let entry = schema.query_params[i];
        if !params_contains(params, entry.0) && entry.1.default is Some {
            if j > 0 {
                lemma_default_kv_declared(schema, params, i + 1, j - 1);
            } else {
                lemma_scontains_at(schema.query_params, i);
            }
        } else {
            lemma_default_kv_declared(schema, params, i + 1, j);
        }
    }
}

proof fn lemma_scontains_at<T>(entries: Seq<(Seq<char>, T)>, i: int)
    requires
        0 <= i < entries.len(),
    ensures
        scontains(entries, entries[i].0),
    decreases i,
{
    if i > 0 && entries[0].0 != entries[i].0 {
        let tail = entries.subrange(1, entries.len() as int);
        lemma_scontains_at(tail, i - 1);
    }
}

/// Law: the query string never carries a parameter the schema does not
/// declare — every pair's key is one of the schema's query parameters,
/// however the caller's map reads.
pub proof fn lemma_query_pairs_declared(
    schema: SchemaSpec,
    params: Seq<(String, String)>,
    j: int,
)
    requires
        0 <= j < query_kv(schema, params).len(),
    ensures
        scontains(schema.query_params, query_kv(schema, params)[j].0),
{
    let provided = provided_kv_from(schema, params, 0);
    if j < provided.len() {
        lemma_provided_kv_declared(schema, params, 0, j);
    } else {
        lemma_default_kv_declared(schema, params, 0, j - provided.len());
    }
}

proof fn lemma_provided_kv_contains(
    schema: SchemaSpec,
    params: Seq<(String, String)>,
    i: int,
    kv: (Seq<char>, Seq<char>),
)
    requires
        0 <= i <= params.len(),
    ensures
        provided_kv_from(schema, params, i).contains(kv) <==> exists|t: int|
            i <= t < params.len() && (#[trigger] params[t]).0@ == kv.0 && url_encoded(params[t].1@)
                == kv.1 && scontains(schema.query_params, kv.0),
    decreases params.len() - i,
{
    if i < params.len() {
        lemma_provided_kv_contains(schema, params, i + 1, kv);
        let rest = provided_kv_from(schema, params, i + 1);
        let here = provided_kv_from(schema, params, i);
        if scontains(schema.query_params, params[i].0@) {
            let head = (params[i].0@, url_encoded(params[i].1@));
            assert(here == seq![head] + rest);
            assert forall|x: (Seq<char>, Seq<char>)| #[trigger]
                here.contains(x) implies x == head || rest.contains(x) by {
                let ix = choose|ix: int| 0 <= ix < here.len() && here[ix] == x;
                if ix > 0 {
                    assert(rest[ix - 1] == x);
                }
            }
            if here.contains(kv) {
            }
            if kv == head {
                assert(here[0] == kv);
            }
            if rest.contains(kv) {
                let ix = choose|ix: int| 0 <= ix < rest.len() && rest[ix] == kv;
                assert(here[ix + 1] == kv);
            }
        } else {
            assert(here == rest);
        }
    }
}

proof fn lemma_default_kv_contains(
    schema: SchemaSpec,
    params: Seq<(String, String)>,
    i: int,
    kv: (Seq<char>, Seq<char>),
)
    requires
        0 <= i <= schema.query_params.len(),
    ensures
        default_kv_from(schema, params, i).contains(kv) <==> exists|t: int|
            i <= t < schema.query_params.len() && (#[trigger] schema.query_params[t]).0 == kv.0
                && schema.query_params[t].1.default is Some && !params_contains(params, kv.0)
                && url_encoded(param_value_chars(schema.query_params[t].1.default->0)) == kv.1,
    decreases schema.query_params.len() - i,
{
    if i < schema.query_params.len() {
        lemma_default_kv_contains(schema, params, i + 1, kv);
        let rest = default_kv_from(schema, params, i + 1);
        let here = default_kv_from(schema, params, i);
        let entry = schema.query_params[i];
        if !params_contains(params, entry.0) && entry.1.default is Some {
            let head = (entry.0, url_encoded(param_value_chars(entry.1.default->0)));
            assert(here == seq![head] + rest);
            assert forall|x: (Seq<char>, Seq<char>)| #[trigger]
                here.contains(x) implies x == head || rest.contains(x) by {
                let ix = choose|ix: int| 0 <= ix < here.len() && here[ix] == x;
                if ix > 0 {
                    assert(rest[ix - 1] == x);
                }
            }
            if kv == head {
                assert(here[0] == kv);
            }
            if rest.contains(kv) {
                let ix = choose|ix: int| 0 <= ix < rest.len() && rest[ix] == kv;
                assert(here[ix + 1] == kv);
            }
        } else {
            assert(here == rest);
        }
    }
}

/// Law: the query string holds exactly the right pairs — a pair stands in
/// it precisely when the caller supplied a declared parameter with that
/// encoded value, or a declared parameter the caller left out carries that
/// encoded default. Defaults are never omitted, and order plays no part.
pub proof fn lemma_query_pairs_content(
    schema: SchemaSpec,
    params: Seq<(String, String)>,
    kv: (Seq<char>, Seq<char>),
)
    ensures
        query_kv(schema, params).contains(kv) <==> ((exists|t: int|
            0 <= t < params.len() && (#[trigger] params[t]).0@ == kv.0 && url_encoded(
                params[t].1@,
            ) == kv.1 && scontains(schema.query_params, kv.0)) || (exists|t: int|
            0 <= t < schema.query_params.len() && (#[trigger] schema.query_params[t]).0 == kv.0
                && schema.query_params[t].1.default is Some && !params_contains(params, kv.0)
                && url_encoded(param_value_chars(schema.query_params[t].1.default->0)) == kv.1)),
{
    lemma_provided_kv_contains(schema, params, 0, kv);
    lemma_default_kv_contains(schema, params, 0, kv);
    let provided = provided_kv_from(schema, params, 0);
    let defaults = default_kv_from(schema, params, 0);
    let all = query_kv(schema, params);
    assert(all == provided + defaults);
    if all.contains(kv) {
        let ix = choose|ix: int| 0 <= ix < all.len() && all[ix] == kv;
        if ix < provided.len() {
            assert(provided[ix] == kv);
        } else {
            assert(defaults[ix - provided.len()] == kv);
        }
    }
    if provided.contains(kv) {
        let ix = choose|ix: int| 0 <= ix < provided.len() && provided[ix] == kv;
        assert(all[ix] == kv);
    }
    if defaults.contains(kv) {
        let ix = choose|ix: int| 0 <= ix < defaults.len() && defaults[ix] == kv;
        assert(all[provided.len() + ix] == kv);
    }
}

impl Default for SchemaManager {
    /// The same as `SchemaManager::new`.
    fn default() -> (r: Self)
        ensures
            r@ == Seq::<(Seq<char>, SchemaSpec)>::empty(),
            keys_distinct(r@),
    {
        SchemaManager::new()
    }
}

} // verus!
