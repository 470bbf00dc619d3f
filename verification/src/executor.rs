//! The executor: reads a multi-endpoint configuration, holds the schema
//! manager and the global display options, plans the request URL for each
//! endpoint, and renders results as JSON, a table, or an indented detail
//! view.

use vstd::prelude::*;
use vstd::string::StringExecFns;
use vstd::string::StrSliceExecFns;
use crate::config::ConfigValue;
use crate::config::table_lookup;
use crate::config::table_get;
use crate::config::parse_config_text;
use crate::config::parsed_config;
use crate::error::ApiError;
use crate::json::JsonValue;
use crate::json::json_lookup;
use crate::json::json_get;
use crate::json::json_as_u64;
use crate::json::as_u64;
use crate::json::is_paginated_entries;
use crate::json::is_paginated;
use crate::json::pretty_json;
use crate::json::to_pretty_string;
use crate::schema::SchemaManager;
use crate::schema::pairs_view;
use crate::schema::SchemaSpec;
use crate::schema::cfg_text;
use crate::schema::loaded_schemas;
use crate::schema::keys_distinct;
use crate::schema::scontains;
use crate::schema::slookup;
use crate::schema::query_string_chars;
use crate::strutil::bool_chars;
use crate::strutil::bool_to_str;
use crate::strutil::contains_seq;
use crate::strutil::contains_sub;
use crate::strutil::dec_digits;
use crate::strutil::dec_int_digits;
use crate::strutil::padded_right;
use crate::strutil::pad_right_spaces;
use crate::strutil::repeat_chars;
use crate::strutil::str_eq;
use crate::strutil::u64_to_dec;
use crate::strutil::i64_to_dec;
use crate::url::joined_url;
use crate::url::last_index_of;
use crate::url::build_url;
use crate::url::split_url;

verus! {

/// Configuration for a single API endpoint.
#[derive(Debug, Clone, PartialEq)]
pub struct EndpointConfig {
    /// Name of the endpoint's configuration entry.
    pub name: String,
    /// Full URL of the endpoint.
    pub url: String,
    /// Whether the executor runs this endpoint.
    pub enabled: bool,
    /// The schema name used for this endpoint, equal to its entry name.
    pub schema_name: String,
    /// Query parameters supplied for this endpoint.
    pub query_params: Vec<(String, String)>,
}

/// The spec-level form of an endpoint configuration.
pub ghost struct EndpointSpec {
    pub name: Seq<char>,
    pub url: Seq<char>,
    pub enabled: bool,
    pub schema_name: Seq<char>,
    pub query_params: Seq<(Seq<char>, Seq<char>)>,
}

impl View for EndpointConfig {
    type V = EndpointSpec;

    open spec fn view(&self) -> EndpointSpec {
        EndpointSpec {
            name: self.name@,
            url: self.url@,
            enabled: self.enabled,
            schema_name: self.schema_name@,
            query_params: pairs_view(self.query_params@),
        }
    }
}

/// Global display options.
#[derive(Debug, Clone, PartialEq)]
pub struct GlobalConfig {
    /// Output format: `json`, `table`, or the default `detailed`.
    pub output_format: String,
    /// How many items of a page are shown per endpoint.
    pub max_display_items: usize,
}

/// The spec-level form of the global display options.
pub ghost struct GlobalSpec {
    pub output_format: Seq<char>,
    pub max_display_items: usize,
}

impl View for GlobalConfig {
    type V = GlobalSpec;

    open spec fn view(&self) -> GlobalSpec {
        GlobalSpec {
            output_format: self.output_format@,
            max_display_items: self.max_display_items,
        }
    }
}

/// The query parameters read for an endpoint, from entry `i` of its
/// `query_params` table on: each scalar entry's text.
pub open spec fn endpoint_params_from(qt: Seq<(String, ConfigValue)>, i: int) -> Seq<
    (Seq<char>, Seq<char>),
>
    decreases qt.len() - i,
{
    if i < 0 || i >= qt.len() {
        Seq::<(Seq<char>, Seq<char>)>::empty()
    } else {
        let rest = endpoint_params_from(qt, i + 1);
        match cfg_text(qt[i].1) {
            Some(vs) => seq![(qt[i].0@, vs)] + rest,
            None => rest,
        }
    }
}

/// The query parameters of an endpoint entry: its sibling
/// `<name>.query_params` table, when that is a table.
pub open spec fn endpoint_params_of(all: Seq<(String, ConfigValue)>, name: Seq<char>) -> Seq<
    (Seq<char>, Seq<char>),
> {
    match table_lookup(all, name + ".query_params"@) {
        Some(ConfigValue::Table(qt)) => endpoint_params_from(qt@, 0),
        _ => Seq::<(Seq<char>, Seq<char>)>::empty(),
    }
}

/// Whether an endpoint entry is enabled: its `enabled` key must be a
/// boolean; anything else reads as disabled.
pub open spec fn endpoint_enabled_of(et: Seq<(String, ConfigValue)>) -> bool {
    match table_lookup(et, "enabled"@) {
        Some(ConfigValue::Bool(b)) => b,
        _ => false,
    }
}

/// The endpoint read from one table-shaped entry, if its `url` key is a
/// string; the schema name is the entry's own name.
pub open spec fn endpoint_of_entry(
    all: Seq<(String, ConfigValue)>,
    name: Seq<char>,
    et: Seq<(String, ConfigValue)>,
) -> Option<EndpointSpec> {
    match table_lookup(et, "url"@) {
        Some(ConfigValue::Str(u)) => Some(
            EndpointSpec {
                name: name,
                url: u@,
                enabled: endpoint_enabled_of(et),
                schema_name: name,
                query_params: endpoint_params_of(all, name),
            },
        ),
        _ => None,
    }
}

/// The top-level entries the endpoint parser passes over: the reserved
/// sections and the sibling schema and query-parameter sections.
pub open spec fn endpoint_skipped(name: Seq<char>) -> bool {
    name == "config"@ || name == "types"@ || contains_seq(name, ".schema"@) || contains_seq(
        name,
        ".query_params"@,
    )
}

/// The endpoints read from a document table, from entry `i` on.
pub open spec fn endpoints_from(all: Seq<(String, ConfigValue)>, i: int) -> Seq<EndpointSpec>
    decreases all.len() - i,
{
    if i < 0 || i >= all.len() {
        Seq::<EndpointSpec>::empty()
    } else {
        let rest = endpoints_from(all, i + 1);
        if !endpoint_skipped(all[i].0@) {
            match all[i].1 {
                ConfigValue::Table(et) => match endpoint_of_entry(all, all[i].0@, et@) {
                    Some(e) => seq![e] + rest,
                    None => rest,
                },
                _ => rest,
            }
        } else {
            rest
        }
    }
}

/// The endpoints read from a whole document; a document that is not a
/// table yields none.
pub open spec fn endpoints_of(doc: ConfigValue) -> Seq<EndpointSpec> {
    match doc {
        ConfigValue::Table(entries) => endpoints_from(entries@, 0),
        _ => Seq::<EndpointSpec>::empty(),
    }
}

/// An integer taken to `usize` as the configuration reader takes it: by
/// two's-complement wrap.
pub open spec fn usize_of_i64(v: i64) -> usize {
    if v >= 0 {
        v as usize
    } else {
        (v + 0x10000000000000000) as usize
    }
}

/// The output format of a document: the `config` table's `output_format`
/// string, or `detailed`.
pub open spec fn output_format_of(doc: ConfigValue) -> Seq<char> {
    match doc {
        ConfigValue::Table(entries) => match table_lookup(entries@, "config"@) {
            Some(ConfigValue::Table(ct)) => match table_lookup(ct@, "output_format"@) {
                Some(ConfigValue::Str(s)) => s@,
                _ => "detailed"@,
            },
            _ => "detailed"@,
        },
        _ => "detailed"@,
    }
}

/// The display count of a document: the `config` table's
/// `max_display_items` integer, or ten.
pub open spec fn max_display_items_of(doc: ConfigValue) -> usize {
    match doc {
        ConfigValue::Table(entries) => match table_lookup(entries@, "config"@) {
            Some(ConfigValue::Table(ct)) => match table_lookup(ct@, "max_display_items"@) {
                Some(ConfigValue::Int(v)) => usize_of_i64(v),
                _ => 10,
            },
            _ => 10,
        },
        _ => 10,
    }
}

/// The spec-level form of an endpoint list.
pub open spec fn endpoints_view(s: Seq<EndpointConfig>) -> Seq<EndpointSpec> {
    Seq::new(s.len(), |i: int| s[i]@)
}

/// The executor: the loaded schemas, the endpoint list, and the global
/// display options.
#[derive(Debug, Clone)]
pub struct APIExecutor {
    /// Schema manager loaded from the same document.
    pub schema_manager: SchemaManager,
    /// Endpoint configurations, in document order.
    pub endpoints: Vec<EndpointConfig>,
    /// Global display options.
    pub global_config: GlobalConfig,
}

impl APIExecutor {
    /// The text a scalar configuration value is read back as.
    pub fn toml_value_to_string(value: &ConfigValue) -> (r: Option<String>)
        ensures
            match r {
                Some(s) => cfg_text(*value) == Some(s@),
                None => cfg_text(*value) is None,
            },
    {
        SchemaManager::toml_value_to_string(value)
    }

    fn parse_endpoint_params(all: &Vec<(String, ConfigValue)>, name: &String) -> (r: Vec<
        (String, String),
    >)
        ensures
            pairs_view(r@) == endpoint_params_of(all@, name@),
    {
        let mut qkey = name.clone();
        qkey.append(".query_params");
        proof {
            reveal_strlit(".query_params");
        }
        let mut out: Vec<(String, String)> = Vec::new();
        match table_get(all, qkey.as_str()) {
            Some(section) => {
                match section {
                    ConfigValue::Table(qt) => {
                        let m = qt.len();
                        let mut j: usize = 0;
                        while j < m
                            invariant
                                j <= m,
                                m == qt@.len(),
                                endpoint_params_from(qt@, 0) =~= pairs_view(out@)
                                    + endpoint_params_from(qt@, j as int),
                            decreases m - j,
                        {
                            let ghost before = out@;
                            match SchemaManager::toml_value_to_string(&qt[j].1) {
                                Some(vs) => {
                                    out.push((qt[j].0.clone(), vs));
                                    proof {
                                        assert(pairs_view(out@) =~= pairs_view(before) + seq![
                                            (out@[out@.len() - 1].0@, out@[out@.len() - 1].1@),
                                        ]);
                                    }
                                },
                                None => {},
                            }
                            proof {
                                assert(endpoint_params_from(qt@, 0) =~= pairs_view(out@)
                                    + endpoint_params_from(qt@, j + 1));
                            }
                            j = j + 1;
                        }
                    },
                    _ => {
                        proof {
                            assert(pairs_view(out@) =~= Seq::<(Seq<char>, Seq<char>)>::empty());
                        }
                    },
                }
            },
            None => {
                proof {
                    assert(pairs_view(out@) =~= Seq::<(Seq<char>, Seq<char>)>::empty());
                }
            },
        }
        proof {
            assert(pairs_view(out@) =~= endpoint_params_of(all@, name@));
        }
        out
    }

    /// Read every endpoint configuration out of a document: each top-level
    /// table entry outside the reserved and sibling sections whose `url` is
    /// a string, with its enabled flag, schema name and query parameters.
    pub fn parse_endpoints(config: &ConfigValue) -> (r: Vec<EndpointConfig>)
        ensures
            endpoints_view(r@) == endpoints_of(*config),
    {
        let mut out: Vec<EndpointConfig> = Vec::new();
        match config {
            ConfigValue::Table(entries) => {
                let n = entries.len();
                let mut i: usize = 0;
                while i < n
                    invariant
                        i <= n,
                        n == entries@.len(),
                        endpoints_from(entries@, 0) =~= endpoints_view(out@) + endpoints_from(
                            entries@,
                            i as int,
                        ),
                    decreases n - i,
                {
                    let ghost before = out@;
                    let name = &entries[i].0;
                    let skip = str_eq(name.as_str(), "config") || str_eq(name.as_str(), "types")
                        || contains_sub(name.as_str(), ".schema") || contains_sub(
                        name.as_str(),
                        ".query_params",
                    );
                    proof {
                        reveal_strlit("config");
                        reveal_strlit("types");
                        reveal_strlit(".schema");
                        reveal_strlit(".query_params");
                    }
                    if !skip {
                        match &entries[i].1 {
                            ConfigValue::Table(et) => {
                                let enabled = match table_get(et, "enabled") {
                                    Some(v) => match v {
                                        ConfigValue::Bool(b) => *b,
                                        _ => false,
                                    },
                                    None => false,
                                };
                                match table_get(et, "url") {
                                    Some(uv) => {
                                        match uv {
                                            ConfigValue::Str(u) => {
                                                let query_params = Self::parse_endpoint_params(
                                                    entries,
                                                    name,
                                                );
                                                let e = EndpointConfig {
                                                    name: name.clone(),
                                                    url: u.clone(),
                                                    enabled,
                                                    schema_name: name.clone(),
                                                    query_params,
                                                };
                                                out.push(e);
                                                proof {
                                                    assert(endpoints_view(out@) =~= endpoints_view(
                                                        before,
                                                    ) + seq![out@[out@.len() - 1]@]);
                                                }
                                            },
                                            _ => {},
                                        }
                                    },
                                    None => {},
                                }
                            },
                            _ => {},
                        }
                    }
                    proof {
                        assert(endpoints_from(entries@, 0) =~= endpoints_view(out@)
                            + endpoints_from(entries@, i + 1));
                    }
                    i = i + 1;
                }
            },
            _ => {},
        }
        proof {
            assert(endpoints_view(out@) =~= endpoints_of(*config));
        }
        out
    }

    /// Read the global display options out of a document, with `detailed`
    /// and ten as the defaults.
    pub fn parse_global_config(config: &ConfigValue) -> (r: GlobalConfig)
        ensures
            r@.output_format == output_format_of(*config),
            r@.max_display_items == max_display_items_of(*config),
    {
        let mut output_format = String::from_str("detailed");
        let mut max_display_items: usize = 10;
        match config {
            ConfigValue::Table(entries) => {
                match table_get(entries, "config") {
                    Some(section) => {
                        match section {
                            ConfigValue::Table(ct) => {
                                match table_get(ct, "output_format") {
                                    Some(v) => {
                                        match v {
                                            ConfigValue::Str(s) => {
                                                output_format = s.clone();
                                            },
                                            _ => {},
                                        }
                                    },
                                    None => {},
                                }
                                match table_get(ct, "max_display_items") {
                                    Some(v) => {
                                        match v {
                                            ConfigValue::Int(m) => {
                                                max_display_items = Self::wrap_to_usize(*m);
                                            },
                                            _ => {},
                                        }
                                    },
                                    None => {},
                                }
                            },
                            _ => {},
                        }
                    },
                    None => {},
                }
            },
            _ => {},
        }
        GlobalConfig { output_format, max_display_items }
    }

    fn wrap_to_usize(v: i64) -> (r: usize)
        ensures
            r == usize_of_i64(v),
    {
        if v >= 0 {
            v as usize
        } else {
            let w: u64 = v as u64;
            proof {
                assert(w == v + 0x10000000000000000) by (bit_vector)
                    requires
                        v < 0,
                        w == v as u64,
                ;
            }
            w as usize
        }
    }

    /// Build an executor from a parsed configuration document: the schemas,
    /// endpoints and global options it defines. A malformed query-parameter
    /// definition fails the build, naming the parameter.
    pub fn from_config_value(config: &ConfigValue) -> (r: Result<Self, ApiError>)
        ensures
            match r {
                Ok(e) => loaded_schemas(Seq::empty(), *config) == Ok::<
                    Seq<(Seq<char>, SchemaSpec)>,
                    Seq<char>,
                >(e.schema_manager@) && keys_distinct(e.schema_manager@) && endpoints_view(
                    e.endpoints@,
                ) == endpoints_of(*config) && e.global_config@.output_format == output_format_of(
                    *config,
                ) && e.global_config@.max_display_items == max_display_items_of(*config),
                Err(er) => loaded_schemas(Seq::empty(), *config) matches Err(en) && (
                er matches ApiError::InvalidQueryParam(n) && n@ == en),
            },
    {
        let mut schema_manager = SchemaManager::new();
        match schema_manager.load_from_toml_value(config) {
            Ok(_) => {},
            Err(e) => {
                return Err(e);
            },
        }
        let endpoints = Self::parse_endpoints(config);
        let global_config = Self::parse_global_config(config);
        Ok(APIExecutor { schema_manager, endpoints, global_config })
    }

    /// Parse a configuration text and build an executor from it. A text
    /// that is not well-formed TOML, or a malformed query-parameter
    /// definition, fails the build.
    pub fn from_config_str(text: &str) -> (r: Result<Self, ApiError>)
        ensures
            match parsed_config(text@) {
                Some(doc) => match loaded_schemas(Seq::empty(), doc) {
                    Ok(m) => r matches Ok(e) && e.schema_manager@ == m && keys_distinct(
                        e.schema_manager@,
                    ) && endpoints_view(e.endpoints@) == endpoints_of(doc)
                        && e.global_config@.output_format == output_format_of(doc)
                        && e.global_config@.max_display_items == max_display_items_of(doc),
                    Err(en) => r matches Err(er) && (er matches ApiError::InvalidQueryParam(n)
                        && n@ == en),
                },
                None => r is Err,
            },
    {
        match parse_config_text(text) {
            Ok(doc) => Self::from_config_value(&doc),
            Err(e) => Err(e),
        }
    }
}

/// The plain text of a scalar JSON value, as the detail view writes it;
/// arrays and objects have none.
pub open spec fn scalar_chars(v: JsonValue) -> Seq<char> {
    match v {
        JsonValue::Null => "null"@,
        JsonValue::Bool(b) => bool_chars(b),
        JsonValue::Int(i) => dec_int_digits(i as int),
        JsonValue::UInt(u) => dec_digits(u as nat),
        JsonValue::Float(t) => t@,
        JsonValue::Str(s) => s@,
        JsonValue::Array(_) => Seq::<char>::empty(),
        JsonValue::Object(_) => Seq::<char>::empty(),
    }
}

/// The indented rendering of a JSON value: an object renders its entries
/// in order; anything else is its text on one indented line.
pub open spec fn render_object_chars(v: JsonValue, ind: Seq<char>) -> Seq<char>
    decreases v, 1int,
{
    match v {
        JsonValue::Object(entries) => render_entries_chars(entries@, ind, 0),
        _ => ind + scalar_chars(v) + "\n"@,
    }
}

/// The rendering of an object's entries from `i` on: a nested object is
/// opened on its own line and rendered two spaces deeper; an array is
/// summarised by its size, and its first item shown four spaces deeper
/// unless the key is `events` or `launches`; a scalar is one line.
pub open spec fn render_entries_chars(
    entries: Seq<(String, JsonValue)>,
    ind: Seq<char>,
    i: int,
) -> Seq<char>
    decreases entries, entries.len() - i,
{
    if i < 0 || i >= entries.len() {
        Seq::<char>::empty()
    } else {
        let key = entries[i].0@;
        let val = entries[i].1;
        let piece = match val {
            JsonValue::Object(_) => ind + key + ":\n"@ + render_object_chars(val, ind + "  "@),
            JsonValue::Array(arr) => {
                let header = ind + key + ": ["@ + dec_digits(arr@.len() as nat) + " items]\n"@;
                let extra = if arr@.len() > 0 && key != "events"@ && key != "launches"@ {
                    if arr@[0] is Object {
                        ind + "  First item:\n"@ + render_object_chars(arr@[0], ind + "    "@)
                    } else {
                        ind + "  First item: "@ + scalar_chars(arr@[0]) + "\n"@
                    }
                } else {
                    Seq::<char>::empty()
                };
                header + extra
            },
            _ => ind + key + ": "@ + scalar_chars(val) + "\n"@,
        };
        piece + render_entries_chars(entries, ind, i + 1)
    }
}

/// The rendering of up to `max` page items from `i` on, each numbered and
/// rendered six spaces deep.
pub open spec fn render_items_chars(items: Seq<JsonValue>, max: int, i: int) -> Seq<char>
    decreases items, items.len() - i,
{
    if i < 0 || i >= items.len() || i >= max {
        Seq::<char>::empty()
    } else {
        "    Item "@ + dec_digits((i + 1) as nat) + ":\n"@ + render_object_chars(
            items[i],
            "      "@,
        ) + render_items_chars(items, max, i + 1)
    }
}

/// The detail view of a response: a paginated envelope shows its total
/// count and up to `max` items; another object is rendered four spaces
/// deep; anything else is one line.
pub open spec fn render_detailed_chars(data: JsonValue, max: int) -> Seq<char> {
    match data {
        JsonValue::Object(entries) => if is_paginated_entries(entries@) {
            let count_part = match json_lookup(entries@, "count"@) {
                Some(cv) => match json_as_u64(cv) {
                    Some(c) => "  Total results: "@ + dec_digits(c as nat) + "\n"@,
                    None => Seq::<char>::empty(),
                },
                None => Seq::<char>::empty(),
            };
            let results_part = match json_lookup(entries@, "results"@) {
                Some(JsonValue::Array(arr)) => {
                    let shown = if arr@.len() <= max {
                        arr@.len() as int
                    } else {
                        max
                    };
                    "  Displaying first "@ + dec_digits(shown as nat) + " items:\n"@
                        + render_items_chars(arr@, max, 0)
                },
                _ => Seq::<char>::empty(),
            };
            count_part + results_part
        } else {
            "  Response:\n"@ + render_object_chars(data, "    "@)
        },
        _ => "  Response: "@ + scalar_chars(data) + "\n"@,
    }
}

/// A string field of a table row's object, or `N/A`.
pub open spec fn str_field_or_na(entries: Seq<(String, JsonValue)>, key: Seq<char>) -> Seq<
    char,
> {
    match json_lookup(entries, key) {
        Some(JsonValue::Str(s)) => s@,
        _ => "N/A"@,
    }
}

/// The title column's cell: a title beyond 27 characters is cut there and
/// marked with an ellipsis, and the cell is padded to 30 characters.
pub open spec fn title_cell(title: Seq<char>) -> Seq<char> {
    let t = if title.len() > 27 {
        title.subrange(0, 27) + "..."@
    } else {
        title
    };
    padded_right(t, ' ', 30)
}

/// One table row: the truncated title, the news site, and the published
/// field cut to 20 characters, each padded to its column.
pub open spec fn table_row_chars(item: JsonValue) -> Seq<char> {
    match item {
        JsonValue::Object(entries) => {
            let title = str_field_or_na(entries@, "title"@);
            let site = str_field_or_na(entries@, "news_site"@);
            let published = str_field_or_na(entries@, "published_at"@);
            let cut = if published.len() < 20 {
                published.len() as int
            } else {
                20
            };
            "  | "@ + title_cell(title) + " | "@ + padded_right(site, ' ', 20) + " | "@
                + padded_right(published.subrange(0, cut), ' ', 20) + " |\n"@
        },
        _ => Seq::<char>::empty(),
    }
}

/// The table rows for up to `max` items from `i` on.
pub open spec fn table_rows_chars(items: Seq<JsonValue>, max: int, i: int) -> Seq<char>
    decreases items.len() - i,
{
    if i < 0 || i >= items.len() || i >= max {
        Seq::<char>::empty()
    } else {
        table_row_chars(items[i]) + table_rows_chars(items, max, i + 1)
    }
}

/// The table's two header lines.
pub open spec fn table_header_chars() -> Seq<char> {
    "  | "@ + padded_right("Title"@, ' ', 30) + " | "@ + padded_right("News Site"@, ' ', 20)
        + " | "@ + padded_right("Published"@, ' ', 20) + " |\n"@ + "  |"@ + repeat_chars('-', 32)
        + "|"@ + repeat_chars('-', 22) + "|"@ + repeat_chars('-', 22) + "|\n"@
}

/// The table view of a response: a header and one row per shown item of an
/// object's `results` array; anything else renders nothing.
pub open spec fn render_table_chars(data: JsonValue, max: int) -> Seq<char> {
    match data {
        JsonValue::Object(entries) => match json_lookup(entries@, "results"@) {
            Some(JsonValue::Array(arr)) => table_header_chars() + table_rows_chars(arr@, max, 0),
            _ => Seq::<char>::empty(),
        },
        _ => Seq::<char>::empty(),
    }
}

/// What the executor prints for a response: pretty JSON, the table view,
/// or — for any other format — the detail view.
pub open spec fn render_results_chars(format: Seq<char>, data: JsonValue, max: int) -> Seq<
    char,
> {
    if format == "json"@ {
        pretty_json(data) + "\n"@
    } else if format == "table"@ {
        render_table_chars(data, max)
    } else {
        render_detailed_chars(data, max)
    }
}

/// Law: the title cell is always exactly 30 characters wide — truncation
/// and padding leave the rendered width unaffected by the title's length.
pub proof fn lemma_title_cell_width(title: Seq<char>)
    ensures
        title_cell(title).len() == 30,
{
    let t = if title.len() > 27 {
        title.subrange(0, 27) + "..."@
    } else {
        title
    };
    reveal_strlit("...");
    crate::strutil::lemma_padded_right_len(t, ' ', 30);
}

fn scalar_text(v: &JsonValue) -> (r: String)
    ensures
        r@ == scalar_chars(*v),
{
    match v {
        JsonValue::Null => String::from_str("null"),
        JsonValue::Bool(b) => String::from_str(bool_to_str(*b)),
        JsonValue::Int(i) => i64_to_dec(*i),
        JsonValue::UInt(u) => u64_to_dec(*u),
        JsonValue::Float(t) => t.clone(),
        JsonValue::Str(s) => s.clone(),
        JsonValue::Array(_) => String::new(),
        JsonValue::Object(_) => String::new(),
    }
}

impl APIExecutor {
    /// Render a JSON value with the given indentation, as the detail view
    /// shows nested objects.
    #[verifier::loop_isolation(false)]
    pub fn display_object(&self, value: &JsonValue, indent: &str) -> (r: String)
        ensures
            r@ == render_object_chars(*value, indent@),
        decreases *value, 1int,
    {
        match value {
            JsonValue::Object(entries) => {
                let n = entries.len();
                let mut out = String::new();
                let mut i: usize = 0;
                while i < n
                    invariant
                        i <= n,
                        out@ + render_entries_chars(entries@, indent@, i as int)
                            == render_entries_chars(entries@, indent@, 0),
                    decreases n - i,
                {
                    let key = &entries[i].0;
                    let val = &entries[i].1;
                    proof {
                        assert(decreases_to!(*value => entries@[i as int].1));
                    }
                    match val {
                        JsonValue::Object(_) => {
                            out.append(indent);
                            out.append(key.as_str());
                            out.append(":\n");
                            let mut deeper = String::from_str(indent);
                            deeper.append("  ");
                            let sub = self.display_object(val, deeper.as_str());
                            out.append(sub.as_str());
                        },
                        JsonValue::Array(arr) => {
                            out.append(indent);
                            out.append(key.as_str());
                            out.append(": [");
                            let len_text = u64_to_dec(arr.len() as u64);
                            out.append(len_text.as_str());
                            out.append(" items]\n");
                            if arr.len() > 0 && !str_eq(key.as_str(), "events") && !str_eq(
                                key.as_str(),
                                "launches",
                            ) {
                                let first = &arr[0];
                                proof {
                                    assert(decreases_to!(*value => arr@[0]));
                                }
                                match first {
                                    JsonValue::Object(_) => {
                                        out.append(indent);
                                        out.append("  First item:\n");
                                        let mut deeper = String::from_str(indent);
                                        deeper.append("    ");
                                        let sub = self.display_object(first, deeper.as_str());
                                        out.append(sub.as_str());
                                    },
                                    _ => {
                                        out.append(indent);
                                        out.append("  First item: ");
                                        let text = scalar_text(first);
                                        out.append(text.as_str());
                                        out.append("\n");
                                    },
                                }
                            }
                        },
                        _ => {
                            out.append(indent);
                            out.append(key.as_str());
                            out.append(": ");
                            let text = scalar_text(val);
                            out.append(text.as_str());
                            out.append("\n");
                        },
                    }
                    i = i + 1;
                }
                out
            },
            _ => {
                let mut out = String::from_str(indent);
                let text = scalar_text(value);
                out.append(text.as_str());
                out.append("\n");
                out
            },
        }
    }

    /// Render a response in the detail view: a paginated envelope's total
    /// count and up to the configured number of items, or the whole object
    /// indented.
    #[verifier::loop_isolation(false)]
    pub fn display_detailed(&self, data: &JsonValue) -> (r: String)
        ensures
            r@ == render_detailed_chars(*data, self.global_config.max_display_items as int),
    {
        let max = self.global_config.max_display_items;
        match data {
            JsonValue::Object(entries) => {
                if is_paginated(entries) {
                    let mut out = String::new();
                    match json_get(entries, "count") {
                        Some(cv) => {
                            match as_u64(cv) {
                                Some(c) => {
                                    out.append("  Total results: ");
                                    let c_text = u64_to_dec(c);
                                    out.append(c_text.as_str());
                                    out.append("\n");
                                },
                                None => {},
                            }
                        },
                        None => {},
                    }
                    match json_get(entries, "results") {
                        Some(rv) => {
                            match rv {
                                JsonValue::Array(arr) => {
                                    let shown: usize = if arr.len() <= max {
                                        arr.len()
                                    } else {
                                        max
                                    };
                                    out.append("  Displaying first ");
                                    let shown_text = u64_to_dec(shown as u64);
                                    out.append(shown_text.as_str());
                                    out.append(" items:\n");
                                    let ghost mid = out@;
                                    let mut i: usize = 0;
                                    while i < shown
                                        invariant
                                            i <= shown,
                                            out@ + render_items_chars(arr@, max as int, i as int)
                                                == mid + render_items_chars(arr@, max as int, 0),
                                        decreases shown - i,
                                    {
                                        out.append("    Item ");
                                        let num = u64_to_dec((i as u64) + 1);
                                        out.append(num.as_str());
                                        out.append(":\n");
                                        let sub = self.display_object(&arr[i], "      ");
                                        out.append(sub.as_str());
                                        i = i + 1;
                                    }
                                },
                                _ => {},
                            }
                        },
                        None => {},
                    }
                    out
                } else {
                    let mut out = String::from_str("  Response:\n");
                    let sub = self.display_object(data, "    ");
                    out.append(sub.as_str());
                    out
                }
            },
            _ => {
                let mut out = String::from_str("  Response: ");
                let text = scalar_text(data);
                out.append(text.as_str());
                out.append("\n");
                out
            },
        }
    }

    /// Render a response as a fixed-width table of title, news site and
    /// published date, one row per shown item.
    #[verifier::loop_isolation(false)]
    pub fn display_as_table(&self, data: &JsonValue) -> (r: String)
        ensures
            r@ == render_table_chars(*data, self.global_config.max_display_items as int),
    {
        let max = self.global_config.max_display_items;
        match data {
            JsonValue::Object(entries) => {
                match json_get(entries, "results") {
                    Some(rv) => {
                        match rv {
                            JsonValue::Array(arr) => {
                                let mut out = String::from_str("  | ");
                                let title_pad = pad_right_spaces("Title", 30);
                                out.append(title_pad.as_str());
                                out.append(" | ");
                                let site_pad = pad_right_spaces("News Site", 20);
                                out.append(site_pad.as_str());
                                out.append(" | ");
                                let pub_pad = pad_right_spaces("Published", 20);
                                out.append(pub_pad.as_str());
                                out.append(" |\n");
                                out.append("  |");
                                let d32 = crate::strutil::dashes(32);
                                out.append(d32.as_str());
                                out.append("|");
                                let d22 = crate::strutil::dashes(22);
                                out.append(d22.as_str());
                                out.append("|");
                                out.append(d22.as_str());
                                out.append("|\n");
                                proof {
                                    assert(out@ == table_header_chars());
                                }
                                let shown: usize = if arr.len() <= max {
                                    arr.len()
                                } else {
                                    max
                                };
                                let ghost mid = out@;
                                let mut i: usize = 0;
                                while i < shown
                                    invariant
                                        i <= shown,
                                        table_header_chars() + table_rows_chars(
                                            arr@,
                                            max as int,
                                            0,
                                        ) == out@ + table_rows_chars(arr@, max as int, i as int),
                                    decreases shown - i,
                                {
                                    let row = Self::table_row(&arr[i]);
                                    out.append(row.as_str());
                                    i = i + 1;
                                }
                                out
                            },
                            _ => String::new(),
                        }
                    },
                    None => String::new(),
                }
            },
            _ => String::new(),
        }
    }

    fn table_row(item: &JsonValue) -> (r: String)
        ensures
            r@ == table_row_chars(*item),
    {
        match item {
            JsonValue::Object(entries) => {
                let title = Self::str_field_or_default(entries, "title");
                let site = Self::str_field_or_default(entries, "news_site");
                let published = Self::str_field_or_default(entries, "published_at");
                let title_len = title.as_str().unicode_len();
                let truncated = if title_len > 27 {
                    let mut t = String::from_str(title.as_str().substring_char(0, 27));
                    t.append("...");
                    t
                } else {
                    title
                };
                let plen = published.as_str().unicode_len();
                let cut: usize = if plen < 20 {
                    plen
                } else {
                    20
                };
                let mut out = String::from_str("  | ");
                let title_col = pad_right_spaces(truncated.as_str(), 30);
                out.append(title_col.as_str());
                out.append(" | ");
                let site_col = pad_right_spaces(site.as_str(), 20);
                out.append(site_col.as_str());
                out.append(" | ");
                let pub_col = pad_right_spaces(published.as_str().substring_char(0, cut), 20);
                out.append(pub_col.as_str());
                out.append(" |\n");
                out
            },
            _ => String::new(),
        }
    }

    fn str_field_or_default(entries: &Vec<(String, JsonValue)>, key: &str) -> (r: String)
        ensures
            r@ == str_field_or_na(entries@, key@),
    {
        match json_get(entries, key) {
            Some(v) => match v {
                JsonValue::Str(s) => s.clone(),
                _ => String::from_str("N/A"),
            },
            None => String::from_str("N/A"),
        }
    }

    /// Render a response in the configured output format.
    pub fn display_results(&self, _endpoint: &EndpointConfig, data: &JsonValue) -> (r: String)
        ensures
            r@ == render_results_chars(
                self.global_config.output_format@,
                *data,
                self.global_config.max_display_items as int,
            ),
    {
        if str_eq(self.global_config.output_format.as_str(), "json") {
            let mut out = to_pretty_string(data);
            out.append("\n");
            out
        } else if str_eq(self.global_config.output_format.as_str(), "table") {
            self.display_as_table(data)
        } else {
            self.display_detailed(data)
        }
    }

    /// The base part of an endpoint's URL: everything before the last `/`,
    /// or the whole URL when it has none.
    pub open spec fn url_base(url: Seq<char>) -> Seq<char> {
        let i = last_index_of(url, '/');
        if i >= 0 {
            url.subrange(0, i)
        } else {
            url
        }
    }

    /// The path part of an endpoint's URL: everything after the last `/`,
    /// or nothing when it has none.
    pub open spec fn url_path(url: Seq<char>) -> Seq<char> {
        let i = last_index_of(url, '/');
        if i >= 0 {
            url.subrange(i + 1, url.len() as int)
        } else {
            Seq::<char>::empty()
        }
    }

    /// The full request URL for one endpoint: its URL split at the last
    /// slash and rejoined with exactly one, then the schema's query string.
    /// Fails exactly when the endpoint's schema is not loaded.
    pub fn endpoint_request_url(&self, endpoint: &EndpointConfig) -> (r: Result<String, ApiError>)
        ensures
            match r {
                Ok(u) => scontains(self.schema_manager@, endpoint.schema_name@) && u@
                    == joined_url(
                    Self::url_base(endpoint.url@),
                    Self::url_path(endpoint.url@),
                ) + query_string_chars(
                    slookup(self.schema_manager@, endpoint.schema_name@)->0,
                    endpoint.query_params@,
                ),
                Err(e) => !scontains(self.schema_manager@, endpoint.schema_name@) && (
                e matches ApiError::SchemaNotFound(n) && n@ == endpoint.schema_name@),
            },
    {
        let parts = split_url(endpoint.url.as_str());
        let qs = match self.schema_manager.build_query_string(
            endpoint.schema_name.as_str(),
            &endpoint.query_params,
        ) {
            Ok(qs) => qs,
            Err(e) => {
                return Err(e);
            },
        };
        let mut url = build_url(parts.0.as_str(), parts.1.as_str());
        url.append(qs.as_str());
        Ok(url)
    }
}

impl Default for APIExecutor {
    /// An executor with no schemas, no endpoints, and the default display
    /// options.
    fn default() -> (r: Self)
        ensures
            r.schema_manager@ == Seq::<(Seq<char>, SchemaSpec)>::empty(),
            r.endpoints@.len() == 0,
            r.global_config@.output_format == "detailed"@,
            r.global_config@.max_display_items == 10,
    {
        APIExecutor {
            schema_manager: SchemaManager::new(),
            endpoints: Vec::new(),
            global_config: GlobalConfig {
                output_format: String::from_str("detailed"),
                max_display_items: 10,
            },
        }
    }
}

} // verus!
