use spacenews::schema::SchemaManager;
use spacenews::schema::Schema;
use spacenews::schema::QueryParamDefinition;
use spacenews::schema::QueryParamValue;
use spacenews::config::ConfigValue;
use spacenews::error::ApiError;
use spacenews::json::JsonValue;
use spacenews::urlenc::encode_component;

fn manager_with_article_schema() -> SchemaManager {
    let limit_def = QueryParamDefinition {
        name: "limit".to_string(),
        param_type: "i64".to_string(),
        default: Some(QueryParamValue::Integer(10)),
        description: None,
    };
    let ordering_def = QueryParamDefinition {
        name: "ordering".to_string(),
        param_type: "String".to_string(),
        default: None,
        description: None,
    };
    let schema = Schema {
        name: "article".to_string(),
        fields: Vec::new(),
        nested_fields: Vec::new(),
        query_params: vec![
            ("limit".to_string(), limit_def),
            ("ordering".to_string(), ordering_def),
        ],
    };
    SchemaManager { schemas: vec![("article".to_string(), schema)] }
}

#[test]
fn query_string_keeps_defaults_and_caller_values() {
    let mgr = manager_with_article_schema();
    let params = vec![("ordering".to_string(), "-published_at".to_string())];
    let qs = mgr.build_query_string("article", &params).unwrap();
    assert_eq!(qs, "?ordering=-published_at&limit=10");
}

#[test]
fn query_string_caller_value_overrides_default() {
    let mgr = manager_with_article_schema();
    let params = vec![("limit".to_string(), "5".to_string())];
    let qs = mgr.build_query_string("article", &params).unwrap();
    assert_eq!(qs, "?limit=5");
}

#[test]
fn query_string_drops_undeclared_parameters() {
    let mgr = manager_with_article_schema();
    let params = vec![
        ("evil".to_string(), "1".to_string()),
        ("ordering".to_string(), "x".to_string()),
    ];
    let qs = mgr.build_query_string("article", &params).unwrap();
    assert_eq!(qs, "?ordering=x&limit=10");
    assert!(!qs.contains("evil"));
}

#[test]
fn query_string_empty_without_pairs() {
    let schema = Schema {
        name: "bare".to_string(),
        fields: Vec::new(),
        nested_fields: Vec::new(),
        query_params: Vec::new(),
    };
    let mgr = SchemaManager { schemas: vec![("bare".to_string(), schema)] };
    assert_eq!(mgr.build_query_string("bare", &Vec::new()).unwrap(), "");
}

#[test]
fn query_string_encodes_values() {
    let mgr = manager_with_article_schema();
    let params = vec![("ordering".to_string(), "a b&c".to_string())];
    let qs = mgr.build_query_string("article", &params).unwrap();
    assert_eq!(qs, "?ordering=a%20b%26c&limit=10");
}

#[test]
fn encode_component_rewrites_reserved_bytes() {
    assert_eq!(encode_component("-published_at"), "-published_at");
    assert_eq!(encode_component("a b&c"), "a%20b%26c");
    assert_eq!(encode_component(""), "");
}

#[test]
fn unknown_schema_is_reported() {
    let mgr = manager_with_article_schema();
    let err = mgr.build_query_string("missing", &Vec::new()).unwrap_err();
    assert_eq!(err, ApiError::SchemaNotFound("missing".to_string()));
    assert_eq!(err.message(), "Schema 'missing' not found");
}

#[test]
fn apply_schema_passes_objects_through() {
    let mgr = manager_with_article_schema();
    let data = JsonValue::Object(vec![
        ("title".to_string(), JsonValue::Str("T".to_string())),
        ("id".to_string(), JsonValue::Int(1)),
    ]);
    let expected = JsonValue::Object(vec![
        ("title".to_string(), JsonValue::Str("T".to_string())),
        ("id".to_string(), JsonValue::Int(1)),
    ]);
    let once = mgr.apply_schema("article", data).unwrap();
    assert_eq!(once, expected);
    let twice = mgr.apply_schema("article", once).unwrap();
    assert_eq!(twice, expected);
}

#[test]
fn apply_schema_unknown_name_fails() {
    let mgr = manager_with_article_schema();
    let r = mgr.apply_schema("nope", JsonValue::Null);
    assert_eq!(r.unwrap_err(), ApiError::SchemaNotFound("nope".to_string()));
}

#[test]
fn load_from_str_reads_schema_sections() {
    let text = "[article]\nurl = \"https://api.spaceflightnewsapi.net/v4/articles\"\nenabled = true\n[\"article.schema\"]\nid = \"u32\"\ntitle = \"String\"\n[\"article.schema\".nested_fields]\nauthors = \"author\"\n[\"article.query_params\"]\nlimit = 10\nordering = \"-published_at\"\nflagged = true\nratio = 1.5\n";
    let mut mgr = SchemaManager::new();
    mgr.load_from_str(text).unwrap();
    assert_eq!(mgr.list_schemas(), vec!["article".to_string()]);
    let schema = mgr.get_schema("article").unwrap();
    assert_eq!(schema.name, "article");
    let field_names: Vec<&str> = schema.fields.iter().map(|f| f.name.as_str()).collect();
    assert_eq!(field_names, vec!["id", "title"]);
    assert_eq!(schema.fields[0].type_tag, "u32");
    assert!(!schema.fields[0].optional);
    assert_eq!(schema.nested_fields, vec![("authors".to_string(), "author".to_string())]);
    let param_names: Vec<&str> = schema.query_params.iter().map(|p| p.0.as_str()).collect();
    assert_eq!(param_names, vec!["flagged", "limit", "ordering", "ratio"]);
    let limit = &schema.query_params.iter().find(|p| p.0 == "limit").unwrap().1;
    assert_eq!(limit.param_type, "i64");
    assert_eq!(limit.default, Some(QueryParamValue::Integer(10)));
    let ordering = &schema.query_params.iter().find(|p| p.0 == "ordering").unwrap().1;
    assert_eq!(ordering.param_type, "String");
    assert_eq!(ordering.default, Some(QueryParamValue::Text("-published_at".to_string())));
    let flagged = &schema.query_params.iter().find(|p| p.0 == "flagged").unwrap().1;
    assert_eq!(flagged.param_type, "bool");
    assert_eq!(flagged.default, Some(QueryParamValue::Boolean(true)));
    let ratio = &schema.query_params.iter().find(|p| p.0 == "ratio").unwrap().1;
    assert_eq!(ratio.param_type, "f64");
    assert_eq!(ratio.default, Some(QueryParamValue::Float("1.5".to_string())));
}

#[test]
fn load_from_str_skips_reserved_sections() {
    let text = "[config]\noutput_format = \"table\"\n[types]\nx = \"y\"\n[article]\nurl = \"http://x/v1/articles\"\n";
    let mut mgr = SchemaManager::new();
    mgr.load_from_str(text).unwrap();
    assert_eq!(mgr.list_schemas(), vec!["article".to_string()]);
}

#[test]
fn load_from_str_rejects_bad_toml() {
    let mut mgr = SchemaManager::new();
    let err = mgr.load_from_str("= not toml").unwrap_err();
    assert!(matches!(err, ApiError::ConfigParse(_)));
    assert!(err.message().starts_with("Configuration parse error: "));
}

#[test]
fn param_value_to_string() {
    assert_eq!(QueryParamValue::Text("x".to_string()).to_string(), "x");
    assert_eq!(QueryParamValue::Integer(-3).to_string(), "-3");
    assert_eq!(QueryParamValue::Float("1.5".to_string()).to_string(), "1.5");
    assert_eq!(QueryParamValue::Boolean(false).to_string(), "false");
}

#[test]
fn explicit_param_definition_shapes() {
    let mgr = SchemaManager::new();
    let table = ConfigValue::Table(vec![
        ("type".to_string(), ConfigValue::Str("i64".to_string())),
        ("default".to_string(), ConfigValue::Int(25)),
        ("description".to_string(), ConfigValue::Str("page size".to_string())),
    ]);
    let def = mgr.parse_query_param_definition("limit", &table).unwrap();
    assert_eq!(def.name, "limit");
    assert_eq!(def.param_type, "i64");
    assert_eq!(def.default, Some(QueryParamValue::Integer(25)));
    assert_eq!(def.description, Some("page size".to_string()));

    let bare = ConfigValue::Str("String".to_string());
    let def = mgr.parse_query_param_definition("ordering", &bare).unwrap();
    assert_eq!(def.param_type, "String");
    assert_eq!(def.default, None);

    let bad = ConfigValue::Int(5);
    let err = mgr.parse_query_param_definition("broken", &bad).unwrap_err();
    assert_eq!(err, ApiError::InvalidQueryParam("broken".to_string()));
    assert_eq!(err.message(), "Invalid query parameter definition for broken");
}

#[test]
fn infer_param_type_order() {
    assert_eq!(SchemaManager::infer_param_type("10"), "i64");
    assert_eq!(SchemaManager::infer_param_type("1.5"), "f64");
    assert_eq!(SchemaManager::infer_param_type("true"), "bool");
    assert_eq!(SchemaManager::infer_param_type("-published_at"), "String");
}

#[test]
fn loading_twice_overwrites_by_name() {
    let text1 = "[article]\nurl = \"http://a\"\n[\"article.query_params\"]\nlimit = 1\n";
    let text2 = "[article]\nurl = \"http://b\"\n[\"article.query_params\"]\nlimit = 2\n";
    let mut mgr = SchemaManager::new();
    mgr.load_from_str(text1).unwrap();
    mgr.load_from_str(text2).unwrap();
    assert_eq!(mgr.list_schemas(), vec!["article".to_string()]);
    let schema = mgr.get_schema("article").unwrap();
    let limit = &schema.query_params.iter().find(|p| p.0 == "limit").unwrap().1;
    assert_eq!(limit.default, Some(QueryParamValue::Integer(2)));
}

#[test]
fn load_accepts_explicit_param_tables() {
    let text = "[article]\nurl = \"http://x/v1/articles\"\n[\"article.query_params\"]\nlimit = { type = \"i64\", default = 25, description = \"page size\" }\nordering = \"-published_at\"\n";
    let mut mgr = SchemaManager::new();
    mgr.load_from_str(text).unwrap();
    let schema = mgr.get_schema("article").unwrap();
    let limit = &schema.query_params.iter().find(|p| p.0 == "limit").unwrap().1;
    assert_eq!(limit.param_type, "i64");
    assert_eq!(limit.default, Some(QueryParamValue::Integer(25)));
    assert_eq!(limit.description, Some("page size".to_string()));
    let ordering = &schema.query_params.iter().find(|p| p.0 == "ordering").unwrap().1;
    assert_eq!(ordering.param_type, "String");
    assert_eq!(ordering.default, Some(QueryParamValue::Text("-published_at".to_string())));
}

#[test]
fn load_rejects_malformed_param_definitions() {
    let text = "[article]\nurl = \"http://x/v1/articles\"\n[\"article.query_params\"]\nlimit = [1, 2]\n";
    let mut mgr = SchemaManager::new();
    let err = mgr.load_from_str(text).unwrap_err();
    assert_eq!(err, ApiError::InvalidQueryParam("limit".to_string()));
    assert_eq!(err.message(), "Invalid query parameter definition for limit");
    // The failed load leaves the manager unchanged.
    assert!(mgr.list_schemas().is_empty());
}

#[test]
fn failed_load_leaves_earlier_schemas_in_place() {
    let mut mgr = SchemaManager::new();
    mgr.load_from_str("[article]\nurl = \"http://a\"\n").unwrap();
    let err = mgr
        .load_from_str(
            "[blog]\nurl = \"http://b\"\n[\"blog.query_params\"]\nbad = 1979-05-27\n",
        )
        .unwrap_err();
    assert_eq!(err, ApiError::InvalidQueryParam("bad".to_string()));
    assert_eq!(mgr.list_schemas(), vec!["article".to_string()]);
}
