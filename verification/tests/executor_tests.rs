use spacenews::executor::APIExecutor;
use spacenews::executor::EndpointConfig;
use spacenews::executor::GlobalConfig;
use spacenews::json::JsonValue;
use spacenews::schema::SchemaManager;
use spacenews::schema::Schema;
use spacenews::schema::QueryParamDefinition;
use spacenews::schema::QueryParamValue;
use spacenews::error::ApiError;
use spacenews::config::ConfigValue;

fn stub_page() -> JsonValue {
    JsonValue::Object(vec![
        ("count".to_string(), JsonValue::Int(1)),
        (
            "results".to_string(),
            JsonValue::Array(vec![JsonValue::Object(vec![
                ("title".to_string(), JsonValue::Str("T".to_string())),
                ("news_site".to_string(), JsonValue::Str("N".to_string())),
                ("published_at".to_string(), JsonValue::Str("2025-01-01".to_string())),
            ])]),
        ),
    ])
}

fn detailed_executor() -> APIExecutor {
    APIExecutor::default()
}

#[test]
fn detailed_view_of_stub_page() {
    let exec = detailed_executor();
    let out = exec.display_detailed(&stub_page());
    assert!(out.contains("Total results: 1"));
    assert!(out.contains("title: T"));
    let expected = "  Total results: 1\n  Displaying first 1 items:\n    Item 1:\n      title: T\n      news_site: N\n      published_at: 2025-01-01\n";
    assert_eq!(out, expected);
}

#[test]
fn detailed_view_of_plain_object() {
    let exec = detailed_executor();
    let data = JsonValue::Object(vec![
        ("name".to_string(), JsonValue::Str("x".to_string())),
        ("flag".to_string(), JsonValue::Bool(true)),
        ("missing".to_string(), JsonValue::Null),
    ]);
    let out = exec.display_detailed(&data);
    let expected = "  Response:\n    name: x\n    flag: true\n    missing: null\n";
    assert_eq!(out, expected);
}

#[test]
fn detailed_view_nests_objects_and_summarises_arrays() {
    let exec = detailed_executor();
    let data = JsonValue::Object(vec![
        (
            "author".to_string(),
            JsonValue::Object(vec![("name".to_string(), JsonValue::Str("A".to_string()))]),
        ),
        ("events".to_string(), JsonValue::Array(vec![JsonValue::Int(1), JsonValue::Int(2)])),
        ("tags".to_string(), JsonValue::Array(vec![JsonValue::Str("x".to_string())])),
    ]);
    let out = exec.display_detailed(&data);
    let expected = "  Response:\n    author:\n      name: A\n    events: [2 items]\n    tags: [1 items]\n      First item: x\n";
    assert_eq!(out, expected);
}

#[test]
fn detailed_view_honours_max_display_items() {
    let mut exec = detailed_executor();
    exec.global_config.max_display_items = 2;
    let items: Vec<JsonValue> = (0..5)
        .map(|i| JsonValue::Object(vec![("id".to_string(), JsonValue::Int(i))]))
        .collect();
    let data = JsonValue::Object(vec![
        ("count".to_string(), JsonValue::Int(5)),
        ("results".to_string(), JsonValue::Array(items)),
    ]);
    let out = exec.display_detailed(&data);
    assert!(out.contains("Displaying first 2 items:"));
    assert!(out.contains("Item 2:"));
    assert!(!out.contains("Item 3:"));
}

#[test]
fn table_view_truncates_long_titles() {
    let exec = detailed_executor();
    let title = "A".repeat(40);
    let data = JsonValue::Object(vec![
        ("count".to_string(), JsonValue::Int(1)),
        (
            "results".to_string(),
            JsonValue::Array(vec![JsonValue::Object(vec![
                ("title".to_string(), JsonValue::Str(title)),
                ("news_site".to_string(), JsonValue::Str("Site".to_string())),
                ("published_at".to_string(), JsonValue::Str("2025-01-01T00:00:00Z11".to_string())),
            ])]),
        ),
    ]);
    let out = exec.display_as_table(&data);
    let lines: Vec<&str> = out.lines().collect();
    assert_eq!(lines.len(), 3);
    let cell = format!("{}...", "A".repeat(27));
    assert!(lines[2].contains(&cell));
    assert!(!lines[2].contains(&"A".repeat(28)));
    // The rendered width is fixed no matter how long the title was.
    assert_eq!(lines[2].len(), lines[0].len());
    // The published field is cut to 20 characters.
    assert!(lines[2].contains("2025-01-01T00:00:00Z"));
    assert!(!lines[2].contains("2025-01-01T00:00:00Z1"));
}

#[test]
fn table_view_uses_placeholders_for_missing_fields() {
    let exec = detailed_executor();
    let data = JsonValue::Object(vec![
        ("count".to_string(), JsonValue::Int(1)),
        (
            "results".to_string(),
            JsonValue::Array(vec![JsonValue::Object(vec![(
                "title".to_string(),
                JsonValue::Str("Short".to_string()),
            )])]),
        ),
    ]);
    let out = exec.display_as_table(&data);
    let lines: Vec<&str> = out.lines().collect();
    assert_eq!(lines[0], "  | Title                          | News Site            | Published            |");
    assert_eq!(
        lines[1],
        "  |--------------------------------|----------------------|----------------------|"
    );
    assert_eq!(lines[2], "  | Short                          | N/A                  | N/A                  |");
}

#[test]
fn json_view_pretty_prints() {
    let mut exec = detailed_executor();
    exec.global_config.output_format = "json".to_string();
    let data = JsonValue::Object(vec![("a".to_string(), JsonValue::Int(1))]);
    let endpoint = EndpointConfig {
        name: "e".to_string(),
        url: "http://x/v1/articles".to_string(),
        enabled: true,
        schema_name: "e".to_string(),
        query_params: Vec::new(),
    };
    let out = exec.display_results(&endpoint, &data);
    assert_eq!(out, "{\n  \"a\": 1\n}\n");
}

#[test]
fn from_config_str_reads_endpoints_and_options() {
    let text = "[config]\noutput_format = \"table\"\nmax_display_items = 3\n[article]\nurl = \"https://api.spaceflightnewsapi.net/v4/articles\"\nenabled = true\n[blog]\nurl = \"https://api.spaceflightnewsapi.net/v4/blogs\"\n[broken]\nenabled = true\n[\"article.query_params\"]\nlimit = 5\n";
    let exec = APIExecutor::from_config_str(text).unwrap();
    assert_eq!(exec.global_config.output_format, "table");
    assert_eq!(exec.global_config.max_display_items, 3);
    let names: Vec<&str> = exec.endpoints.iter().map(|e| e.name.as_str()).collect();
    assert_eq!(names, vec!["article", "blog"]);
    let article = &exec.endpoints[0];
    assert!(article.enabled);
    assert_eq!(article.schema_name, "article");
    assert_eq!(article.query_params, vec![("limit".to_string(), "5".to_string())]);
    let blog = &exec.endpoints[1];
    assert!(!blog.enabled);
    assert!(exec.schema_manager.get_schema("article").is_some());
}

#[test]
fn from_config_str_defaults() {
    let exec = APIExecutor::from_config_str("").unwrap();
    assert_eq!(exec.global_config.output_format, "detailed");
    assert_eq!(exec.global_config.max_display_items, 10);
    assert!(exec.endpoints.is_empty());
}

#[test]
fn from_config_str_rejects_bad_toml() {
    let err = APIExecutor::from_config_str("= not toml").unwrap_err();
    assert!(matches!(err, ApiError::ConfigParse(_)));
}

#[test]
fn request_url_joins_base_path_and_query() {
    let schema = Schema {
        name: "article".to_string(),
        fields: Vec::new(),
        nested_fields: Vec::new(),
        query_params: vec![(
            "limit".to_string(),
            QueryParamDefinition {
                name: "limit".to_string(),
                param_type: "i64".to_string(),
                default: Some(QueryParamValue::Integer(10)),
                description: None,
            },
        )],
    };
    let exec = APIExecutor {
        schema_manager: SchemaManager { schemas: vec![("article".to_string(), schema)] },
        endpoints: Vec::new(),
        global_config: GlobalConfig {
            output_format: "detailed".to_string(),
            max_display_items: 10,
        },
    };
    let endpoint = EndpointConfig {
        name: "article".to_string(),
        url: "https://api.spaceflightnewsapi.net/v4/articles".to_string(),
        enabled: true,
        schema_name: "article".to_string(),
        query_params: Vec::new(),
    };
    let url = exec.endpoint_request_url(&endpoint).unwrap();
    assert_eq!(url, "https://api.spaceflightnewsapi.net/v4/articles?limit=10");

    let missing = EndpointConfig { schema_name: "nope".to_string(), ..endpoint };
    let err = exec.endpoint_request_url(&missing).unwrap_err();
    assert_eq!(err, ApiError::SchemaNotFound("nope".to_string()));
}

#[test]
fn toml_value_to_string_scalars_only() {
    assert_eq!(
        APIExecutor::toml_value_to_string(&ConfigValue::Str("x".to_string())),
        Some("x".to_string())
    );
    assert_eq!(APIExecutor::toml_value_to_string(&ConfigValue::Int(-5)), Some("-5".to_string()));
    assert_eq!(
        APIExecutor::toml_value_to_string(&ConfigValue::Bool(true)),
        Some("true".to_string())
    );
    assert_eq!(
        APIExecutor::toml_value_to_string(&ConfigValue::Float("2.5".to_string())),
        Some("2.5".to_string())
    );
    assert_eq!(APIExecutor::toml_value_to_string(&ConfigValue::Array(Vec::new())), None);
}

#[test]
fn end_to_end_detailed_flow() {
    let text = "[article]\nurl = \"http://stub.test/v4/articles\"\nenabled = true\n[\"article.query_params\"]\nlimit = 1\n";
    let exec = APIExecutor::from_config_str(text).unwrap();
    let endpoint = &exec.endpoints[0];
    assert!(endpoint.enabled);
    let url = exec.endpoint_request_url(endpoint).unwrap();
    assert_eq!(url, "http://stub.test/v4/articles?limit=1");
    // The stub server's page, as the fetch would hand it back.
    let body = JsonValue::Object(vec![
        ("count".to_string(), JsonValue::Int(1)),
        (
            "results".to_string(),
            JsonValue::Array(vec![JsonValue::Object(vec![
                ("title".to_string(), JsonValue::Str("T".to_string())),
                ("news_site".to_string(), JsonValue::Str("N".to_string())),
                ("published_at".to_string(), JsonValue::Str("2025-01-01".to_string())),
            ])]),
        ),
    ]);
    let shaped = exec.schema_manager.apply_schema(&endpoint.schema_name, body).unwrap();
    let out = exec.display_results(endpoint, &shaped);
    assert!(out.contains("Total results: 1"));
    assert!(out.contains("title: T"));
}

#[test]
fn negative_display_count_wraps() {
    let text = "[config]\nmax_display_items = -1\n";
    let exec = APIExecutor::from_config_str(text).unwrap();
    assert_eq!(exec.global_config.max_display_items, usize::MAX);
}

#[test]
fn no_schema_manager_message() {
    assert_eq!(ApiError::NoSchemaManager.message(), "No schema manager configured");
}

#[test]
fn from_config_str_rejects_malformed_param_definitions() {
    let text = "[article]\nurl = \"http://x/v1/articles\"\n[\"article.query_params\"]\nlimit = [1, 2]\n";
    let err = APIExecutor::from_config_str(text).unwrap_err();
    assert_eq!(err, ApiError::InvalidQueryParam("limit".to_string()));
}
