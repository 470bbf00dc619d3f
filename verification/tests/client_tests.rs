use spacenews::client::PaginatedResponse;
use spacenews::client::SpaceDevsAPIBase;
use spacenews::client::paginated_of_json;
use spacenews::json::JsonValue;
use spacenews::endpoints::Paginated;
use spacenews::endpoints::Article;
use spacenews::endpoints::Author;
use spacenews::endpoints::Social;

fn page_without_links() -> JsonValue {
    JsonValue::Object(vec![
        ("count".to_string(), JsonValue::Int(3)),
        (
            "results".to_string(),
            JsonValue::Array(vec![
                JsonValue::Str("a".to_string()),
                JsonValue::Str("b".to_string()),
                JsonValue::Str("c".to_string()),
            ]),
        ),
    ])
}

#[test]
fn paginated_round_trip_without_links() {
    let page = paginated_of_json(page_without_links()).unwrap();
    assert_eq!(page.count, 3);
    assert_eq!(page.results.len(), 3);
    assert!(page.next.is_none());
    assert!(page.previous.is_none());
    assert_eq!(page.results[0], JsonValue::Str("a".to_string()));
}

#[test]
fn paginated_reads_links_and_ignores_null() {
    let v = JsonValue::Object(vec![
        ("count".to_string(), JsonValue::Int(10)),
        ("next".to_string(), JsonValue::Str("http://x?offset=10".to_string())),
        ("previous".to_string(), JsonValue::Null),
        ("results".to_string(), JsonValue::Array(Vec::new())),
    ]);
    let page = paginated_of_json(v).unwrap();
    assert_eq!(page.next, Some("http://x?offset=10".to_string()));
    assert_eq!(page.previous, None);
    assert!(page.results.is_empty());
}

#[test]
fn paginated_refuses_bad_shapes() {
    // No count.
    let v = JsonValue::Object(vec![("results".to_string(), JsonValue::Array(Vec::new()))]);
    assert!(paginated_of_json(v).is_none());
    // Negative count.
    let v = JsonValue::Object(vec![
        ("count".to_string(), JsonValue::Int(-1)),
        ("results".to_string(), JsonValue::Array(Vec::new())),
    ]);
    assert!(paginated_of_json(v).is_none());
    // Results not an array.
    let v = JsonValue::Object(vec![
        ("count".to_string(), JsonValue::Int(0)),
        ("results".to_string(), JsonValue::Null),
    ]);
    assert!(paginated_of_json(v).is_none());
    // Continuation of a wrong shape.
    let v = JsonValue::Object(vec![
        ("count".to_string(), JsonValue::Int(0)),
        ("next".to_string(), JsonValue::Int(1)),
        ("results".to_string(), JsonValue::Array(Vec::new())),
    ]);
    assert!(paginated_of_json(v).is_none());
    // Not an object at all.
    assert!(paginated_of_json(JsonValue::Array(Vec::new())).is_none());
}

#[test]
fn base_urls() {
    assert_eq!(
        SpaceDevsAPIBase::SPACENEWS.base_url(),
        "https://api.spaceflightnewsapi.net/v4"
    );
    assert_eq!(SpaceDevsAPIBase::SPACEDATA.base_url(), "https://ll.thespacedevs.com/2.2.0");
}

#[test]
fn endpoint_urls_strip_leading_slashes() {
    assert_eq!(
        SpaceDevsAPIBase::SPACENEWS.endpoint_url("/articles"),
        "https://api.spaceflightnewsapi.net/v4/articles"
    );
    assert_eq!(
        SpaceDevsAPIBase::SPACENEWS.endpoint_url("articles"),
        "https://api.spaceflightnewsapi.net/v4/articles"
    );
}

#[test]
fn record_types_hold_their_fields() {
    let author = Author {
        name: "A".to_string(),
        socials: Some(Social {
            twitter: Some("t".to_string()),
            youtube: None,
            instagram: None,
            linkedin: None,
            mastodon: None,
            bluesky: None,
        }),
    };
    let article = Article {
        id: 1,
        title: "T".to_string(),
        url: "u".to_string(),
        image_url: "i".to_string(),
        news_site: "N".to_string(),
        summary: "s".to_string(),
        published_at: "2025-01-01".to_string(),
        updated_at: "2025-01-02".to_string(),
        featured: false,
        authors: vec![author.clone()],
        launches: Vec::new(),
        events: Vec::new(),
    };
    let page = Paginated {
        count: 1,
        next: None,
        previous: None,
        results: vec![article.clone()],
    };
    assert_eq!(page.results[0].title, "T");
    assert_eq!(page.results[0].authors[0].name, "A");
    let envelope = PaginatedResponse {
        count: 1,
        next: None,
        previous: None,
        results: vec![article],
    };
    assert_eq!(envelope.results.len(), 1);
}
