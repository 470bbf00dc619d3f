use spacenews::migrate::ColType;
use spacenews::migrate::content_table;
use spacenews::migrate::up_tables;
use spacenews::migrate::up_indexes;
use spacenews::migrate::down_table_order;

#[test]
fn content_tables_share_their_columns() {
    let t = content_table("articles");
    assert_eq!(t.name, "articles");
    let names: Vec<&str> = t.columns.iter().map(|c| c.name.as_str()).collect();
    assert_eq!(
        names,
        vec![
            "id", "title", "url", "image_url", "news_site", "summary", "published_at",
            "updated_at", "featured"
        ]
    );
    assert!(t.columns[0].primary_key);
    assert_eq!(t.columns[5].col_type, ColType::Text);
    assert!(t.columns[8].default_false);
    assert!(t.columns[8].not_null);
    assert!(t.foreign_keys.is_empty());
    assert!(t.composite_primary_key.is_empty());
}

#[test]
fn up_creates_every_table_in_order() {
    let tables = up_tables();
    let names: Vec<&str> = tables.iter().map(|t| t.name.as_str()).collect();
    assert_eq!(
        names,
        vec![
            "authors",
            "author_socials",
            "launches",
            "events",
            "articles",
            "blogs",
            "reports",
            "article_authors",
            "blog_authors",
            "report_authors",
            "article_launches",
            "blog_launches",
            "report_launches",
            "article_events",
            "blog_events",
            "report_events",
        ]
    );
}

#[test]
fn join_tables_carry_composite_keys_and_cascading_foreign_keys() {
    let tables = up_tables();
    let t = tables.iter().find(|t| t.name == "article_authors").unwrap();
    assert_eq!(t.composite_primary_key, vec!["article_id".to_string(), "author_id".to_string()]);
    assert_eq!(t.foreign_keys.len(), 2);
    assert_eq!(t.foreign_keys[0].name, "fk-article_authors-article_id");
    assert_eq!(t.foreign_keys[0].to_table, "articles");
    assert_eq!(t.foreign_keys[0].to_col, "id");
    assert_eq!(t.foreign_keys[1].to_table, "authors");
}

#[test]
fn author_socials_cascades_with_authors() {
    let tables = up_tables();
    let t = tables.iter().find(|t| t.name == "author_socials").unwrap();
    assert_eq!(t.foreign_keys.len(), 1);
    assert_eq!(t.foreign_keys[0].from_col, "author_id");
    assert_eq!(t.foreign_keys[0].to_table, "authors");
    let cols: Vec<&str> = t.columns.iter().map(|c| c.name.as_str()).collect();
    assert_eq!(
        cols,
        vec!["author_id", "x", "youtube", "instagram", "linkedin", "mastodon", "bluesky"]
    );
}

#[test]
fn reference_tables_auto_increment() {
    let tables = up_tables();
    let t = tables.iter().find(|t| t.name == "launches").unwrap();
    assert!(t.columns[0].auto_increment);
    assert_eq!(t.columns[1].name, "external_id");
    assert_eq!(t.columns[1].col_type, ColType::BigInteger);
}

#[test]
fn indexes_cover_the_author_joins() {
    let idx = up_indexes();
    let names: Vec<&str> = idx.iter().map(|i| i.name.as_str()).collect();
    assert_eq!(
        names,
        vec![
            "idx-article_authors-author_id",
            "idx-blog_authors-author_id",
            "idx-report_authors-author_id"
        ]
    );
    assert!(idx.iter().all(|i| i.col == "author_id"));
}

#[test]
fn down_drops_in_reverse_creation_order() {
    let tables = up_tables();
    let down = down_table_order();
    assert_eq!(down.len(), tables.len());
    let mut reversed: Vec<String> = tables.iter().map(|t| t.name.clone()).collect();
    reversed.reverse();
    assert_eq!(down, reversed);
    assert_eq!(down[0], "report_events");
    assert_eq!(down[down.len() - 1], "authors");
}

#[test]
fn every_foreign_key_targets_an_earlier_table() {
    let tables = up_tables();
    for (i, t) in tables.iter().enumerate() {
        for fk in &t.foreign_keys {
            let j = tables.iter().position(|u| u.name == fk.to_table).unwrap();
            assert!(j < i, "{} references {}", t.name, fk.to_table);
        }
    }
}
