use spacenews::url::build_url;
use spacenews::url::split_url;

#[test]
fn build_url_one_slash_between_parts() {
    assert_eq!(build_url("http://x/v1/", "/articles"), "http://x/v1/articles");
    assert_eq!(build_url("http://x/v1", "articles"), "http://x/v1/articles");
    assert_eq!(build_url("http://x/v1", "/articles"), "http://x/v1/articles");
    assert_eq!(build_url("http://x/v1///", "///articles"), "http://x/v1/articles");
}

#[test]
fn build_url_empty_parts() {
    assert_eq!(build_url("http://x", ""), "http://x/");
    assert_eq!(build_url("", "articles"), "/articles");
}

#[test]
fn split_url_at_last_slash() {
    let (base, path) = split_url("https://api.spaceflightnewsapi.net/v4/articles");
    assert_eq!(base, "https://api.spaceflightnewsapi.net/v4");
    assert_eq!(path, "articles");
}

#[test]
fn split_url_without_slash() {
    let (base, path) = split_url("articles");
    assert_eq!(base, "articles");
    assert_eq!(path, "");
}

#[test]
fn split_url_trailing_slash() {
    let (base, path) = split_url("http://x/v1/");
    assert_eq!(base, "http://x/v1");
    assert_eq!(path, "");
}
