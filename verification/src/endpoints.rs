//! The domain records the remote API serves: flat mirrors of its JSON
//! shapes, and the paginated envelope that wraps list responses.

use vstd::prelude::*;

verus! {

/// An author's social-media handles.
#[derive(Debug, Clone, PartialEq)]
pub struct Social {
    pub twitter: Option<String>,
    pub youtube: Option<String>,
    pub instagram: Option<String>,
    pub linkedin: Option<String>,
    pub mastodon: Option<String>,
    pub bluesky: Option<String>,
}

/// An author of an article, blog or report.
#[derive(Debug, Clone, PartialEq)]
pub struct Author {
    pub name: String,
    pub socials: Option<Social>,
}

/// A launch a piece of content refers to.
#[derive(Debug, Clone, PartialEq)]
pub struct Launch {
    pub id: String,
    pub provider: String,
}

/// An event a piece of content refers to.
#[derive(Debug, Clone, PartialEq)]
pub struct Event {
    pub id: u32,
    pub provider: String,
}

/// A news article.
#[derive(Debug, Clone, PartialEq)]
pub struct Article {
    pub id: u32,
    pub title: String,
    pub url: String,
    pub image_url: String,
    pub news_site: String,
    pub summary: String,
    pub published_at: String,
    pub updated_at: String,
    pub featured: bool,
    pub authors: Vec<Author>,
    pub launches: Vec<Launch>,
    pub events: Vec<Event>,
}

/// A blog post.
#[derive(Debug, Clone, PartialEq)]
pub struct Blog {
    pub id: u32,
    pub title: String,
    pub authors: Vec<Author>,
    pub url: String,
    pub image_url: String,
    pub news_site: String,
    pub summary: String,
    pub published_at: String,
    pub updated_at: String,
    pub featured: bool,
    pub launches: Vec<Launch>,
    pub events: Vec<Event>,
}

/// A report.
#[derive(Debug, Clone, PartialEq)]
pub struct Report {
    pub id: u32,
    pub title: String,
    pub authors: Vec<Author>,
    pub url: String,
    pub image_url: String,
    pub news_site: String,
    pub summary: Option<String>,
    pub published_at: String,
    pub updated_at: String,
}

/// The paginated envelope that wraps list responses.
#[derive(Debug, Clone, PartialEq)]
pub struct Paginated<T> {
    pub count: u32,
    pub next: Option<String>,
    pub previous: Option<String>,
    pub results: Vec<T>,
}

} // verus!
