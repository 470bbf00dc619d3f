//! A verified toolkit for a spaceflight-news REST API: URL and query-string
//! building, configuration-driven schemas, response shaping and rendering,
//! and the relational schema the companion migration tool creates.

pub mod client;
pub mod config;
pub mod endpoints;
pub mod error;
pub mod executor;
pub mod json;
pub mod migrate;
pub mod numparse;
pub mod schema;
pub mod strutil;
pub mod url;
pub mod urlenc;
