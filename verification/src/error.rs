//! The library's failure cases: an unreadable configuration document, a
//! schema name that was never loaded, and schema operations attempted on a
//! client built without schema support.

use vstd::prelude::*;
use vstd::string::StringExecFns;

verus! {

/// Why a library operation failed.
#[derive(Debug, Clone, PartialEq)]
pub enum ApiError {
    /// The configuration text could not be read as a structured document;
    /// the reader's own words are kept.
    ConfigParse(String),
    /// A schema was named that the manager has not loaded.
    SchemaNotFound(String),
    /// A schema operation was asked of a client built without a manager.
    NoSchemaManager,
    /// A query parameter definition had a shape that cannot be read.
    InvalidQueryParam(String),
}

/// The spec-level text of `ApiError::message`.
pub open spec fn error_message_chars(e: ApiError) -> Seq<char> {
    match e {
        ApiError::ConfigParse(s) => "Configuration parse error: "@ + s@,
        ApiError::SchemaNotFound(name) => "Schema '"@ + name@ + "' not found"@,
        ApiError::NoSchemaManager => "No schema manager configured"@,
        ApiError::InvalidQueryParam(name) => "Invalid query parameter definition for "@ + name@,
    }
}

impl ApiError {
    /// A human-readable line describing the failure.
    pub fn message(&self) -> (r: String)
        ensures
            r@ == error_message_chars(*self),
    {
        match self {
            ApiError::ConfigParse(s) => {
                let mut m = String::from_str("Configuration parse error: ");
                m.append(s.as_str());
                m
            },
            ApiError::SchemaNotFound(name) => {
                let mut m = String::from_str("Schema '");
                m.append(name.as_str());
                m.append("' not found");
                m
            },
            ApiError::NoSchemaManager => String::from_str("No schema manager configured"),
            ApiError::InvalidQueryParam(name) => {
                let mut m = String::from_str("Invalid query parameter definition for ");
                m.append(name.as_str());
                m
            },
        }
    }
}

} // verus!
