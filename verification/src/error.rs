//! Error type of the library.
//!
//! Failures that come from the network, from JSON decoding or from files are
//! reported by the program around the library; they reach this type as the
//! message that the failing component gave.

use vstd::prelude::*;

use crate::text::{extend_str, string_of};

verus! {

/// All errors that can occur in wiky.
#[derive(Debug)]
pub enum WikiError {
    /// Network or HTTP error when calling the Wikipedia API.
    Network(String),
    /// JSON parse error.
    Parse(String),
    /// No article found for the given query.
    NotFound(String),
    /// Wikipedia API returned an unexpected response.
    Api(String),
    /// Config file error.
    Config(String),
    /// Invalid hex color string.
    InvalidColor(String),
    /// IO error (reading/writing files).
    Io(String),
    /// Generic error wrapper.
    Other(String),
}

/// The human-readable text of an error.
pub open spec fn error_message(e: WikiError) -> Seq<char> {
    match e {
        WikiError::Network(m) => "network error: "@ + m@,
        WikiError::Parse(m) => "parse error: "@ + m@,
        WikiError::NotFound(m) => "article not found: '"@ + m@ + "'"@,
        WikiError::Api(m) => "API error: "@ + m@,
        WikiError::Config(m) => "config error: "@ + m@,
        WikiError::InvalidColor(m) => "invalid color '"@ + m@ + "': expected #RRGGBB or #RGB"@,
        WikiError::Io(m) => "io error: "@ + m@,
        WikiError::Other(m) => m@,
    }
}

impl WikiError {
    /// The human-readable text of this error.
    pub fn message(&self) -> (r: String)
        ensures
            r@ == error_message(*self),
    {
        let mut v: Vec<char> = Vec::new();
        match self {
            WikiError::Network(m) => {
                extend_str(&mut v, "network error: ");
                extend_str(&mut v, m.as_str());
            },
            WikiError::Parse(m) => {
                extend_str(&mut v, "parse error: ");
                extend_str(&mut v, m.as_str());
            },
            WikiError::NotFound(m) => {
                extend_str(&mut v, "article not found: '");
                extend_str(&mut v, m.as_str());
                extend_str(&mut v, "'");
            },
            WikiError::Api(m) => {
                extend_str(&mut v, "API error: ");
                extend_str(&mut v, m.as_str());
            },
            WikiError::Config(m) => {
                extend_str(&mut v, "config error: ");
                extend_str(&mut v, m.as_str());
            },
            WikiError::InvalidColor(m) => {
                extend_str(&mut v, "invalid color '");
                extend_str(&mut v, m.as_str());
                extend_str(&mut v, "': expected #RRGGBB or #RGB");
            },
            WikiError::Io(m) => {
                extend_str(&mut v, "io error: ");
                extend_str(&mut v, m.as_str());
            },
            WikiError::Other(m) => {
                extend_str(&mut v, m.as_str());
            },
        }
        string_of(&v)
    }
}

} // verus!
