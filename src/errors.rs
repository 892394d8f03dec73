//! The error taxonomy of the library.
use vstd::prelude::*;

verus! {

/// One entry of the provider's structured error envelope.
#[derive(Debug, Clone)]
pub struct TwitterErrorEntry {
    pub code: i64,
    pub message: String,
}

/// Everything that can go wrong between building a request and using the
/// provider's answer.
#[derive(Debug, Clone)]
pub enum TError {
    /// The connection failed before a full response came back.
    TransportFailure,
    /// A body was not valid UTF-8, or not the JSON that was expected.
    DecodeFailure,
    /// The provider answered with its structured error envelope: the
    /// response headers (name and value) and the entries.
    TwitterError(Vec<(String, String)>, Vec<TwitterErrorEntry>),
    /// The provider's rate limit was hit; the reset time is in the headers.
    RateLimit,
    /// A status outside the success range, with no error envelope.
    BadStatus(u16),
    /// A token, state or verifier is missing or does not match.
    InvalidCredentialError(String),
    /// Malformed input from the caller.
    ValidationError(String),
    /// A URL that could not be parsed.
    UrlParseError,
    /// A query string that is not a list of `key=value` pairs.
    MalformedQuery,
    /// The relational store failed.
    DatabaseError,
    /// The token cache failed.
    CacheError,
}

} // verus!
