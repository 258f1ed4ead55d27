//! The error of a failed page fetch, whichever backend made the request.

use vstd::prelude::*;
use vstd::string::StringExecFns;
use crate::text::{decimal, decimal_string};

verus! {

/// Why fetching a page failed.
pub enum FetchError {
    /// The server answered with a status that is not a success.
    HttpError { status: u16, url: String },
    /// The request did not complete (timeout, DNS failure, ...).
    NetworkError { error: String, url: String },
    /// The answer could not be decoded.
    ParseError { error: String, url: String },
}

/// Why one attempt to fetch a page failed, with the attempt's message.
pub enum AttemptError {
    /// The server answered with this status, which is not a success.
    Status { code: u16, message: String },
    /// The request did not complete.
    Network { message: String },
    /// The answer could not be decoded.
    Parse { message: String },
}

/// The message of a failed attempt.
pub open spec fn attempt_text(e: &AttemptError) -> Seq<char> {
    match e {
        AttemptError::Status { message, .. } => message@,
        AttemptError::Network { message } => message@,
        AttemptError::Parse { message } => message@,
    }
}

impl AttemptError {
    /// The attempt's message.
    pub fn message(&self) -> (m: String)
        ensures
            m@ == attempt_text(self),
    {
        match self {
            AttemptError::Status { message, .. } => message.clone(),
            AttemptError::Network { message } => message.clone(),
            AttemptError::Parse { message } => message.clone(),
        }
    }
}

/// The human-readable text of a fetch error.
pub open spec fn fetch_error_text(e: &FetchError) -> Seq<char> {
    match e {
        FetchError::HttpError { status, url } => "HTTP "@ + decimal(*status as nat) + " for "@ + url@,
        FetchError::NetworkError { error, url } => "network error for "@ + url@ + ": "@ + error@,
        FetchError::ParseError { error, url } => "parse error for "@ + url@ + ": "@ + error@,
    }
}

impl FetchError {
    /// The fetch error for `url` after a failed attempt: a status failure is
    /// an HTTP error with that status, a network failure a network error and
    /// a decoding failure a parse error, the attempt's message kept as the
    /// error text.
    pub fn from_attempt(url: &str, e: AttemptError) -> (r: Self)
        ensures
            match e {
                AttemptError::Status { code, .. } => r matches FetchError::HttpError { status, url: u } && status
                    == code && u@ == url@,
                AttemptError::Network { message } => r matches FetchError::NetworkError { error, url: u }
                    && error@ == message@ && u@ == url@,
                AttemptError::Parse { message } => r matches FetchError::ParseError { error, url: u } && error@
                    == message@ && u@ == url@,
            },
    {
        match e {
            AttemptError::Status { code, .. } => FetchError::HttpError { status: code, url: String::from_str(url) },
            AttemptError::Network { message } => FetchError::NetworkError { error: message, url: String::from_str(url) },
            AttemptError::Parse { message } => FetchError::ParseError { error: message, url: String::from_str(url) },
        }
    }

    /// The error as text, e.g. `HTTP 404 for https://example.com`.
    pub fn message(&self) -> (m: String)
        ensures
            m@ == fetch_error_text(self),
    {
        match self {
            FetchError::HttpError { status, url } => String::from_str("HTTP ").concat(
                decimal_string(*status as u64).as_str(),
            ).concat(" for ").concat(url.as_str()),
            FetchError::NetworkError { error, url } => String::from_str("network error for ").concat(
                url.as_str(),
            ).concat(": ").concat(error.as_str()),
            FetchError::ParseError { error, url } => String::from_str("parse error for ").concat(
                url.as_str(),
            ).concat(": ").concat(error.as_str()),
        }
    }
}

} // verus!
