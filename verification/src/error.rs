//! Failure taxonomy for the session client.

use vstd::prelude::*;

verus! {

/// A typed failure surfaced to the caller of the triggering operation.
/// Each variant carries a human-readable message.
#[derive(Debug, Clone)]
pub enum Error {
    /// Cookies are invalid or expired, or the server answered with a login page.
    Authentication(String),
    /// Transport-level failure or a non-success status from the generate endpoint.
    Network(String),
    /// Malformed or unrecognized response shape.
    Parse(String),
    /// An outbound call exceeded the configured timeout.
    Timeout,
    /// Cookie file missing required entries or malformed.
    Cookie(String),
    /// An operation was attempted before the session token was acquired.
    NotInitialized(String),
    /// Attachment transfer failed.
    Upload(String),
}

impl Error {
    /// The message carried by this failure.
    pub open spec fn spec_message(&self) -> Seq<char> {
        match self {
            Error::Authentication(m) => m@,
            Error::Network(m) => m@,
            Error::Parse(m) => m@,
            Error::Timeout => "Request timed out"@,
            Error::Cookie(m) => m@,
            Error::NotInitialized(m) => m@,
            Error::Upload(m) => m@,
        }
    }

    /// The human-readable message carried by this failure.
    pub fn message(&self) -> (r: &str)
        ensures
            r@ == self.spec_message(),
    {
        match self {
            Error::Authentication(m) => m.as_str(),
            Error::Network(m) => m.as_str(),
            Error::Parse(m) => m.as_str(),
            Error::Timeout => "Request timed out",
            Error::Cookie(m) => m.as_str(),
            Error::NotInitialized(m) => m.as_str(),
            Error::Upload(m) => m.as_str(),
        }
    }
}

} // verus!
