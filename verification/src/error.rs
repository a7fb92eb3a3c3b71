//! The ways in which a call can fail.

use vstd::prelude::*;
use vstd::string::StringExecFns;

verus! {

/// Why a call ended without a response body.
#[derive(Debug, PartialEq, Eq)]
pub enum Error {
    /// The URL asks for `https://`, which this client does not speak.
    UnsupportedScheme,
    /// Connecting, writing or reading failed; carries the system's description.
    ConnectionError(String),
    /// The peer closed the connection without sending a blank line after the headers.
    InvalidResponse,
}

impl Error {
    /// The text that `message` gives for this error.
    pub open spec fn message_text(self) -> Seq<char> {
        match self {
            Error::UnsupportedScheme => "https scheme not supported without deps"@,
            Error::ConnectionError(detail) => detail@,
            Error::InvalidResponse => "invalid response"@,
        }
    }

    /// The human-readable description handed to the caller.
    pub fn message(&self) -> (text: String)
        ensures
            text@ == self.message_text(),
    {
        match self {
            Error::UnsupportedScheme => String::from_str("https scheme not supported without deps"),
            Error::ConnectionError(detail) => detail.clone(),
            Error::InvalidResponse => String::from_str("invalid response"),
        }
    }
}

} // verus!
