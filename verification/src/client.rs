//! One call from start to end, with the connection left out: what to send before it,
//! and what to make of what came back after it.

use vstd::prelude::*;
use crate::error::Error;
use crate::payload::{encode, payload_text};
use crate::request::{build, request_text};
use crate::response::{body_of, split_body};
use crate::url::{decompose, decomposed, ParsedTarget};

verus! {

/// What one call sends, and where: the work to do on the connection.
#[derive(Debug, PartialEq, Eq)]
pub struct Outgoing {
    /// The peer to connect to.
    pub target: ParsedTarget,
    /// The request to write once connected.
    pub request: String,
}

/// Works out what to send for one remote command, before any connection is opened.
///
/// The URL gives the target, token and command give the JSON body, and both give the
/// request. An `https://` URL is refused here, so that nothing is ever sent for it.
pub fn prepare(server_url: &str, token: &str, command: &str) -> (r: Result<Outgoing, Error>)
    ensures
        match r {
            Ok(outgoing) => {
                &&& decomposed(server_url@) == Some(outgoing.target@)
                &&& outgoing.target@.well_formed()
                &&& outgoing.request@ == request_text(
                    outgoing.target@,
                    payload_text(token@, command@),
                )
            },
            Err(e) => e == Error::UnsupportedScheme && decomposed(server_url@) is None,
        },
{
    let target = match decompose(server_url) {
        Ok(target) => target,
        Err(e) => {
            return Err(e);
        },
    };
    let payload = encode(token, command);
    let request = build(&target, payload.as_str());
    Ok(Outgoing { target, request })
}

/// Turns what came of the connection into the result of the call.
///
/// `received` is either everything the peer sent until it closed the connection, or
/// the system's description of what went wrong while connecting, writing or reading.
/// The first gives the body after the first blank line, or `InvalidResponse` where
/// there is none; the second gives `ConnectionError` with that description.
pub fn conclude(received: Result<String, String>) -> (r: Result<String, Error>)
    ensures
        match received {
            Ok(raw) => match body_of(raw@) {
                Some(body) => r matches Ok(text) && text@ == body,
                None => r == Err::<String, Error>(Error::InvalidResponse),
            },
            Err(detail) => r == Err::<String, Error>(Error::ConnectionError(detail)),
        },
{
    match received {
        Ok(raw) => split_body(raw.as_str()),
        Err(detail) => Err(Error::ConnectionError(detail)),
    }
}

} // verus!
