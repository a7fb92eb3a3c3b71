//! A minimal HTTP/1.1 client for posting one remote command.
//!
//! The library takes a URL apart, writes the JSON body and the request around it, and
//! takes the body out of the response. The connection itself is the caller's:
//! [`client::prepare`] says what to send and where, the caller sends it and reads
//! until the peer closes, and [`client::conclude`] turns what came back into the
//! result of the call.
//!
//! Texts are modelled as sequences of characters. Each function states what it
//! returns over that model, and the proof functions beside them state what follows
//! for every input.

pub mod client;
pub mod decimal;
pub mod error;
pub mod payload;
pub mod request;
pub mod response;
pub mod text;
pub mod trim;
pub mod url;
