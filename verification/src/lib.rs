//! Client library for the SocketLabs Injection API: structured message data
//! is serialized into the API's JSON envelope, sent in one HTTP POST, and the
//! service's JSON reply is parsed into a typed `Response` or a typed error.
//!
//! The JSON wire format (serialization and parsing) is the library's own
//! verified logic; only the HTTP exchange itself is performed by an outside
//! crate behind a small trusted boundary.

pub mod error;
pub mod message;
pub mod laws;
pub mod parse;
pub mod request;
pub mod response;
pub mod transport;
pub mod wire;
