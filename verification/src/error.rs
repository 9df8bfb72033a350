//! The error taxonomy of the client: every failure of a `send` is surfaced to
//! the caller as one of these kinds; nothing is retried or swallowed.

use vstd::prelude::*;

verus! {

/// What went wrong during a `send`.
///
/// `Serialization` is reserved for an outbound request that cannot be encoded;
/// the verified encoder is total, so no current input produces it.
/// `Transport` covers every failure of the HTTP exchange itself (DNS,
/// connection, TLS, timeout). `Deserialization` covers a reply body that does
/// not parse as a `Response`.
#[derive(Clone, Copy, Debug, PartialEq, Eq, Structural)]
pub enum ClientError {
    Serialization,
    Transport,
    Deserialization,
}

} // verus!
