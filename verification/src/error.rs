//! Error taxonomy for the chat protocol.
//!
//! Protocol violations (malformed frames) and cryptographic failures are kept
//! apart so that a caller can tell a corrupt frame from a forged one.

use vstd::prelude::*;

verus! {

/// A violation of the wire format itself.
#[derive(Debug, Clone, Copy, PartialEq, Eq, Structural)]
pub enum ProtocolError {
    /// A frame whose total size would exceed the protocol maximum.
    Oversized,
    /// A frame shorter than its header declares.
    Truncated,
    /// A message code that no variant owns.
    InvalidCode,
    /// A nicked payload without the NUL separator.
    InvalidPayload,
}

/// Any connection-fatal failure the library itself can detect.
#[derive(Debug, Clone, Copy, PartialEq, Eq, Structural)]
pub enum ChatError {
    /// The wire format was violated.
    Protocol(ProtocolError),
    /// Key agreement failed or an authentication tag did not verify.
    Crypto,
}

/// A policy rejection: the connection is refused before it is registered.
#[derive(Debug, Clone, Copy, PartialEq, Eq, Structural)]
pub enum RejectReason {
    /// The registry is already at its configured capacity.
    TooManyUsers,
    /// The requested nickname is already registered.
    NickTaken,
}

impl RejectReason {
    /// The reason text sent to the client inside `ConnectionRejected`.
    pub fn message(&self) -> (s: String)
        ensures
            *self is TooManyUsers ==> s@ == "too many users"@,
            *self is NickTaken ==> s@ == "nick taken"@,
    {
        match self {
            RejectReason::TooManyUsers => String::from_str("too many users"),
            RejectReason::NickTaken => String::from_str("nick taken"),
        }
    }
}

} // verus!
