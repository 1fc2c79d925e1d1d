//! Core of a multi-user chat service built on a small binary wire protocol:
//! typed messages with numeric codes, byte-level framing with a hard size
//! bound, an ephemeral-key handshake that upgrades a session to authenticated
//! encryption, and the server-side registry and router that fan broadcasts out
//! to every connected session.
//!
//! The crate holds no sockets: a [`session::Session`] turns messages into the
//! exact bytes to write and turns received bytes back into messages, so any
//! transport can carry them.

pub mod codec;
pub mod crypto;
pub mod error;
pub mod msg;
pub mod server;
pub mod session;

pub use codec::ECDH_PUBLIC_LEN;
pub use codec::MSG_LENGTH;
pub use codec::NONCE_SIZE;
pub use msg::Msg;
pub use server::AuthDecision;
pub use server::Registry;
pub use server::Router;
pub use server::Server;
pub use session::Session;
pub use error::ChatError;
pub use error::ProtocolError;
pub use error::RejectReason;
