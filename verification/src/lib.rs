//! A secure, authenticated, framed session with a remote access point, as a
//! protocol core that performs no input or output of its own.
//!
//! The crate holds the rules of the session: the key-exchange handshake, the
//! codec that seals and opens frames, and the credential exchange that trades
//! credentials for a reusable token. A driver owns the byte stream; it performs
//! the action that a step hands out and reports the outcome as the next event.
//!
//! The stages depend on each other in one order: `connect` resolves and
//! dials, the handshake derives the ciphers, the transport frames what is
//! sent and received, and `authenticate` runs the login over the transport.
//! No stage is tried again in place: after a failure the connection is made
//! anew.

pub mod authentication;
pub mod cipher;
pub mod codec;
pub mod connection;
pub mod exchange;
pub mod handshake;
pub mod transport;
pub mod wire;

pub use authentication::{authenticate, Authentication, Credentials};
pub use codec::APCodec;
pub use connection::{connect, Connection};
pub use handshake::{handshake, Handshake};
pub use transport::Transport;
