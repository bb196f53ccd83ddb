//! Wire-level mechanics of a WebSocket-style protocol: the opening handshake
//! that upgrades a plain byte stream into a full-duplex message channel, and
//! the binary framing format that carries messages afterward.
//!
//! The handshake side parses and validates an HTTP-like text header block and
//! derives the accept key; the framing side encodes and decodes frames with
//! three length encodings and an XOR masking scheme. All parsing rejects
//! malformed input with typed errors and never panics.

pub mod accept;
pub mod client;
pub mod error;
pub mod frame;
pub mod server;
pub mod session;
pub mod text;
