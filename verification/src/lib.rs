//! Mutually authenticated, forward-secure channel for an object-capability
//! network: a Noise XX handshake whose payloads bind each peer's long-term
//! signing identity to its transport key, and the framing that protects the
//! traffic after it.
//!
//! - `layout`: the fixed byte layout of the shared buffer.
//! - `identity`: signing and checking the binding of an identity to a
//!   transport key.
//! - `engine`: what the session relies on of the Noise engine and of the
//!   cipher streams it derives.
//! - `session`: the session itself, its six handshake steps and its two
//!   transport operations.
//! - `error`: the failures of the operations and their status codes.
//! - `laws`: what holds of every session.

pub mod engine;
pub mod error;
pub mod identity;
pub mod laws;
pub mod layout;
pub mod session;
