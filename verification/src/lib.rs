//! Pure2P: a pure peer-to-peer messaging library.
//!
//! The library holds the protocol logic of the messenger: identities and
//! key agreement, the encrypted message envelope, signed contact tokens,
//! the retry queue, local chat state, and the NAT traversal wire formats.

#![allow(unused_imports)]

use vstd::prelude::*;

pub mod text;
pub mod connectivity;
pub mod clock;
pub mod cbor;
pub mod crypto;
pub mod wire;
pub mod protocol;
pub mod storage;
pub mod queue;
pub mod messaging;

verus! {

/// Error types for Pure2P operations
#[derive(Debug)]
pub enum Error {
    /// Cryptographic operation error
    Crypto(String),
    /// Transport layer error
    Transport(String),
    /// Storage operation error
    Storage(String),
    /// Message queue error
    Queue(String),
    /// General I/O error
    Io(String),
    /// JSON serialization error
    JsonSerialization(String),
    /// CBOR serialization error
    CborSerialization(String),
    /// Database error
    Database(String),
    /// HTTP error
    Http(String),
}

/// Result type alias for Pure2P operations
pub type Result<T> = core::result::Result<T, Error>;

} // verus!
