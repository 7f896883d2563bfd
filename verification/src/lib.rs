//! Encrypted-transport handshake and authenticated frame protocol.
//!
//! Turns a raw byte stream between two peers into a mutually authenticated,
//! confidentiality- and integrity-protected channel: envelope encryption for
//! the handshake messages, an iterated-hash key derivation, a keyed running
//! MAC per direction, a two-party handshake state machine, and the frame
//! codec the handshake establishes.

use vstd::prelude::*;

pub mod bytes;
pub mod cipher;
pub mod crypto;
pub mod envelope;
pub mod errors;
pub mod fields;
pub mod frame;
pub mod handshake;
pub mod kdf;
pub mod mac;

pub use envelope::EciesEnvelope;
pub use errors::ECIESEerror;
pub use frame::Secrets;
pub use handshake::Advance;
pub use handshake::HandshakeSession;
pub use handshake::HsState;
pub use handshake::Role;
pub use mac::MAC;

verus! {

/// Width of an uncompressed public key on the wire, prefix byte stripped.
pub const PUBLIC_KEY_LEN: usize = 64;

/// Width of a handshake nonce.
pub const NONCE_LEN: usize = 32;

/// Width of a MAC tag and of a frame header.
pub const TAG_LEN: usize = 16;

/// Protocol version this design negotiates.
pub const PROTOCOL_VERSION: u8 = 4;

} // verus!
