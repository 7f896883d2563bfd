//! Error taxonomy of the handshake and frame layer.
//!
//! Every error here is terminal for the connection that raised it: MAC chains
//! and ephemeral key material cannot be rolled back, so callers recover only
//! by opening a fresh connection and handshaking again.

use vstd::prelude::*;

verus! {

/// Failure of the handshake or of the frame codec.
#[derive(Clone, Copy, Debug, PartialEq, Eq, Structural)]
pub enum ECIESEerror {
    /// A MAC or tag mismatch, in an envelope or a frame. Never reveals
    /// which byte differed.
    TagCheckFailed,
    /// A structurally malformed or undersized auth payload after a
    /// successful decryption.
    InvalidAuthData,
    /// A structurally malformed or undersized ack payload after a
    /// successful decryption.
    InvalidAckData,
    /// An elliptic-curve operation failed, e.g. an invalid peer public key.
    KeyAgreementError,
    /// An I/O failure of the underlying stream, reported by the caller.
    TransportError,
}

impl ECIESEerror {
    /// A short, fixed description; carries no key material.
    pub fn describe(&self) -> (r: &'static str)
        ensures
            r@ == self.describe_spec(),
    {
        match self {
            ECIESEerror::TagCheckFailed => "tag check failure",
            ECIESEerror::InvalidAuthData => "invalid auth data",
            ECIESEerror::InvalidAckData => "invalid ack data",
            ECIESEerror::KeyAgreementError => "key agreement error",
            ECIESEerror::TransportError => "IO error",
        }
    }

    /// What `describe` returns for each variant.
    pub open spec fn describe_spec(self) -> Seq<char> {
        match self {
            ECIESEerror::TagCheckFailed => "tag check failure"@,
            ECIESEerror::InvalidAuthData => "invalid auth data"@,
            ECIESEerror::InvalidAckData => "invalid ack data"@,
            ECIESEerror::KeyAgreementError => "key agreement error"@,
            ECIESEerror::TransportError => "IO error"@,
        }
    }
}

} // verus!
