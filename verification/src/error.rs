//! The reasons for which a handover is refused.

use vstd::prelude::*;

verus! {

/// Why a handover step failed. Every failure is final: a new attempt needs a
/// new challenge.
#[derive(Clone, Copy, Debug, PartialEq, Eq, Structural)]
pub enum HandoverError {
    /// The challenge is more than 150 blocks old, or lies in the future.
    HandoverExpired,
    /// The response does not echo the challenge that was issued last.
    ChallengeMismatch,
    /// The peer's local report does not verify on this machine.
    LocalAttestationRejected,
    /// The peer's remote attestation is missing or does not verify.
    RemoteAttestationRejected,
    /// No remote attestation could be had within the configured time.
    AttestationTimeout,
    /// A measurement of either side is missing from the registry.
    NotAuthorized,
    /// The two registry lists give one identity different introduction blocks.
    RegistryInconsistent,
    /// The client was not introduced strictly after the server.
    VersionNotNewer,
    /// A cryptographic primitive or a local report could not be produced.
    CryptoError,
    /// The bytes are not the encoding of a message.
    SerializationError,
}

} // verus!
