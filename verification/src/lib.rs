//! Key handover between two enclave workers.
//!
//! An older worker (the server) gives a long-lived secret to a newer one (the
//! client). The server issues a challenge, the client answers with its
//! ephemeral public key and attestation evidence, and the server, once every
//! check has passed, returns the secret encrypted for that client.
//!
//! - [`engine`] holds the state of a node and the three steps of the protocol.
//! - [`admission`] is the acceptance predicate: what the checks say of a
//!   response, given what attestation and registry answered.
//! - [`policy`] holds the rules on freshness and versions, [`sealing`] the
//!   digests and the encryption of the secret.
//! - [`message`] holds the messages, [`wire`] their encoding.
//! - [`attestation`] holds what the embedding program has to provide,
//!   [`crypto`] the primitives that other crates provide.
//! - [`laws`] states what holds of all of this.

pub mod admission;
pub mod attestation;
pub mod bytes;
pub mod crypto;
pub mod engine;
pub mod error;
pub mod hex;
pub mod laws;
pub mod message;
pub mod policy;
pub mod sealing;
pub mod wire;

pub use attestation::{ExternalStatusGet, LocalAttestation, LocalReport, RemoteAttestation};
pub use engine::HandoverHandler;
pub use error::HandoverError;
pub use message::{
    ChallengeHandlerInfo, EncryptedDataInfo, HandoverChallenge, HandoverChallengeResponse,
    HandoverSecretData,
};
