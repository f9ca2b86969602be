//! The messages of a handover, each with the mathematical value it stands for.
//!
//! Equality and cloning are by value: two messages are equal when their views
//! are, and a clone has the view of what it was made from.

use vstd::prelude::*;
use vstd::std_specs::cmp::PartialEqSpecImpl;
use crate::bytes::{bytes_equal, bytes_to_vec};

verus! {

/// What a [`HandoverChallenge`] holds.
pub struct ChallengeView {
    pub sgx_target_info: Seq<u8>,
    pub block_number: u64,
    pub dev_mode: bool,
    pub nonce: Seq<u8>,
}

impl ChallengeView {
    /// The nonce has its 32 bytes.
    pub open spec fn wf(self) -> bool {
        self.nonce.len() == 32
    }
}

/// The server's challenge: where to address a local report, the block at
/// which it was issued, and a nonce that makes it unique.
#[derive(Debug)]
pub struct HandoverChallenge {
    /// The server's encoded target info; empty in dev mode.
    pub sgx_target_info: Vec<u8>,
    pub block_number: u64,
    pub dev_mode: bool,
    pub nonce: [u8; 32],
}

impl View for HandoverChallenge {
    type V = ChallengeView;

    open spec fn view(&self) -> ChallengeView {
        ChallengeView {
            sgx_target_info: self.sgx_target_info@,
            block_number: self.block_number,
            dev_mode: self.dev_mode,
            nonce: self.nonce@,
        }
    }
}

impl Clone for HandoverChallenge {
    fn clone(&self) -> (r: Self)
        ensures
            r@ == self@,
    {
        HandoverChallenge {
            sgx_target_info: bytes_to_vec(self.sgx_target_info.as_slice()),
            block_number: self.block_number,
            dev_mode: self.dev_mode,
            nonce: self.nonce,
        }
    }
}

impl PartialEq for HandoverChallenge {
    fn eq(&self, other: &Self) -> (r: bool) {
        bytes_equal(self.sgx_target_info.as_slice(), other.sgx_target_info.as_slice())
            && self.block_number == other.block_number && self.dev_mode == other.dev_mode
            && bytes_equal(&self.nonce, &other.nonce)
    }
}

impl PartialEqSpecImpl for HandoverChallenge {
    open spec fn obeys_eq_spec() -> bool {
        true
    }

    open spec fn eq_spec(&self, other: &Self) -> bool {
        self@ == other@
    }
}

impl Eq for HandoverChallenge {

}

/// What a [`ChallengeHandlerInfo`] holds.
pub struct HandlerInfoView {
    pub challenge: ChallengeView,
    pub sgx_local_report: Seq<u8>,
    pub ecdh_pubkey: Seq<u8>,
}

impl HandlerInfoView {
    /// The challenge is well formed and the public key has its 32 bytes.
    pub open spec fn wf(self) -> bool {
        self.challenge.wf() && self.ecdh_pubkey.len() == 32
    }
}

/// The client's answer to a challenge, which its remote attestation binds:
/// the challenge as it was received, a local report addressed to the server,
/// and the client's ephemeral public key.
#[derive(Debug)]
pub struct ChallengeHandlerInfo {
    pub challenge: HandoverChallenge,
    /// The client's encoded local report; empty in dev mode.
    pub sgx_local_report: Vec<u8>,
    pub ecdh_pubkey: [u8; 32],
}

impl View for ChallengeHandlerInfo {
    type V = HandlerInfoView;

    open spec fn view(&self) -> HandlerInfoView {
        HandlerInfoView {
            challenge: self.challenge@,
            sgx_local_report: self.sgx_local_report@,
            ecdh_pubkey: self.ecdh_pubkey@,
        }
    }
}

impl Clone for ChallengeHandlerInfo {
    fn clone(&self) -> (r: Self)
        ensures
            r@ == self@,
    {
        ChallengeHandlerInfo {
            challenge: self.challenge.clone(),
            sgx_local_report: bytes_to_vec(self.sgx_local_report.as_slice()),
            ecdh_pubkey: self.ecdh_pubkey,
        }
    }
}

impl PartialEq for ChallengeHandlerInfo {
    fn eq(&self, other: &Self) -> (r: bool) {
        self.challenge == other.challenge && bytes_equal(
            self.sgx_local_report.as_slice(),
            other.sgx_local_report.as_slice(),
        ) && bytes_equal(&self.ecdh_pubkey, &other.ecdh_pubkey)
    }
}

impl PartialEqSpecImpl for ChallengeHandlerInfo {
    open spec fn obeys_eq_spec() -> bool {
        true
    }

    open spec fn eq_spec(&self, other: &Self) -> bool {
        self@ == other@
    }
}

impl Eq for ChallengeHandlerInfo {

}

/// What an optional byte string holds.
pub open spec fn optional_view(attestation: Option<Vec<u8>>) -> Option<Seq<u8>> {
    match attestation {
        Some(bytes) => Some(bytes@),
        None => None,
    }
}

/// A copy of an optional byte string.
pub fn clone_optional(attestation: &Option<Vec<u8>>) -> (r: Option<Vec<u8>>)
    ensures
        optional_view(r) == optional_view(*attestation),
{
    match attestation {
        Some(bytes) => Some(bytes_to_vec(bytes.as_slice())),
        None => None,
    }
}

/// Whether two optional byte strings hold the same.
pub fn optional_equal(a: &Option<Vec<u8>>, b: &Option<Vec<u8>>) -> (r: bool)
    ensures
        r == (optional_view(*a) == optional_view(*b)),
{
    match (a, b) {
        (Some(x), Some(y)) => bytes_equal(x.as_slice(), y.as_slice()),
        (None, None) => true,
        _ => false,
    }
}

/// What a [`HandoverChallengeResponse`] holds.
pub struct ResponseView {
    pub challenge_handler: HandlerInfoView,
    pub attestation: Option<Seq<u8>>,
}

impl ResponseView {
    pub open spec fn wf(self) -> bool {
        self.challenge_handler.wf()
    }
}

/// The client's answer with the remote attestation over it. The attestation
/// is there unless the challenge was issued in dev mode.
#[derive(Debug)]
pub struct HandoverChallengeResponse {
    pub challenge_handler: ChallengeHandlerInfo,
    pub attestation: Option<Vec<u8>>,
}

impl View for HandoverChallengeResponse {
    type V = ResponseView;

    open spec fn view(&self) -> ResponseView {
        ResponseView {
            challenge_handler: self.challenge_handler@,
            attestation: optional_view(self.attestation),
        }
    }
}

impl Clone for HandoverChallengeResponse {
    fn clone(&self) -> (r: Self)
        ensures
            r@ == self@,
    {
        HandoverChallengeResponse {
            challenge_handler: self.challenge_handler.clone(),
            attestation: clone_optional(&self.attestation),
        }
    }
}

impl PartialEq for HandoverChallengeResponse {
    fn eq(&self, other: &Self) -> (r: bool) {
        self.challenge_handler == other.challenge_handler && optional_equal(
            &self.attestation,
            &other.attestation,
        )
    }
}

impl PartialEqSpecImpl for HandoverChallengeResponse {
    open spec fn obeys_eq_spec() -> bool {
        true
    }

    open spec fn eq_spec(&self, other: &Self) -> bool {
        self@ == other@
    }
}

impl Eq for HandoverChallengeResponse {

}

/// What an [`EncryptedDataInfo`] holds.
pub struct EncryptedDataView {
    pub ecdh_pubkey: Seq<u8>,
    pub encrypted_data: Seq<u8>,
    pub iv: Seq<u8>,
    pub dev_mode: bool,
}

impl EncryptedDataView {
    /// The public key has its 32 bytes and the iv its 12.
    pub open spec fn wf(self) -> bool {
        self.ecdh_pubkey.len() == 32 && self.iv.len() == 12
    }
}

/// The secret as it travels: encrypted under the key that the server's
/// ephemeral secret key and the client's public key agree on.
#[derive(Debug)]
pub struct EncryptedDataInfo {
    /// The server's ephemeral public key, with which the client derives the
    /// shared key.
    pub ecdh_pubkey: [u8; 32],
    /// The secret, encrypted under the shared key.
    pub encrypted_data: Vec<u8>,
    pub iv: [u8; 12],
    pub dev_mode: bool,
}

impl View for EncryptedDataInfo {
    type V = EncryptedDataView;

    open spec fn view(&self) -> EncryptedDataView {
        EncryptedDataView {
            ecdh_pubkey: self.ecdh_pubkey@,
            encrypted_data: self.encrypted_data@,
            iv: self.iv@,
            dev_mode: self.dev_mode,
        }
    }
}

impl Clone for EncryptedDataInfo {
    fn clone(&self) -> (r: Self)
        ensures
            r@ == self@,
    {
        EncryptedDataInfo {
            ecdh_pubkey: self.ecdh_pubkey,
            encrypted_data: bytes_to_vec(self.encrypted_data.as_slice()),
            iv: self.iv,
            dev_mode: self.dev_mode,
        }
    }
}

impl PartialEq for EncryptedDataInfo {
    fn eq(&self, other: &Self) -> (r: bool) {
        bytes_equal(&self.ecdh_pubkey, &other.ecdh_pubkey) && bytes_equal(
            self.encrypted_data.as_slice(),
            other.encrypted_data.as_slice(),
        ) && bytes_equal(&self.iv, &other.iv) && self.dev_mode == other.dev_mode
    }
}

impl PartialEqSpecImpl for EncryptedDataInfo {
    open spec fn obeys_eq_spec() -> bool {
        true
    }

    open spec fn eq_spec(&self, other: &Self) -> bool {
        self@ == other@
    }
}

impl Eq for EncryptedDataInfo {

}

/// What a [`HandoverSecretData`] holds.
pub struct SecretDataView {
    pub encrypted_data_info: EncryptedDataView,
    pub attestation: Option<Seq<u8>>,
}

impl SecretDataView {
    pub open spec fn wf(self) -> bool {
        self.encrypted_data_info.wf()
    }
}

/// What the server returns: the encrypted secret and, unless it runs in dev
/// mode, its remote attestation over it.
#[derive(Debug)]
pub struct HandoverSecretData {
    pub encrypted_data_info: EncryptedDataInfo,
    pub attestation: Option<Vec<u8>>,
}

impl View for HandoverSecretData {
    type V = SecretDataView;

    open spec fn view(&self) -> SecretDataView {
        SecretDataView {
            encrypted_data_info: self.encrypted_data_info@,
            attestation: optional_view(self.attestation),
        }
    }
}

impl Clone for HandoverSecretData {
    fn clone(&self) -> (r: Self)
        ensures
            r@ == self@,
    {
        HandoverSecretData {
            encrypted_data_info: self.encrypted_data_info.clone(),
            attestation: clone_optional(&self.attestation),
        }
    }
}

impl PartialEq for HandoverSecretData {
    fn eq(&self, other: &Self) -> (r: bool) {
        self.encrypted_data_info == other.encrypted_data_info && optional_equal(
            &self.attestation,
            &other.attestation,
        )
    }
}

impl PartialEqSpecImpl for HandoverSecretData {
    open spec fn obeys_eq_spec() -> bool {
        true
    }

    open spec fn eq_spec(&self, other: &Self) -> bool {
        self@ == other@
    }
}

impl Eq for HandoverSecretData {

}

} // verus!
