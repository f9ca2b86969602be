//! The acceptance predicate of a handover: what the server's checks say of a
//! response, given what its surroundings answered.

use vstd::prelude::*;
use crate::attestation::{
    blank_report_data, gives_block_number, gives_local_verdict, gives_measurements,
    gives_mrenclave_list, gives_mrsigner_list, gives_remote_verdict, gives_report,
    gives_target_info, ExternalStatusGet, LocalAttestation, LocalReport, RemoteAttestation,
};
use crate::error::HandoverError;
use crate::hex::hex_lower_of;
use crate::message::{ChallengeView, ResponseView};
use crate::policy::{is_fresh, version_gate_verdict, IdentitiesView};
use crate::sealing::handler_info_digest;

verus! {

/// Whether a response echoes the outstanding challenge.
pub open spec fn echoes(pending: Option<ChallengeView>, response: ResponseView) -> bool {
    pending == Some(response.challenge_handler.challenge)
}

/// What the surroundings answered while a response was checked. Each answer
/// is there or not: a check that was not reached has asked nothing.
pub struct Evidence {
    /// Whether the client's remote attestation is genuine and binds the
    /// digest of its answer.
    pub remote_verdict: Option<bool>,
    /// The measurements that the client's attestation names: enclave, then
    /// signer.
    pub client: Option<Option<(String, String)>>,
    /// Whether the client's local report verifies on this machine.
    pub local_verdict: Option<bool>,
    /// The height of the chain.
    pub block_number: Option<u64>,
    /// The server's own target info.
    pub target_info: Option<Seq<u8>>,
    /// The local report that the server addresses to itself, which holds its
    /// own measurements.
    pub own_report: Option<Option<LocalReport>>,
    pub mrenclave_list: Option<Seq<(String, u64)>>,
    pub mrsigner_list: Option<Seq<(String, u64)>>,
}

/// Every answer in `evidence` is one that the surroundings may give to the
/// question that the protocol asks: the remote verdict is on the client's
/// attestation against the digest of its answer, the measurements are read
/// from that attestation, the local verdict is on the client's local report,
/// and the server's own report is addressed to its own target info.
pub open spec fn answered<L: LocalAttestation, R: RemoteAttestation, S: ExternalStatusGet>(
    la: &L,
    ra: &R,
    contract: &S,
    response: ResponseView,
    evidence: Evidence,
) -> bool {
    &&& evidence.remote_verdict matches Some(verdict) ==> response.attestation matches Some(
        attestation,
    ) && gives_remote_verdict(
        ra,
        handler_info_digest(response.challenge_handler),
        attestation,
        verdict,
    )
    &&& evidence.client matches Some(measurements) ==> response.attestation matches Some(
        attestation,
    ) && gives_measurements(ra, attestation, measurements)
    &&& evidence.local_verdict matches Some(verdict) ==> gives_local_verdict(
        la,
        response.challenge_handler.sgx_local_report,
        verdict,
    )
    &&& evidence.block_number matches Some(height) ==> gives_block_number(contract, height)
    &&& evidence.target_info matches Some(target_info) ==> gives_target_info(la, target_info)
    &&& evidence.own_report matches Some(report) ==> evidence.target_info matches Some(
        target_info,
    ) && gives_report(la, target_info, blank_report_data(), report)
    &&& evidence.mrenclave_list matches Some(list) ==> gives_mrenclave_list(contract, list)
    &&& evidence.mrsigner_list matches Some(list) ==> gives_mrsigner_list(contract, list)
}

/// The verdict on a response, or `None` where the evidence lacks an answer
/// that the verdict needs.
///
/// The checks stand in the order in which they are made, and the first that
/// fails decides: the response echoes the outstanding challenge; the
/// client's remote attestation is there, verifies and names its
/// measurements; its local report verifies; the challenge is fresh; the
/// server has a report of its own; the registry admits both sides, and the
/// client as the newer. In dev mode only the echo and the freshness are
/// checked.
pub open spec fn admission(
    dev_mode: bool,
    pending: Option<ChallengeView>,
    response: ResponseView,
    evidence: Evidence,
) -> Option<Result<(), HandoverError>> {
    if !echoes(pending, response) {
        Some(Err(HandoverError::ChallengeMismatch))
    } else if dev_mode {
        freshness(response, evidence)
    } else if response.attestation is None {
        Some(Err(HandoverError::RemoteAttestationRejected))
    } else {
        match (evidence.remote_verdict, evidence.client, evidence.local_verdict) {
            (None, _, _) => None,
            (Some(false), _, _) => Some(Err(HandoverError::RemoteAttestationRejected)),
            (Some(true), None, _) => None,
            (Some(true), Some(None), _) => Some(Err(HandoverError::RemoteAttestationRejected)),
            (Some(true), Some(Some(_)), None) => None,
            (Some(true), Some(Some(_)), Some(false)) => Some(
                Err(HandoverError::LocalAttestationRejected),
            ),
            (Some(true), Some(Some(client)), Some(true)) => match freshness(response, evidence) {
                Some(Ok(())) => version_gate_of(client, evidence),
                other => other,
            },
        }
    }
}

/// The verdict of the freshness check, for which the height of the chain is
/// needed.
pub open spec fn freshness(response: ResponseView, evidence: Evidence) -> Option<
    Result<(), HandoverError>,
> {
    match evidence.block_number {
        None => None,
        Some(height) => if is_fresh(response.challenge_handler.challenge.block_number, height) {
            Some(Ok(()))
        } else {
            Some(Err(HandoverError::HandoverExpired))
        },
    }
}

/// The verdict of the version gate on a client with the given measurements.
/// The server's measurements are those of its own report, in lower-case
/// hexadecimal; without such a report the check fails.
pub open spec fn version_gate_of(client: (String, String), evidence: Evidence) -> Option<
    Result<(), HandoverError>,
> {
    match evidence.own_report {
        None => None,
        Some(None) => Some(Err(HandoverError::CryptoError)),
        Some(Some(report)) => match (evidence.mrenclave_list, evidence.mrsigner_list) {
            (Some(mrenclave_list), Some(mrsigner_list)) => Some(
                version_gate_verdict(
                    mrenclave_list,
                    mrsigner_list,
                    IdentitiesView {
                        server_mrenclave: hex_lower_of(report.mr_enclave@),
                        server_mrsigner: hex_lower_of(report.mr_signer@),
                        client_mrenclave: client.0@,
                        client_mrsigner: client.1@,
                    },
                ),
            ),
            _ => None,
        },
    }
}

} // verus!
