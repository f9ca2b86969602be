//! What holds of a handover whatever the surroundings answer.

use vstd::prelude::*;
use crate::admission::{admission, echoes, Evidence};
use crate::error::HandoverError;
use crate::hex::hex_lower_of;
use crate::message::{ChallengeView, HandlerInfoView, ResponseView, SecretDataView};
use crate::policy::{
    admitted_at, introduced_at, is_fresh, version_gate_verdict, IdentitiesView, FRESHNESS_WINDOW,
};
use crate::sealing::handler_info_digest;
use crate::wire::decode::{
    lemma_challenge_unique, lemma_handler_info_unique, lemma_response_unique,
    lemma_secret_data_unique,
};
use crate::wire::format::{challenge_wire, handler_info_wire, response_wire, secret_data_wire};
use crate::wire::scan::lemma_whole;

verus! {

/// No response is accepted twice. Handling a response leaves no challenge
/// outstanding, and with none outstanding every response is refused as a
/// mismatch, whatever else holds of it.
pub proof fn lemma_replay_is_refused(dev_mode: bool, response: ResponseView, evidence: Evidence)
    ensures
        admission(dev_mode, None, response, evidence) == Some(
            Err::<(), HandoverError>(HandoverError::ChallengeMismatch),
        ),
{
}

/// A response that answers another challenge than the outstanding one is
/// refused as a mismatch.
pub proof fn lemma_foreign_challenge_is_refused(
    dev_mode: bool,
    pending: ChallengeView,
    response: ResponseView,
    evidence: Evidence,
)
    requires
        response.challenge_handler.challenge != pending,
    ensures
        admission(dev_mode, Some(pending), response, evidence) == Some(
            Err::<(), HandoverError>(HandoverError::ChallengeMismatch),
        ),
{
}

/// Outside dev mode nothing is admitted without both attestations: the
/// response carries a remote attestation, the remote attestation service
/// found it genuine for the digest of the answer and named measurements in
/// it, and the local attestation service found the local report genuine.
pub proof fn lemma_admission_needs_attestation(
    pending: Option<ChallengeView>,
    response: ResponseView,
    evidence: Evidence,
)
    requires
        admission(false, pending, response, evidence) == Some(Ok::<(), HandoverError>(())),
    ensures
        echoes(pending, response),
        response.attestation is Some,
        evidence.remote_verdict == Some(true),
        evidence.client matches Some(Some(_)),
        evidence.local_verdict == Some(true),
{
}

/// The digest over a client's answer is a matter of its bytes on the wire:
/// the server, which takes it over what it received, gets what the client
/// got over what it sent, as soon as the bytes are the same.
pub proof fn lemma_digest_is_of_the_wire(sent: HandlerInfoView, received: HandlerInfoView)
    requires
        handler_info_wire(received) == handler_info_wire(sent),
    ensures
        handler_info_digest(received) == handler_info_digest(sent),
{
}

/// A challenge is fresh exactly from the block at which it was issued to the
/// last block of the window, both included.
pub proof fn lemma_freshness_window(challenge_block: u64, current_block: u64)
    ensures
        FRESHNESS_WINDOW == 150,
        is_fresh(challenge_block, current_block) <==> challenge_block <= current_block
            <= challenge_block + FRESHNESS_WINDOW,
{
}

/// Only a fresh challenge is admitted, and only one that is not fresh is
/// refused as expired.
pub proof fn lemma_admission_needs_freshness(
    dev_mode: bool,
    pending: Option<ChallengeView>,
    response: ResponseView,
    evidence: Evidence,
)
    ensures
        admission(dev_mode, pending, response, evidence) == Some(Ok::<(), HandoverError>(()))
            ==> (evidence.block_number matches Some(height) && is_fresh(
            response.challenge_handler.challenge.block_number,
            height,
        )),
        admission(dev_mode, pending, response, evidence) == Some(
            Err::<(), HandoverError>(HandoverError::HandoverExpired),
        ) ==> (evidence.block_number matches Some(height) && !is_fresh(
            response.challenge_handler.challenge.block_number,
            height,
        )),
{
}

/// Between two identities that the registry admits, the version gate opens
/// exactly for a client introduced after the server. Equal blocks are
/// refused like older ones.
pub proof fn lemma_version_monotonicity(
    mrenclave_list: Seq<(String, u64)>,
    mrsigner_list: Seq<(String, u64)>,
    ids: IdentitiesView,
    server_block: u64,
    client_block: u64,
)
    requires
        admitted_at(mrenclave_list, mrsigner_list, ids.server_mrenclave, ids.server_mrsigner)
            == Ok::<u64, HandoverError>(server_block),
        admitted_at(mrenclave_list, mrsigner_list, ids.client_mrenclave, ids.client_mrsigner)
            == Ok::<u64, HandoverError>(client_block),
    ensures
        version_gate_verdict(mrenclave_list, mrsigner_list, ids) is Ok <==> client_block
            > server_block,
        client_block <= server_block ==> version_gate_verdict(mrenclave_list, mrsigner_list, ids)
            == Err::<(), HandoverError>(HandoverError::VersionNotNewer),
{
}

/// Only a strictly newer client is admitted outside dev mode: the registry
/// admits the server, by the measurements of its own report, and the client,
/// by those that its attestation names, and the client at a later block.
pub proof fn lemma_admission_needs_newer_client(
    pending: Option<ChallengeView>,
    response: ResponseView,
    evidence: Evidence,
)
    requires
        admission(false, pending, response, evidence) == Some(Ok::<(), HandoverError>(())),
    ensures
        match (
            evidence.own_report,
            evidence.client,
            evidence.mrenclave_list,
            evidence.mrsigner_list,
        ) {
            (Some(Some(report)), Some(Some(client)), Some(mrenclave_list), Some(mrsigner_list)) => {
                match (
                    admitted_at(
                        mrenclave_list,
                        mrsigner_list,
                        hex_lower_of(report.mr_enclave@),
                        hex_lower_of(report.mr_signer@),
                    ),
                    admitted_at(mrenclave_list, mrsigner_list, client.0@, client.1@),
                ) {
                    (Ok(server_block), Ok(client_block)) => client_block > server_block,
                    _ => false,
                }
            },
            _ => false,
        },
{
}

/// Where the two registry lists give the measurements of one side different
/// introduction blocks, the version gate fails on the inconsistency. All four
/// measurements are taken to be listed.
pub proof fn lemma_registry_consistency(
    mrenclave_list: Seq<(String, u64)>,
    mrsigner_list: Seq<(String, u64)>,
    ids: IdentitiesView,
)
    requires
        introduced_at(mrenclave_list, ids.server_mrenclave) is Some,
        introduced_at(mrsigner_list, ids.server_mrsigner) is Some,
        introduced_at(mrenclave_list, ids.client_mrenclave) is Some,
        introduced_at(mrsigner_list, ids.client_mrsigner) is Some,
        introduced_at(mrenclave_list, ids.server_mrenclave) != introduced_at(
            mrsigner_list,
            ids.server_mrsigner,
        ) || introduced_at(mrenclave_list, ids.client_mrenclave) != introduced_at(
            mrsigner_list,
            ids.client_mrsigner,
        ),
    ensures
        version_gate_verdict(mrenclave_list, mrsigner_list, ids) == Err::<(), HandoverError>(
            HandoverError::RegistryInconsistent,
        ),
{
}

/// In dev mode neither attestation nor registry list has a say: the verdict
/// is the same whatever they answer, and a response that echoes a fresh
/// challenge is admitted.
pub proof fn lemma_dev_mode_bypass(
    pending: Option<ChallengeView>,
    response: ResponseView,
    evidence: Evidence,
    other: Evidence,
)
    requires
        evidence.block_number == other.block_number,
    ensures
        admission(true, pending, response, evidence) == admission(true, pending, response, other),
        echoes(pending, response) ==> (evidence.block_number matches Some(height) && is_fresh(
            response.challenge_handler.challenge.block_number,
            height,
        ) <==> admission(true, pending, response, evidence) == Some(
            Ok::<(), HandoverError>(()),
        )),
{
}

/// A challenge comes back from the wire as it went: no other challenge has
/// its encoding, so what decodes from it is the challenge itself.
pub proof fn lemma_challenge_roundtrip(sent: ChallengeView, received: ChallengeView)
    requires
        challenge_wire(received) == challenge_wire(sent),
    ensures
        received == sent,
{
    lemma_whole(challenge_wire(sent), challenge_wire(sent));
    lemma_challenge_unique(challenge_wire(sent), 0, sent, received);
}

/// A response comes back from the wire as it went.
pub proof fn lemma_response_roundtrip(sent: ResponseView, received: ResponseView)
    requires
        response_wire(received) == response_wire(sent),
    ensures
        received == sent,
{
    lemma_whole(response_wire(sent), response_wire(sent));
    lemma_response_unique(response_wire(sent), 0, sent, received);
}

/// A server's result comes back from the wire as it went.
pub proof fn lemma_secret_data_roundtrip(sent: SecretDataView, received: SecretDataView)
    requires
        secret_data_wire(received) == secret_data_wire(sent),
    ensures
        received == sent,
{
    lemma_whole(secret_data_wire(sent), secret_data_wire(sent));
    lemma_secret_data_unique(secret_data_wire(sent), 0, sent, received);
}

/// The digest binds the whole answer: two answers with one encoding, and so
/// with one digest input, are the same answer, public key and nonce
/// included.
pub proof fn lemma_digest_input_binds_the_answer(a: HandlerInfoView, b: HandlerInfoView)
    requires
        handler_info_wire(a) == handler_info_wire(b),
    ensures
        a == b,
{
    lemma_whole(handler_info_wire(a), handler_info_wire(a));
    lemma_handler_info_unique(handler_info_wire(a), 0, a, b);
}

/// A measurement has an introduction block exactly if some entry names it.
pub proof fn lemma_introduced_iff_listed(entries: Seq<(String, u64)>, id: Seq<char>)
    ensures
        introduced_at(entries, id) is Some <==> exists|i: int|
            0 <= i < entries.len() && (#[trigger] entries[i]).0@ == id,
    decreases entries.len(),
{
    if entries.len() > 0 {
        let rest = entries.drop_first();
        lemma_introduced_iff_listed(rest, id);
        if entries[0].0@ != id {
            if exists|i: int| 0 <= i < entries.len() && (#[trigger] entries[i]).0@ == id {
                let i = choose|i: int| 0 <= i < entries.len() && (#[trigger] entries[i]).0@ == id;
                assert(rest[i - 1] == entries[i]);
            }
        }
    }
}

/// The registry lists are allow-lists: an identity is refused as not
/// authorized exactly if one of its two measurements has no entry in its
/// list.
pub proof fn lemma_unlisted_is_not_authorized(
    mrenclave_list: Seq<(String, u64)>,
    mrsigner_list: Seq<(String, u64)>,
    mrenclave: Seq<char>,
    mrsigner: Seq<char>,
)
    ensures
        admitted_at(mrenclave_list, mrsigner_list, mrenclave, mrsigner) == Err::<
            u64,
            HandoverError,
        >(HandoverError::NotAuthorized) <==> {
            ||| forall|i: int|
                0 <= i < mrenclave_list.len() ==> (#[trigger] mrenclave_list[i]).0@ != mrenclave
            ||| forall|i: int|
                0 <= i < mrsigner_list.len() ==> (#[trigger] mrsigner_list[i]).0@ != mrsigner
        },
{
    lemma_introduced_iff_listed(mrenclave_list, mrenclave);
    lemma_introduced_iff_listed(mrsigner_list, mrsigner);
}

} // verus!
