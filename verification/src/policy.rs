//! The admission rules that a handover is held to, as functions on plain
//! values: how old a challenge may be, which identities the registry admits,
//! and which of two enclaves is the newer.

use vstd::prelude::*;
use crate::error::HandoverError;

verus! {

/// The number of blocks for which a challenge stays valid.
pub const FRESHNESS_WINDOW: u64 = 150;

/// Whether a challenge issued at `challenge_block` is still fresh when the
/// chain stands at `current_block`: it is not from the future and at most
/// [`FRESHNESS_WINDOW`] blocks old.
pub open spec fn is_fresh(challenge_block: u64, current_block: u64) -> bool {
    0 <= current_block - challenge_block <= FRESHNESS_WINDOW
}

/// Accepts a challenge that is fresh and refuses any other as expired.
pub fn check_freshness(challenge_block: u64, current_block: u64) -> (r: Result<(), HandoverError>)
    ensures
        is_fresh(challenge_block, current_block) ==> r == Ok::<(), HandoverError>(()),
        !is_fresh(challenge_block, current_block) ==> r == Err::<(), HandoverError>(
            HandoverError::HandoverExpired,
        ),
{
    if challenge_block <= current_block && current_block - challenge_block <= FRESHNESS_WINDOW {
        Ok(())
    } else {
        Err(HandoverError::HandoverExpired)
    }
}

/// The block at which a registry list introduced the measurement `id`: that
/// of the first entry with this measurement, if there is one. A list is an
/// allow-list, so a measurement without an entry may not take part.
pub open spec fn introduced_at(entries: Seq<(String, u64)>, id: Seq<char>) -> Option<u64>
    decreases entries.len(),
{
    if entries.len() == 0 {
        None
    } else if entries[0].0@ == id {
        Some(entries[0].1)
    } else {
        introduced_at(entries.drop_first(), id)
    }
}

/// Looks a measurement up in a registry list.
pub fn lookup_introduction(entries: &Vec<(String, u64)>, id: &String) -> (r: Option<u64>)
    ensures
        r == introduced_at(entries@, id@),
{
    let mut i: usize = 0;
    assert(entries@.skip(0) == entries@);
    while i < entries.len()
        invariant
            i <= entries@.len(),
            introduced_at(entries@, id@) == introduced_at(entries@.skip(i as int), id@),
        decreases entries@.len() - i,
    {
        if entries[i].0 == *id {
            return Some(entries[i].1);
        }
        assert(entries@.skip(i as int).drop_first() == entries@.skip(i + 1));
        i = i + 1;
    }
    None
}

/// The block at which an identity, a pair of measurements, was admitted. Both
/// measurements have to be listed, else the identity is not authorized; and
/// both lists have to give the same block, else the registry is inconsistent.
pub open spec fn admitted_at(
    mrenclave_list: Seq<(String, u64)>,
    mrsigner_list: Seq<(String, u64)>,
    mrenclave: Seq<char>,
    mrsigner: Seq<char>,
) -> Result<u64, HandoverError> {
    match (introduced_at(mrenclave_list, mrenclave), introduced_at(mrsigner_list, mrsigner)) {
        (Some(by_enclave), Some(by_signer)) => if by_enclave == by_signer {
            Ok(by_enclave)
        } else {
            Err(HandoverError::RegistryInconsistent)
        },
        _ => Err(HandoverError::NotAuthorized),
    }
}

/// Finds the block at which the registry admitted an identity.
pub fn introduction_block(
    mrenclave_list: &Vec<(String, u64)>,
    mrsigner_list: &Vec<(String, u64)>,
    mrenclave: &String,
    mrsigner: &String,
) -> (r: Result<u64, HandoverError>)
    ensures
        r == admitted_at(mrenclave_list@, mrsigner_list@, mrenclave@, mrsigner@),
{
    match (
        lookup_introduction(mrenclave_list, mrenclave),
        lookup_introduction(mrsigner_list, mrsigner),
    ) {
        (Some(by_enclave), Some(by_signer)) => if by_enclave == by_signer {
            Ok(by_enclave)
        } else {
            Err(HandoverError::RegistryInconsistent)
        },
        _ => Err(HandoverError::NotAuthorized),
    }
}

/// Whether a client admitted at `client_block` is strictly newer than a
/// server admitted at `server_block`.
pub open spec fn is_newer(server_block: u64, client_block: u64) -> bool {
    client_block > server_block
}

/// Lets a secret pass only to a strictly newer enclave: never to the same
/// generation, never to an older one.
pub fn check_version(server_block: u64, client_block: u64) -> (r: Result<(), HandoverError>)
    ensures
        is_newer(server_block, client_block) ==> r == Ok::<(), HandoverError>(()),
        !is_newer(server_block, client_block) ==> r == Err::<(), HandoverError>(
            HandoverError::VersionNotNewer,
        ),
{
    if client_block > server_block {
        Ok(())
    } else {
        Err(HandoverError::VersionNotNewer)
    }
}

/// The two identities of a handover, each as its two measurements in text.
pub struct Identities {
    pub server_mrenclave: String,
    pub server_mrsigner: String,
    pub client_mrenclave: String,
    pub client_mrsigner: String,
}

/// What an [`Identities`] holds.
pub struct IdentitiesView {
    pub server_mrenclave: Seq<char>,
    pub server_mrsigner: Seq<char>,
    pub client_mrenclave: Seq<char>,
    pub client_mrsigner: Seq<char>,
}

impl View for Identities {
    type V = IdentitiesView;

    open spec fn view(&self) -> IdentitiesView {
        IdentitiesView {
            server_mrenclave: self.server_mrenclave@,
            server_mrsigner: self.server_mrsigner@,
            client_mrenclave: self.client_mrenclave@,
            client_mrsigner: self.client_mrsigner@,
        }
    }
}

/// What the version gate says of two identities: the server has to be
/// admitted, then the client, and the client has to be the newer.
pub open spec fn version_gate_verdict(
    mrenclave_list: Seq<(String, u64)>,
    mrsigner_list: Seq<(String, u64)>,
    ids: IdentitiesView,
) -> Result<(), HandoverError> {
    match admitted_at(mrenclave_list, mrsigner_list, ids.server_mrenclave, ids.server_mrsigner) {
        Err(e) => Err(e),
        Ok(server_block) => match admitted_at(
            mrenclave_list,
            mrsigner_list,
            ids.client_mrenclave,
            ids.client_mrsigner,
        ) {
            Err(e) => Err(e),
            Ok(client_block) => if is_newer(server_block, client_block) {
                Ok(())
            } else {
                Err(HandoverError::VersionNotNewer)
            },
        },
    }
}

/// The version gate: both sides are authorized by a consistent registry, and
/// the client is strictly newer than the server.
pub fn version_gate(
    mrenclave_list: &Vec<(String, u64)>,
    mrsigner_list: &Vec<(String, u64)>,
    ids: &Identities,
) -> (r: Result<(), HandoverError>)
    ensures
        r == version_gate_verdict(mrenclave_list@, mrsigner_list@, ids@),
{
    let server_block = match introduction_block(
        mrenclave_list,
        mrsigner_list,
        &ids.server_mrenclave,
        &ids.server_mrsigner,
    ) {
        Ok(block) => block,
        Err(e) => {
            return Err(e);
        },
    };
    let client_block = match introduction_block(
        mrenclave_list,
        mrsigner_list,
        &ids.client_mrenclave,
        &ids.client_mrsigner,
    ) {
        Ok(block) => block,
        Err(e) => {
            return Err(e);
        },
    };
    check_version(server_block, client_block)
}

} // verus!
