//! What a handover asks of its surroundings: remote attestation, local
//! attestation, and the registry of authorized enclaves.
//!
//! Each is a trait that the embedding program implements. Nothing is assumed
//! of an implementation: the engine is proved for whatever the calls return,
//! and its contracts say which calls, with which arguments, its results rest
//! on.

use vstd::prelude::*;
use crate::bytes::bytes_to_vec;
use crate::message::optional_view;

verus! {

/// A local report as far as a handover reads it: the two measurements of the
/// enclave that made it, and its encoded form, which travels.
#[derive(Debug)]
pub struct LocalReport {
    pub mr_enclave: [u8; 32],
    pub mr_signer: [u8; 32],
    pub encoded: Vec<u8>,
}

/// Attestation between enclaves of one machine.
pub trait LocalAttestation {
    /// The encoded target info of this enclave, to which a peer addresses its
    /// local report.
    fn target_info(&self) -> Vec<u8>;

    /// A local report of this enclave, addressed to the enclave that
    /// `target_info` describes and carrying `report_data`. `None` where the
    /// target info cannot be read or no report can be made.
    fn report(&self, target_info: &[u8], report_data: &[u8; 64]) -> Option<LocalReport>;

    /// Whether an encoded local report was made for this enclave by a genuine
    /// enclave of this machine.
    fn verify(&self, report: &[u8]) -> bool;
}

/// Attestation that can be verified away from the machine.
pub trait RemoteAttestation {
    /// A report that binds the 32-byte digest `payload`. `None` where none
    /// could be had within `ra_timeout` seconds.
    fn create_remote_attestation_report(
        &self,
        payload: &[u8],
        pccs_url: &str,
        ra_timeout: u64,
    ) -> Option<Vec<u8>>
        requires
            payload@.len() == 32,
    ;

    /// Whether the report is genuine and binds the 32-byte digest `payload`.
    /// Only the legitimacy of the report is judged here.
    fn verify_remote_attestation_report(&self, payload: &[u8], attestation_report: Vec<u8>) -> bool
        requires
            payload@.len() == 32,
    ;

    /// The two measurements of the enclave that a verified report speaks
    /// for, as the registry writes them. `None` where the report holds none.
    fn parse_mrenclave_and_mrsigner_from_attestation_report(
        &self,
        attestation_report: Vec<u8>,
    ) -> Option<(String, String)>;
}

/// The registry of authorized enclaves, and the height of its chain.
pub trait ExternalStatusGet {
    /// The current block height.
    fn get_block_number(&self) -> u64;

    /// The authorized enclave measurements, each with the block at which it
    /// was introduced.
    fn get_mrenclave_list(&self) -> Vec<(String, u64)>;

    /// The authorized signer measurements, each with the block at which it
    /// was introduced.
    fn get_mrsigner_list(&self) -> Vec<(String, u64)>;
}

/// The report data of the local reports of a handover: 64 zero bytes. Only
/// where a report comes from matters, not what it carries.
pub open spec fn blank_report_data() -> Seq<u8> {
    Seq::new(64, |i: int| 0u8)
}

/// `la` may answer `answer` when asked for its target info.
#[verifier::opaque]
pub open spec fn gives_target_info<L: LocalAttestation>(la: &L, answer: Seq<u8>) -> bool {
    exists|target_info: Vec<u8>|
        target_info@ == answer && #[trigger] call_ensures(L::target_info, (la,), target_info)
}

/// `la` may answer `answer` when asked for a local report addressed to
/// `target_info` with the report data `report_data`.
#[verifier::opaque]
pub open spec fn gives_report<L: LocalAttestation>(
    la: &L,
    target_info: Seq<u8>,
    report_data: Seq<u8>,
    answer: Option<LocalReport>,
) -> bool {
    exists|addressed: &[u8], data: &[u8; 64]|
        addressed@ == target_info && data@ == report_data && #[trigger] call_ensures(
            L::report,
            (la, addressed, data),
            answer,
        )
}

/// `la` may answer `answer` when asked to verify the local report `report`.
#[verifier::opaque]
pub open spec fn gives_local_verdict<L: LocalAttestation>(
    la: &L,
    report: Seq<u8>,
    answer: bool,
) -> bool {
    exists|encoded: &[u8]|
        encoded@ == report && #[trigger] call_ensures(L::verify, (la, encoded), answer)
}

/// `ra` may answer `answer` when asked for a report over `digest`, with the
/// endpoint `pccs_url` and `ra_timeout` seconds to do it.
#[verifier::opaque]
pub open spec fn gives_attestation<R: RemoteAttestation>(
    ra: &R,
    digest: Seq<u8>,
    pccs_url: Seq<char>,
    ra_timeout: u64,
    answer: Option<Seq<u8>>,
) -> bool {
    exists|payload: &[u8], url: &str, report: Option<Vec<u8>>|
        payload@ == digest && url@ == pccs_url && optional_view(report) == answer
            && #[trigger] call_ensures(
            R::create_remote_attestation_report,
            (ra, payload, url, ra_timeout),
            report,
        )
}

/// `ra` may answer `answer` when asked whether `report` is genuine and binds
/// `digest`.
#[verifier::opaque]
pub open spec fn gives_remote_verdict<R: RemoteAttestation>(
    ra: &R,
    digest: Seq<u8>,
    report: Seq<u8>,
    answer: bool,
) -> bool {
    exists|payload: &[u8], attestation_report: Vec<u8>|
        payload@ == digest && attestation_report@ == report && #[trigger] call_ensures(
            R::verify_remote_attestation_report,
            (ra, payload, attestation_report),
            answer,
        )
}

/// `ra` may answer `answer` when asked for the measurements in `report`.
#[verifier::opaque]
pub open spec fn gives_measurements<R: RemoteAttestation>(
    ra: &R,
    report: Seq<u8>,
    answer: Option<(String, String)>,
) -> bool {
    exists|attestation_report: Vec<u8>|
        attestation_report@ == report && #[trigger] call_ensures(
            R::parse_mrenclave_and_mrsigner_from_attestation_report,
            (ra, attestation_report),
            answer,
        )
}

/// `contract` may answer `answer` when asked for the block number.
#[verifier::opaque]
pub open spec fn gives_block_number<S: ExternalStatusGet>(contract: &S, answer: u64) -> bool {
    call_ensures(S::get_block_number, (contract,), answer)
}

/// `contract` may answer `answer` when asked for the enclave list.
#[verifier::opaque]
pub open spec fn gives_mrenclave_list<S: ExternalStatusGet>(
    contract: &S,
    answer: Seq<(String, u64)>,
) -> bool {
    exists|list: Vec<(String, u64)>|
        list@ == answer && #[trigger] call_ensures(S::get_mrenclave_list, (contract,), list)
}

/// `contract` may answer `answer` when asked for the signer list.
#[verifier::opaque]
pub open spec fn gives_mrsigner_list<S: ExternalStatusGet>(
    contract: &S,
    answer: Seq<(String, u64)>,
) -> bool {
    exists|list: Vec<(String, u64)>|
        list@ == answer && #[trigger] call_ensures(S::get_mrsigner_list, (contract,), list)
}

/// Asks for this enclave's target info.
pub fn ask_target_info<L: LocalAttestation>(la: &L) -> (answer: Vec<u8>)
    ensures
        gives_target_info(la, answer@),
{
    reveal(gives_target_info);
    la.target_info()
}

/// Asks for a local report addressed to `target_info`, with blank report
/// data.
pub fn ask_report<L: LocalAttestation>(la: &L, target_info: &[u8]) -> (answer: Option<LocalReport>)
    ensures
        gives_report(la, target_info@, blank_report_data(), answer),
{
    reveal(gives_report);
    let report_data = [0u8; 64];
    assert(report_data@ =~= blank_report_data());
    la.report(target_info, &report_data)
}

/// Asks whether a local report verifies on this machine.
pub fn ask_local_verdict<L: LocalAttestation>(la: &L, report: &[u8]) -> (answer: bool)
    ensures
        gives_local_verdict(la, report@, answer),
{
    reveal(gives_local_verdict);
    la.verify(report)
}

/// Asks for a remote attestation over a digest.
pub fn ask_attestation<R: RemoteAttestation>(
    ra: &R,
    digest: &[u8; 32],
    pccs_url: &str,
    ra_timeout: u64,
) -> (answer: Option<Vec<u8>>)
    ensures
        gives_attestation(ra, digest@, pccs_url@, ra_timeout, optional_view(answer)),
{
    reveal(gives_attestation);
    ra.create_remote_attestation_report(digest, pccs_url, ra_timeout)
}

/// Asks whether a remote attestation is genuine and binds a digest.
pub fn ask_remote_verdict<R: RemoteAttestation>(
    ra: &R,
    digest: &[u8; 32],
    report: &[u8],
) -> (answer: bool)
    ensures
        gives_remote_verdict(ra, digest@, report@, answer),
{
    reveal(gives_remote_verdict);
    ra.verify_remote_attestation_report(digest, bytes_to_vec(report))
}

/// Asks for the measurements that a remote attestation names.
pub fn ask_measurements<R: RemoteAttestation>(
    ra: &R,
    report: &[u8],
) -> (answer: Option<(String, String)>)
    ensures
        gives_measurements(ra, report@, answer),
{
    reveal(gives_measurements);
    ra.parse_mrenclave_and_mrsigner_from_attestation_report(bytes_to_vec(report))
}

/// Asks for the height of the chain.
pub fn ask_block_number<S: ExternalStatusGet>(contract: &S) -> (answer: u64)
    ensures
        gives_block_number(contract, answer),
{
    reveal(gives_block_number);
    contract.get_block_number()
}

/// Asks for the list of authorized enclave measurements.
pub fn ask_mrenclave_list<S: ExternalStatusGet>(contract: &S) -> (answer: Vec<(String, u64)>)
    ensures
        gives_mrenclave_list(contract, answer@),
{
    reveal(gives_mrenclave_list);
    contract.get_mrenclave_list()
}

/// Asks for the list of authorized signer measurements.
pub fn ask_mrsigner_list<S: ExternalStatusGet>(contract: &S) -> (answer: Vec<(String, u64)>)
    ensures
        gives_mrsigner_list(contract, answer@),
{
    reveal(gives_mrsigner_list);
    contract.get_mrsigner_list()
}

} // verus!
