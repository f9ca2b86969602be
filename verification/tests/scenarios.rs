use aes_gcm::aead::Aead;
use aes_gcm::{Aes256Gcm, Key, KeyInit, Nonce};
use handover::crypto::ecdh_public_key;
use handover::wire::{decode_response, decode_secret_data};
use handover::wire::{encode_response, encode_secret_data};
use handover::sealing::{digest_encrypted_data, digest_handler_info};
use handover::{
    ExternalStatusGet, HandoverChallenge, HandoverChallengeResponse, HandoverError,
    HandoverHandler, HandoverSecretData, LocalAttestation, LocalReport, RemoteAttestation,
};
use std::cell::Cell;

const SERVER_MRENCLAVE: [u8; 32] = [0xaa; 32];
const SERVER_MRSIGNER: [u8; 32] = [0xbb; 32];
const CLIENT_MRENCLAVE: &str = "c1c1";
const CLIENT_MRSIGNER: &str = "c2c2";

/// A machine whose enclaves report the given measurements.
struct Machine {
    genuine: bool,
    reports: bool,
}

impl LocalAttestation for Machine {
    fn target_info(&self) -> Vec<u8> {
        b"target".to_vec()
    }

    fn report(&self, target_info: &[u8], report_data: &[u8; 64]) -> Option<LocalReport> {
        assert_eq!(report_data, &[0u8; 64]);
        if !self.reports {
            return None;
        }
        let mut encoded = b"report-for:".to_vec();
        encoded.extend_from_slice(target_info);
        Some(LocalReport { mr_enclave: SERVER_MRENCLAVE, mr_signer: SERVER_MRSIGNER, encoded })
    }

    fn verify(&self, report: &[u8]) -> bool {
        self.genuine && report == b"report-for:target"
    }
}

/// A quoting service whose reports are the payload behind a marker.
struct Quotes {
    available: bool,
    readable: bool,
    calls: Cell<u32>,
}

impl Quotes {
    fn new() -> Self {
        Quotes { available: true, readable: true, calls: Cell::new(0) }
    }
}

impl RemoteAttestation for Quotes {
    fn create_remote_attestation_report(
        &self,
        payload: &[u8],
        pccs_url: &str,
        ra_timeout: u64,
    ) -> Option<Vec<u8>> {
        self.calls.set(self.calls.get() + 1);
        assert_eq!(payload.len(), 32);
        assert_eq!(pccs_url, "https://pccs.example");
        assert_eq!(ra_timeout, 30);
        if !self.available {
            return None;
        }
        let mut report = b"quote:".to_vec();
        report.extend_from_slice(payload);
        Some(report)
    }

    fn verify_remote_attestation_report(&self, payload: &[u8], attestation_report: Vec<u8>) -> bool {
        self.calls.set(self.calls.get() + 1);
        let mut expected = b"quote:".to_vec();
        expected.extend_from_slice(payload);
        attestation_report == expected
    }

    fn parse_mrenclave_and_mrsigner_from_attestation_report(
        &self,
        _attestation_report: Vec<u8>,
    ) -> Option<(String, String)> {
        self.calls.set(self.calls.get() + 1);
        if self.readable {
            Some((CLIENT_MRENCLAVE.to_string(), CLIENT_MRSIGNER.to_string()))
        } else {
            None
        }
    }
}

/// Adapters that must not be asked.
struct Untouchable;

impl LocalAttestation for Untouchable {
    fn target_info(&self) -> Vec<u8> {
        panic!("local attestation was asked for target info")
    }

    fn report(&self, _target_info: &[u8], _report_data: &[u8; 64]) -> Option<LocalReport> {
        panic!("local attestation was asked for a report")
    }

    fn verify(&self, _report: &[u8]) -> bool {
        panic!("local attestation was asked to verify")
    }
}

impl RemoteAttestation for Untouchable {
    fn create_remote_attestation_report(
        &self,
        _payload: &[u8],
        _pccs_url: &str,
        _ra_timeout: u64,
    ) -> Option<Vec<u8>> {
        panic!("remote attestation was asked for a report")
    }

    fn verify_remote_attestation_report(&self, _payload: &[u8], _report: Vec<u8>) -> bool {
        panic!("remote attestation was asked to verify")
    }

    fn parse_mrenclave_and_mrsigner_from_attestation_report(
        &self,
        _report: Vec<u8>,
    ) -> Option<(String, String)> {
        panic!("remote attestation was asked for measurements")
    }
}

impl ExternalStatusGet for Untouchable {
    fn get_block_number(&self) -> u64 {
        panic!("the registry was asked for the block number")
    }

    fn get_mrenclave_list(&self) -> Vec<(String, u64)> {
        panic!("the registry was asked for the enclave list")
    }

    fn get_mrsigner_list(&self) -> Vec<(String, u64)> {
        panic!("the registry was asked for the signer list")
    }
}

struct Registry {
    current: u64,
    mrenclave: Vec<(String, u64)>,
    mrsigner: Vec<(String, u64)>,
}

impl ExternalStatusGet for Registry {
    fn get_block_number(&self) -> u64 {
        self.current
    }

    fn get_mrenclave_list(&self) -> Vec<(String, u64)> {
        self.mrenclave.clone()
    }

    fn get_mrsigner_list(&self) -> Vec<(String, u64)> {
        self.mrsigner.clone()
    }
}

fn registry(current: u64, server: u64, client: u64) -> Registry {
    Registry {
        current,
        mrenclave: vec![("aa".repeat(32), server), (CLIENT_MRENCLAVE.to_string(), client)],
        mrsigner: vec![("bb".repeat(32), server), (CLIENT_MRSIGNER.to_string(), client)],
    }
}

fn machine() -> Machine {
    Machine { genuine: true, reports: true }
}

fn engine(dev_mode: bool) -> HandoverHandler {
    HandoverHandler::new(dev_mode, "https://pccs.example".to_string(), 30)
}

/// A server with the challenge of block 1000 outstanding, and a client's
/// response to it.
fn challenged(dev_mode: bool) -> (HandoverHandler, HandoverHandler, HandoverChallengeResponse) {
    let mut server = engine(dev_mode);
    let target_info = if dev_mode { Vec::new() } else { machine().target_info() };
    let challenge = server.issue_challenge(target_info, 1000, dev_mode, [1u8; 32]);
    let mut client = engine(dev_mode);
    let response = if dev_mode {
        client.handover_accept_challenge(challenge, &Untouchable, &Untouchable).unwrap()
    } else {
        client.handover_accept_challenge(challenge, &machine(), &Quotes::new()).unwrap()
    };
    (server, client, response)
}

fn open(client: &HandoverHandler, data: &HandoverSecretData) -> Result<Vec<u8>, aes_gcm::Error> {
    let envelope = &data.encrypted_data_info;
    let key = x25519_dalek::x25519(client.ecdh_secret_key().unwrap(), envelope.ecdh_pubkey);
    let cipher = Aes256Gcm::new(Key::<Aes256Gcm>::from_slice(&key));
    cipher.decrypt(Nonce::from_slice(&envelope.iv), envelope.encrypted_data.as_slice())
}

fn start(
    server: &mut HandoverHandler,
    response: HandoverChallengeResponse,
    registry: &Registry,
) -> Result<HandoverSecretData, HandoverError> {
    server.handover_start(b"topsecret".to_vec(), response, &machine(), &Quotes::new(), registry)
}

#[test]
fn happy_path_outside_dev_mode() {
    let (mut server, client, response) = challenged(false);
    assert_eq!(response.challenge_handler.challenge.block_number, 1000);
    assert_eq!(response.challenge_handler.challenge.nonce, [1u8; 32]);
    assert_eq!(response.challenge_handler.challenge.sgx_target_info, b"target");
    assert_eq!(response.challenge_handler.sgx_local_report, b"report-for:target");
    assert_eq!(Some(response.challenge_handler.ecdh_pubkey), client.ecdh_public_key());
    let mut quote = b"quote:".to_vec();
    quote.extend_from_slice(&digest_handler_info(&response.challenge_handler));
    assert_eq!(response.attestation, Some(quote));

    let data = start(&mut server, response, &registry(1050, 100, 200)).unwrap();
    assert!(!data.encrypted_data_info.dev_mode);
    let mut quote = b"quote:".to_vec();
    quote.extend_from_slice(&digest_encrypted_data(&data.encrypted_data_info));
    assert_eq!(data.attestation, Some(quote));
    assert_eq!(open(&client, &data).unwrap(), b"topsecret");
    assert_eq!(server.last_challenge(), None);
    assert_eq!(server.ecdh_secret_key(), None);
    assert_eq!(server.ecdh_public_key(), None);
}

#[test]
fn happy_path_over_the_wire() {
    let (mut server, client, response) = challenged(false);
    let received = decode_response(&encode_response(&response)).unwrap();
    assert_eq!(received, response);
    let data = start(&mut server, received, &registry(1050, 100, 200)).unwrap();
    let returned = decode_secret_data(&encode_secret_data(&data)).unwrap();
    assert_eq!(returned, data);
    assert_eq!(open(&client, &returned).unwrap(), b"topsecret");
}

#[test]
fn an_expired_challenge_is_refused() {
    let (mut server, _client, response) = challenged(false);
    assert_eq!(
        start(&mut server, response, &registry(1200, 100, 200)),
        Err(HandoverError::HandoverExpired)
    );
}

#[test]
fn freshness_boundaries_through_the_engine() {
    for (current, fresh) in [(999, false), (1000, true), (1150, true), (1151, false), (0, false)] {
        let (mut server, _client, response) = challenged(true);
        let registry = registry(current, 100, 200);
        let outcome = server.handover_start(
            b"topsecret".to_vec(),
            response,
            &Untouchable,
            &Untouchable,
            &registry,
        );
        if fresh {
            assert!(outcome.is_ok());
        } else {
            assert_eq!(outcome, Err(HandoverError::HandoverExpired));
        }
    }
}

#[test]
fn equal_versions_are_refused() {
    let (mut server, _client, response) = challenged(false);
    assert_eq!(
        start(&mut server, response, &registry(1050, 100, 100)),
        Err(HandoverError::VersionNotNewer)
    );
}

#[test]
fn an_older_client_is_refused() {
    let (mut server, _client, response) = challenged(false);
    assert_eq!(
        start(&mut server, response, &registry(1050, 100, 99)),
        Err(HandoverError::VersionNotNewer)
    );
}

#[test]
fn a_tampered_answer_is_refused() {
    let (mut server, _client, mut response) = challenged(false);
    response.challenge_handler.ecdh_pubkey[0] ^= 1;
    assert_eq!(
        start(&mut server, response, &registry(1050, 100, 200)),
        Err(HandoverError::RemoteAttestationRejected)
    );
}

#[test]
fn a_tampered_local_report_is_refused() {
    let (mut server, _client, mut response) = challenged(false);
    response.challenge_handler.sgx_local_report[0] ^= 1;
    assert_eq!(
        start(&mut server, response, &registry(1050, 100, 200)),
        Err(HandoverError::RemoteAttestationRejected)
    );
}

#[test]
fn a_wrong_challenge_is_refused() {
    let (mut server, _client, _response) = challenged(false);
    let foreign = HandoverChallenge {
        sgx_target_info: machine().target_info(),
        block_number: 1000,
        dev_mode: false,
        nonce: [2u8; 32],
    };
    let mut client = engine(false);
    let response = client.handover_accept_challenge(foreign, &machine(), &Quotes::new()).unwrap();
    assert_eq!(
        start(&mut server, response, &registry(1050, 100, 200)),
        Err(HandoverError::ChallengeMismatch)
    );
    assert_eq!(server.last_challenge(), None);
}

#[test]
fn a_mismatch_asks_nobody() {
    let (mut server, _client, mut response) = challenged(false);
    response.challenge_handler.challenge.block_number = 1001;
    assert_eq!(
        server.handover_start(
            b"topsecret".to_vec(),
            response,
            &Untouchable,
            &Untouchable,
            &Untouchable
        ),
        Err(HandoverError::ChallengeMismatch)
    );
}

#[test]
fn dev_mode_asks_no_attestation() {
    let (mut server, client, response) = challenged(true);
    assert_eq!(response.attestation, None);
    assert!(response.challenge_handler.sgx_local_report.is_empty());
    assert!(response.challenge_handler.challenge.sgx_target_info.is_empty());
    assert!(response.challenge_handler.challenge.dev_mode);
    let registry = Registry { current: 1050, mrenclave: Vec::new(), mrsigner: Vec::new() };
    let data = server
        .handover_start(b"topsecret".to_vec(), response, &Untouchable, &Untouchable, &registry)
        .unwrap();
    assert_eq!(data.attestation, None);
    assert!(data.encrypted_data_info.dev_mode);
    assert_eq!(open(&client, &data).unwrap(), b"topsecret");
}

#[test]
fn dev_mode_challenge_asks_nobody() {
    let mut server = engine(true);
    let challenge = server.generate_challenge(true, 7, &Untouchable).unwrap();
    assert!(challenge.sgx_target_info.is_empty());
    assert!(challenge.dev_mode);
    assert_eq!(challenge.block_number, 7);
    assert_eq!(server.last_challenge(), Some(challenge));
}

#[test]
fn a_response_is_accepted_once() {
    let (mut server, _client, response) = challenged(false);
    let registry = registry(1050, 100, 200);
    assert!(start(&mut server, response.clone(), &registry).is_ok());
    assert_eq!(start(&mut server, response, &registry), Err(HandoverError::ChallengeMismatch));
}

#[test]
fn a_refused_response_spends_the_challenge() {
    let (mut server, _client, response) = challenged(false);
    assert_eq!(
        start(&mut server, response.clone(), &registry(1200, 100, 200)),
        Err(HandoverError::HandoverExpired)
    );
    assert_eq!(
        start(&mut server, response, &registry(1050, 100, 200)),
        Err(HandoverError::ChallengeMismatch)
    );
}

#[test]
fn without_a_challenge_every_response_is_a_mismatch() {
    let (_server, _client, response) = challenged(false);
    let mut idle = engine(false);
    assert_eq!(
        start(&mut idle, response, &registry(1050, 100, 200)),
        Err(HandoverError::ChallengeMismatch)
    );
}

#[test]
fn a_second_challenge_replaces_the_first() {
    let mut server = engine(false);
    let first = server.generate_challenge(false, 1000, &machine()).unwrap();
    let second = server.generate_challenge(false, 1001, &machine()).unwrap();
    assert_eq!(server.last_challenge(), Some(second.clone()));
    let mut client = engine(false);
    let stale = client.handover_accept_challenge(first, &machine(), &Quotes::new()).unwrap();
    assert_eq!(
        start(&mut server, stale, &registry(1050, 100, 200)),
        Err(HandoverError::ChallengeMismatch)
    );
}

#[test]
fn a_generated_challenge_carries_the_target_info() {
    let mut server = engine(false);
    let challenge = server.generate_challenge(false, 1000, &machine()).unwrap();
    assert_eq!(challenge.sgx_target_info, b"target");
    assert_eq!(challenge.block_number, 1000);
    assert!(!challenge.dev_mode);
    let mut client = engine(false);
    let response = client.handover_accept_challenge(challenge, &machine(), &Quotes::new()).unwrap();
    assert!(start(&mut server, response, &registry(1050, 100, 200)).is_ok());
}

#[test]
fn nonces_do_not_repeat() {
    let mut server = engine(true);
    let mut seen = std::collections::HashSet::new();
    for _ in 0..10_000 {
        let challenge = server.generate_challenge(true, 1, &Untouchable).unwrap();
        assert!(seen.insert(challenge.nonce));
    }
}

#[test]
fn key_pairs_do_not_repeat() {
    let mut seen = std::collections::HashSet::new();
    for _ in 0..200 {
        let (_server, client, response) = challenged(true);
        let secret = client.ecdh_secret_key().unwrap();
        assert_eq!(ecdh_public_key(&secret), response.challenge_handler.ecdh_pubkey);
        assert!(seen.insert(secret));
    }
}

#[test]
fn each_handover_has_its_own_key_and_iv() {
    let (mut server, _client, response) = challenged(true);
    let registry = registry(1050, 100, 200);
    let first = server
        .handover_start(b"topsecret".to_vec(), response, &Untouchable, &Untouchable, &registry)
        .unwrap();
    let (mut server, _client, response) = challenged(true);
    let second = server
        .handover_start(b"topsecret".to_vec(), response, &Untouchable, &Untouchable, &registry)
        .unwrap();
    assert_ne!(first.encrypted_data_info.ecdh_pubkey, second.encrypted_data_info.ecdh_pubkey);
    assert_ne!(first.encrypted_data_info.iv, second.encrypted_data_info.iv);
    assert_ne!(first.encrypted_data_info.encrypted_data, second.encrypted_data_info.encrypted_data);
}

#[test]
fn a_missing_attestation_is_refused() {
    let (mut server, _client, mut response) = challenged(false);
    response.attestation = None;
    assert_eq!(
        start(&mut server, response, &registry(1050, 100, 200)),
        Err(HandoverError::RemoteAttestationRejected)
    );
}

#[test]
fn an_attestation_without_measurements_is_refused() {
    let (mut server, _client, response) = challenged(false);
    let quotes = Quotes { available: true, readable: false, calls: Cell::new(0) };
    assert_eq!(
        server.handover_start(
            b"topsecret".to_vec(),
            response,
            &machine(),
            &quotes,
            &registry(1050, 100, 200)
        ),
        Err(HandoverError::RemoteAttestationRejected)
    );
}

#[test]
fn a_report_from_another_machine_is_refused() {
    let (mut server, _client, response) = challenged(false);
    let elsewhere = Machine { genuine: false, reports: true };
    assert_eq!(
        server.handover_start(
            b"topsecret".to_vec(),
            response,
            &elsewhere,
            &Quotes::new(),
            &registry(1050, 100, 200)
        ),
        Err(HandoverError::LocalAttestationRejected)
    );
}

#[test]
fn an_unlisted_side_is_not_authorized() {
    let (mut server, _client, response) = challenged(false);
    let mut without_client = registry(1050, 100, 200);
    without_client.mrsigner.pop();
    assert_eq!(
        start(&mut server, response, &without_client),
        Err(HandoverError::NotAuthorized)
    );
    let (mut server, _client, response) = challenged(false);
    let mut without_server = registry(1050, 100, 200);
    without_server.mrenclave.remove(0);
    assert_eq!(
        start(&mut server, response, &without_server),
        Err(HandoverError::NotAuthorized)
    );
}

#[test]
fn an_inconsistent_registry_is_fatal() {
    let (mut server, _client, response) = challenged(false);
    let mut off = registry(1050, 100, 200);
    off.mrsigner[0].1 = 101;
    assert_eq!(start(&mut server, response, &off), Err(HandoverError::RegistryInconsistent));
    let (mut server, _client, response) = challenged(false);
    let mut off = registry(1050, 100, 200);
    off.mrenclave[1].1 = 201;
    assert_eq!(start(&mut server, response, &off), Err(HandoverError::RegistryInconsistent));
}

#[test]
fn a_server_without_a_report_fails() {
    let (mut server, _client, response) = challenged(false);
    let mute = Machine { genuine: true, reports: false };
    assert_eq!(
        server.handover_start(
            b"topsecret".to_vec(),
            response,
            &mute,
            &Quotes::new(),
            &registry(1050, 100, 200)
        ),
        Err(HandoverError::CryptoError)
    );
}

#[test]
fn a_client_without_a_report_fails_and_is_idle() {
    let mut server = engine(false);
    let challenge = server.generate_challenge(false, 1000, &machine()).unwrap();
    let mut client = engine(false);
    let mute = Machine { genuine: true, reports: false };
    assert_eq!(
        client.handover_accept_challenge(challenge, &mute, &Quotes::new()),
        Err(HandoverError::CryptoError)
    );
    assert_eq!(client.ecdh_secret_key(), None);
    assert_eq!(client.ecdh_public_key(), None);
    assert_eq!(client.last_challenge(), None);
}

#[test]
fn an_attestation_that_takes_too_long_fails() {
    let slow = Quotes { available: false, readable: true, calls: Cell::new(0) };
    let mut server = engine(false);
    let challenge = server.generate_challenge(false, 1000, &machine()).unwrap();
    let mut client = engine(false);
    assert_eq!(
        client.handover_accept_challenge(challenge, &machine(), &slow),
        Err(HandoverError::AttestationTimeout)
    );
    assert_eq!(client.ecdh_secret_key(), None);

    let (mut server, _client, response) = challenged(false);
    assert_eq!(
        server.handover_start(
            b"topsecret".to_vec(),
            response,
            &machine(),
            &slow,
            &registry(1050, 100, 200)
        ),
        Err(HandoverError::AttestationTimeout)
    );
}

#[test]
fn the_checks_stop_at_the_first_failure() {
    let (mut server, _client, mut response) = challenged(false);
    response.attestation = None;
    assert_eq!(
        server.handover_start(
            b"topsecret".to_vec(),
            response,
            &Untouchable,
            &Untouchable,
            &Untouchable
        ),
        Err(HandoverError::RemoteAttestationRejected)
    );
    let (mut server, _client, mut response) = challenged(false);
    response.challenge_handler.ecdh_pubkey[31] ^= 0x80;
    let quotes = Quotes::new();
    assert_eq!(
        server.handover_start(
            b"topsecret".to_vec(),
            response,
            &Untouchable,
            &quotes,
            &Untouchable
        ),
        Err(HandoverError::RemoteAttestationRejected)
    );
    assert_eq!(quotes.calls.get(), 1);
}

#[test]
fn a_tampered_result_does_not_open() {
    let (mut server, client, response) = challenged(false);
    let data = start(&mut server, response, &registry(1050, 100, 200)).unwrap();
    let sealed = data.encrypted_data_info.encrypted_data.len();
    assert_eq!(sealed, 9 + 16);
    for position in 0..sealed {
        let mut tampered = data.clone();
        tampered.encrypted_data_info.encrypted_data[position] ^= 1;
        assert!(open(&client, &tampered).is_err());
    }
    for position in 0..12 {
        let mut tampered = data.clone();
        tampered.encrypted_data_info.iv[position] ^= 1;
        assert!(open(&client, &tampered).is_err());
    }
    for position in 0..32 {
        let mut tampered = data.clone();
        tampered.encrypted_data_info.ecdh_pubkey[position] ^= 1;
        assert!(open(&client, &tampered).is_err());
        assert_ne!(
            digest_encrypted_data(&tampered.encrypted_data_info),
            digest_encrypted_data(&data.encrypted_data_info)
        );
    }
    let mut tampered = data.clone();
    tampered.encrypted_data_info.dev_mode = true;
    assert_ne!(
        digest_encrypted_data(&tampered.encrypted_data_info),
        digest_encrypted_data(&data.encrypted_data_info)
    );
}

#[test]
fn reset_forgets_everything() {
    let (mut server, mut client, _response) = challenged(true);
    assert!(server.last_challenge().is_some());
    assert!(client.ecdh_secret_key().is_some());
    server.reset();
    client.reset();
    assert_eq!(server.last_challenge(), None);
    assert_eq!(client.ecdh_secret_key(), None);
    assert_eq!(client.ecdh_public_key(), None);
    assert!(server.dev_mode);
    assert_eq!(server.pccs_url, "https://pccs.example");
    assert_eq!(server.ra_timeout, 30);
}

#[test]
fn answering_keeps_the_key_pair() {
    let mut client = engine(true);
    let challenge =
        HandoverChallenge { sgx_target_info: vec![], block_number: 5, dev_mode: true, nonce: [3; 32] };
    let info = client.answer_challenge(challenge.clone(), vec![1, 2], [7u8; 32]);
    assert_eq!(info.challenge, challenge);
    assert_eq!(info.sgx_local_report, vec![1, 2]);
    assert_eq!(info.ecdh_pubkey, ecdh_public_key(&[7u8; 32]));
    assert_eq!(client.ecdh_secret_key(), Some([7u8; 32]));
    assert_eq!(client.ecdh_public_key(), Some(info.ecdh_pubkey));
}

#[test]
fn taking_a_challenge_spends_it() {
    let mut server = engine(true);
    let challenge = server.issue_challenge(vec![9], 5, true, [3; 32]);
    assert_eq!(challenge.sgx_target_info, vec![9]);
    assert_eq!(challenge.nonce, [3; 32]);
    let mut other = challenge.clone();
    other.nonce[31] = 4;
    assert_eq!(server.take_challenge(&other), Err(HandoverError::ChallengeMismatch));
    assert_eq!(server.take_challenge(&challenge), Err(HandoverError::ChallengeMismatch));
    let challenge = server.issue_challenge(vec![9], 5, true, [3; 32]);
    assert_eq!(server.take_challenge(&challenge), Ok(()));
    assert_eq!(server.take_challenge(&challenge), Err(HandoverError::ChallengeMismatch));
}

#[test]
fn an_invalid_client_key_is_refused() {
    let (mut server, _client, mut response) = challenged(true);
    response.challenge_handler.ecdh_pubkey = [0u8; 32];
    let registry = registry(1050, 100, 200);
    assert_eq!(
        server.handover_start(
            b"topsecret".to_vec(),
            response,
            &Untouchable,
            &Untouchable,
            &registry
        ),
        Err(HandoverError::CryptoError)
    );
}
