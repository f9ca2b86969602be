//! The handover engine: the state of one node and the three steps of the
//! protocol.
//!
//! A server issues a challenge with [`HandoverHandler::generate_challenge`]
//! and answers a response with [`HandoverHandler::handover_start`]. A client
//! answers a challenge with [`HandoverHandler::handover_accept_challenge`].
//! An engine holds at most one outstanding challenge, and whatever happens to
//! a response, the challenge it answers is spent.

use vstd::prelude::*;
use crate::admission::{admission, answered, Evidence};
use crate::attestation::{
    ask_attestation, ask_block_number, ask_local_verdict, ask_measurements, ask_mrenclave_list,
    ask_mrsigner_list, ask_remote_verdict, ask_report, ask_target_info, blank_report_data,
    gives_attestation, gives_report, gives_target_info, ExternalStatusGet, LocalAttestation,
    LocalReport, RemoteAttestation,
};
use crate::crypto::{ecdh_public_key, public_key_of, random_bytes, sealable, wipe};
use crate::error::HandoverError;
use crate::hex::hex_lower;
use crate::message::{
    ChallengeHandlerInfo, ChallengeView, EncryptedDataView, HandlerInfoView, HandoverChallenge,
    HandoverChallengeResponse, HandoverSecretData,
};
use crate::policy::{check_freshness, version_gate, Identities};
use crate::sealing::{
    digest_encrypted_data, digest_handler_info, encrypted_data_digest, handler_info_digest,
    seal_secret, sealed_envelope, sealed_for,
};

verus! {

/// One node's side of a handover.
pub struct HandoverHandler {
    ecdh_secret_key: Option<[u8; 32]>,
    ecdh_public_key: Option<[u8; 32]>,
    /// The last challenge that this node issued, until a response spends it.
    handover_last_challenge: Option<HandoverChallenge>,
    /// Skips every attestation and the version gate. For development only.
    pub dev_mode: bool,
    /// The endpoint handed to the remote attestation.
    pub pccs_url: String,
    /// The seconds that one remote attestation may take.
    pub ra_timeout: u64,
}

impl Drop for HandoverHandler {
    /// Wipes the secret key before the engine goes.
    fn drop(&mut self)
        opens_invariants none
        no_unwind
    {
        match &mut self.ecdh_secret_key {
            Some(key) => {
                wipe(key);
            },
            None => {},
        }
    }
}

/// How an engine is configured.
pub struct Config {
    pub dev_mode: bool,
    pub pccs_url: Seq<char>,
    pub ra_timeout: u64,
}

impl HandoverHandler {
    /// The ephemeral secret key that the engine holds.
    pub closed spec fn secret(&self) -> Option<Seq<u8>> {
        match self.ecdh_secret_key {
            Some(key) => Some(key@),
            None => None,
        }
    }

    /// The ephemeral public key that the engine holds.
    pub closed spec fn public(&self) -> Option<Seq<u8>> {
        match self.ecdh_public_key {
            Some(key) => Some(key@),
            None => None,
        }
    }

    /// The outstanding challenge.
    pub closed spec fn pending_challenge(&self) -> Option<ChallengeView> {
        match self.handover_last_challenge {
            Some(challenge) => Some(challenge@),
            None => None,
        }
    }

    /// The engine holds both keys of a pair or none.
    pub open spec fn wf(&self) -> bool {
        match (self.secret(), self.public()) {
            (Some(secret), Some(public)) => public == public_key_of(secret),
            (None, None) => true,
            _ => false,
        }
    }

    /// Nothing is outstanding and no key is held.
    pub open spec fn is_idle(&self) -> bool {
        self.secret() is None && self.public() is None && self.pending_challenge() is None
    }

    /// The configuration, which no step of the protocol changes.
    pub closed spec fn config(&self) -> Config {
        Config { dev_mode: self.dev_mode, pccs_url: self.pccs_url@, ra_timeout: self.ra_timeout }
    }

    /// Both engines are configured alike.
    pub open spec fn same_config(&self, other: &Self) -> bool {
        self.config() == other.config()
    }

    /// An idle engine.
    pub fn new(dev_mode: bool, pccs_url: String, ra_timeout: u64) -> (engine: Self)
        ensures
            engine.is_idle(),
            engine.wf(),
            engine.config() == (Config { dev_mode, pccs_url: pccs_url@, ra_timeout }),
    {
        HandoverHandler {
            ecdh_secret_key: None,
            ecdh_public_key: None,
            handover_last_challenge: None,
            dev_mode,
            pccs_url,
            ra_timeout,
        }
    }

    /// The outstanding challenge, if there is one.
    pub fn last_challenge(&self) -> (r: Option<HandoverChallenge>)
        ensures
            match r {
                Some(challenge) => self.pending_challenge() == Some(challenge@),
                None => self.pending_challenge() is None,
            },
    {
        match &self.handover_last_challenge {
            Some(challenge) => Some(challenge.clone()),
            None => None,
        }
    }

    /// The ephemeral secret key, which a client needs to open what the server
    /// returns.
    pub fn ecdh_secret_key(&self) -> (r: Option<[u8; 32]>)
        ensures
            match r {
                Some(key) => self.secret() == Some(key@),
                None => self.secret() is None,
            },
    {
        self.ecdh_secret_key
    }

    /// The ephemeral public key.
    pub fn ecdh_public_key(&self) -> (r: Option<[u8; 32]>)
        ensures
            match r {
                Some(key) => self.public() == Some(key@),
                None => self.public() is None,
            },
    {
        self.ecdh_public_key
    }

    /// Gives up whatever is in flight: wipes the secret key, forgets the
    /// public key and the outstanding challenge.
    pub fn reset(&mut self)
        ensures
            final(self).is_idle(),
            final(self).wf(),
            final(self).same_config(old(self)),
    {
        match &mut self.ecdh_secret_key {
            Some(key) => {
                wipe(key);
            },
            None => {},
        }
        self.ecdh_secret_key = None;
        self.ecdh_public_key = None;
        self.handover_last_challenge = None;
    }

    /// Makes a challenge of the given parts the outstanding one, in place of
    /// any earlier challenge, and returns it.
    pub fn issue_challenge(
        &mut self,
        sgx_target_info: Vec<u8>,
        block_number: u64,
        dev_mode: bool,
        nonce: [u8; 32],
    ) -> (challenge: HandoverChallenge)
        ensures
            challenge@ == (ChallengeView {
                sgx_target_info: sgx_target_info@,
                block_number,
                dev_mode,
                nonce: nonce@,
            }),
            final(self).pending_challenge() == Some(challenge@),
            final(self).secret() == old(self).secret(),
            final(self).public() == old(self).public(),
            final(self).same_config(old(self)),
    {
        let challenge = HandoverChallenge { sgx_target_info, block_number, dev_mode, nonce };
        self.handover_last_challenge = Some(challenge.clone());
        challenge
    }

    /// Server: issues a challenge for the block `block_number` with a fresh
    /// random nonce. Outside dev mode it carries this enclave's target info,
    /// as the local attestation gives it; in dev mode nothing is asked.
    /// Fails only where the system gives no random bytes; the engine is then
    /// idle.
    pub fn generate_challenge<L: LocalAttestation>(
        &mut self,
        dev_mode: bool,
        block_number: u64,
        la: &L,
    ) -> (r: Result<HandoverChallenge, HandoverError>)
        ensures
            final(self).same_config(old(self)),
            match r {
                Ok(challenge) => {
                    &&& challenge@.block_number == block_number
                    &&& challenge@.dev_mode == dev_mode
                    &&& dev_mode ==> challenge@.sgx_target_info.len() == 0
                    &&& !dev_mode ==> gives_target_info(la, challenge@.sgx_target_info)
                    &&& final(self).pending_challenge() == Some(challenge@)
                    &&& final(self).secret() == old(self).secret()
                    &&& final(self).public() == old(self).public()
                },
                Err(e) => e == HandoverError::CryptoError && final(self).is_idle(),
            },
    {
        let nonce = match random_bytes::<32>() {
            Ok(nonce) => nonce,
            Err(_) => {
                self.reset();
                return Err(HandoverError::CryptoError);
            },
        };
        let sgx_target_info = if dev_mode {
            Vec::new()
        } else {
            ask_target_info(la)
        };
        Ok(self.issue_challenge(sgx_target_info, block_number, dev_mode, nonce))
    }

    /// Takes `secret` as the ephemeral secret key and answers `challenge`
    /// with the public key that belongs to it.
    pub fn answer_challenge(
        &mut self,
        challenge: HandoverChallenge,
        sgx_local_report: Vec<u8>,
        secret: [u8; 32],
    ) -> (info: ChallengeHandlerInfo)
        ensures
            info@ == (HandlerInfoView {
                challenge: challenge@,
                sgx_local_report: sgx_local_report@,
                ecdh_pubkey: public_key_of(secret@),
            }),
            final(self).secret() == Some(secret@),
            final(self).public() == Some(public_key_of(secret@)),
            final(self).wf(),
            final(self).pending_challenge() == old(self).pending_challenge(),
            final(self).same_config(old(self)),
    {
        let public = ecdh_public_key(&secret);
        self.ecdh_secret_key = Some(secret);
        self.ecdh_public_key = Some(public);
        ChallengeHandlerInfo { challenge, sgx_local_report, ecdh_pubkey: public }
    }

    /// Client: answers a challenge. Generates a fresh key pair and keeps it.
    /// Unless the challenge is in dev mode, the answer carries a local report
    /// addressed to the server's target info, and the remote attestation is
    /// asked for a report over the digest of the whole answer. In dev mode
    /// neither attestation is asked.
    ///
    /// It fails where the system gives no random bytes or no local report is
    /// to be had, and where the remote attestation gives none in time. The
    /// engine is then idle.
    pub fn handover_accept_challenge<L: LocalAttestation, R: RemoteAttestation>(
        &mut self,
        challenge: HandoverChallenge,
        la: &L,
        ra: &R,
    ) -> (r: Result<HandoverChallengeResponse, HandoverError>)
        ensures
            final(self).same_config(old(self)),
            final(self).wf(),
            match r {
                Ok(response) => {
                    &&& response@.challenge_handler.challenge == challenge@
                    &&& final(self).public() == Some(response@.challenge_handler.ecdh_pubkey)
                    &&& final(self).pending_challenge() == old(self).pending_challenge()
                    &&& if challenge.dev_mode {
                        &&& response@.challenge_handler.sgx_local_report.len() == 0
                        &&& response.attestation is None
                    } else {
                        &&& locally_reported(
                            la,
                            challenge@.sgx_target_info,
                            response@.challenge_handler.sgx_local_report,
                        )
                        &&& response.attestation is Some
                        &&& answer_attested(
                            ra,
                            old(self).config(),
                            response@.challenge_handler,
                            response@.attestation,
                        )
                    }
                },
                Err(e) => {
                    &&& final(self).is_idle()
                    &&& e == HandoverError::CryptoError || e == HandoverError::AttestationTimeout
                    &&& e == HandoverError::AttestationTimeout ==> !challenge.dev_mode
                        && exists|info: HandlerInfoView|
                        info.challenge == challenge@ && #[trigger] answer_attested(
                            ra,
                            old(self).config(),
                            info,
                            None,
                        )
                },
            },
    {
        let dev_mode = challenge.dev_mode;
        let secret = match random_bytes::<32>() {
            Ok(secret) => secret,
            Err(_) => {
                self.reset();
                return Err(HandoverError::CryptoError);
            },
        };
        let sgx_local_report = if !dev_mode {
            match ask_report(la, challenge.sgx_target_info.as_slice()) {
                Some(report) => report.encoded,
                None => {
                    self.reset();
                    return Err(HandoverError::CryptoError);
                },
            }
        } else {
            Vec::new()
        };
        let challenge_handler = self.answer_challenge(challenge, sgx_local_report, secret);
        let attestation = if !dev_mode {
            let digest = digest_handler_info(&challenge_handler);
            match ask_attestation(ra, &digest, self.pccs_url.as_str(), self.ra_timeout) {
                Some(report) => Some(report),
                None => {
                    assert(answer_attested(ra, self.config(), challenge_handler@, None));
                    self.reset();
                    return Err(HandoverError::AttestationTimeout);
                },
            }
        } else {
            None
        };
        Ok(HandoverChallengeResponse { challenge_handler, attestation })
    }

    /// Spends the outstanding challenge and says whether `echoed` is it.
    /// Whatever the answer, the engine is idle afterwards, so that no second
    /// response can be held against the same challenge.
    pub fn take_challenge(&mut self, echoed: &HandoverChallenge) -> (r: Result<(), HandoverError>)
        ensures
            final(self).is_idle(),
            final(self).wf(),
            final(self).same_config(old(self)),
            old(self).pending_challenge() == Some(echoed@) ==> r == Ok::<(), HandoverError>(()),
            old(self).pending_challenge() != Some(echoed@) ==> r == Err::<(), HandoverError>(
                HandoverError::ChallengeMismatch,
            ),
    {
        let matches = match &self.handover_last_challenge {
            Some(challenge) => *challenge == *echoed,
            None => false,
        };
        self.reset();
        if matches {
            Ok(())
        } else {
            Err(HandoverError::ChallengeMismatch)
        }
    }

    /// Holds a response against every check of a handover and spends the
    /// outstanding challenge. Returns the verdict, and with it what the
    /// surroundings answered on the way.
    fn examine<L: LocalAttestation, R: RemoteAttestation, S: ExternalStatusGet>(
        &mut self,
        response: &HandoverChallengeResponse,
        la: &L,
        ra: &R,
        contract: &S,
    ) -> (r: (Result<(), HandoverError>, Ghost<Evidence>))
        ensures
            final(self).is_idle(),
            final(self).wf(),
            final(self).same_config(old(self)),
            answered(la, ra, contract, response@, r.1@),
            admission(
                old(self).config().dev_mode,
                old(self).pending_challenge(),
                response@,
                r.1@,
            ) == Some(r.0),
    {
        let dev_mode = self.dev_mode;
        let challenge_handler = &response.challenge_handler;
        let ghost mut evidence = Evidence {
            remote_verdict: None,
            client: None,
            local_verdict: None,
            block_number: None,
            target_info: None,
            own_report: None,
            mrenclave_list: None,
            mrsigner_list: None,
        };
        match self.take_challenge(&challenge_handler.challenge) {
            Ok(()) => {},
            Err(e) => {
                return (Err(e), Ghost(evidence));
            },
        }
        if dev_mode {
            let height = ask_block_number(contract);
            proof {
                evidence = Evidence { block_number: Some(height), ..evidence };
            }
            return (
                check_freshness(challenge_handler.challenge.block_number, height),
                Ghost(evidence),
            );
        }
        let attestation = match &response.attestation {
            Some(attestation) => attestation,
            None => {
                return (Err(HandoverError::RemoteAttestationRejected), Ghost(evidence));
            },
        };
        let digest = digest_handler_info(challenge_handler);
        let verdict = ask_remote_verdict(ra, &digest, attestation.as_slice());
        proof {
            evidence = Evidence { remote_verdict: Some(verdict), ..evidence };
        }
        if !verdict {
            return (Err(HandoverError::RemoteAttestationRejected), Ghost(evidence));
        }
        let measurements = ask_measurements(ra, attestation.as_slice());
        proof {
            evidence = Evidence { client: Some(measurements), ..evidence };
        }
        let (client_mrenclave, client_mrsigner) = match measurements {
            Some(measurements) => measurements,
            None => {
                return (Err(HandoverError::RemoteAttestationRejected), Ghost(evidence));
            },
        };
        let verdict = ask_local_verdict(la, challenge_handler.sgx_local_report.as_slice());
        proof {
            evidence = Evidence { local_verdict: Some(verdict), ..evidence };
        }
        if !verdict {
            return (Err(HandoverError::LocalAttestationRejected), Ghost(evidence));
        }
        let height = ask_block_number(contract);
        proof {
            evidence = Evidence { block_number: Some(height), ..evidence };
        }
        match check_freshness(challenge_handler.challenge.block_number, height) {
            Ok(()) => {},
            Err(e) => {
                return (Err(e), Ghost(evidence));
            },
        }
        let target_info = ask_target_info(la);
        let own_report = ask_report(la, target_info.as_slice());
        proof {
            evidence = Evidence {
                target_info: Some(target_info@),
                own_report: Some(own_report),
                ..evidence
            };
        }
        let own_report = match own_report {
            Some(report) => report,
            None => {
                return (Err(HandoverError::CryptoError), Ghost(evidence));
            },
        };
        let ids = Identities {
            server_mrenclave: hex_lower(&own_report.mr_enclave),
            server_mrsigner: hex_lower(&own_report.mr_signer),
            client_mrenclave,
            client_mrsigner,
        };
        let mrenclave_list = ask_mrenclave_list(contract);
        let mrsigner_list = ask_mrsigner_list(contract);
        proof {
            evidence = Evidence {
                mrenclave_list: Some(mrenclave_list@),
                mrsigner_list: Some(mrsigner_list@),
                ..evidence
            };
        }
        (version_gate(&mrenclave_list, &mrsigner_list, &ids), Ghost(evidence))
    }

    /// Server: answers a response with the secret, encrypted for the client.
    ///
    /// The response is held against the checks of [`admission`], for which
    /// the attestations and the registry are asked as far as the checks get:
    /// in dev mode none of them but the height of the chain. The outcome of
    /// the checks is their verdict on what was answered. A response that
    /// passes has the secret sealed under a fresh key pair and, unless in dev
    /// mode, the result attested, as [`served`] says.
    ///
    /// Dev mode is that of the engine, whatever the challenge says of itself.
    /// The outstanding challenge is spent on entry and the engine is idle
    /// afterwards, whatever the outcome.
    pub fn handover_start<L: LocalAttestation, R: RemoteAttestation, S: ExternalStatusGet>(
        &mut self,
        secret_data: Vec<u8>,
        response: HandoverChallengeResponse,
        la: &L,
        ra: &R,
        contract: &S,
    ) -> (r: Result<HandoverSecretData, HandoverError>)
        ensures
            final(self).is_idle(),
            final(self).wf(),
            final(self).same_config(old(self)),
            exists|evidence: Evidence|
                answered(la, ra, contract, response@, evidence) && match #[trigger] admission(
                    old(self).config().dev_mode,
                    old(self).pending_challenge(),
                    response@,
                    evidence,
                ) {
                    Some(Err(e)) => r == Err::<HandoverSecretData, HandoverError>(e),
                    Some(Ok(())) => served(
                        r,
                        old(self).config(),
                        secret_data@,
                        response@.challenge_handler.ecdh_pubkey,
                        ra,
                    ),
                    None => false,
                },
    {
        let (verdict, _) = self.examine(&response, la, ra, contract);
        match verdict {
            Ok(()) => self.serve(
                secret_data.as_slice(),
                &response.challenge_handler.ecdh_pubkey,
                ra,
            ),
            Err(e) => Err(e),
        }
    }

    /// Serves an admitted response: seals the secret for the client under a
    /// fresh key pair and, unless in dev mode, has the result attested.
    fn serve<R: RemoteAttestation>(
        &self,
        secret: &[u8],
        client_pubkey: &[u8; 32],
        ra: &R,
    ) -> (r: Result<HandoverSecretData, HandoverError>)
        ensures
            served(r, self.config(), secret@, client_pubkey@, ra),
    {
        let dev_mode = self.dev_mode;
        let mut server_secret = match random_bytes::<32>() {
            Ok(secret) => secret,
            Err(_) => {
                return Err(HandoverError::CryptoError);
            },
        };
        let iv = match random_bytes::<12>() {
            Ok(iv) => iv,
            Err(_) => {
                wipe(&mut server_secret);
                return Err(HandoverError::CryptoError);
            },
        };
        let ghost used_secret = server_secret@;
        let sealed = seal_secret(secret, client_pubkey, &mut server_secret, iv, dev_mode);
        let encrypted_data_info = match sealed {
            Ok(envelope) => envelope,
            Err(e) => {
                return Err(e);
            },
        };
        assert(encrypted_data_info@ == sealed_envelope(
            secret@,
            client_pubkey@,
            used_secret,
            encrypted_data_info@.iv,
            dev_mode,
        ));
        assert(sealed_for(encrypted_data_info@, secret@, client_pubkey@, dev_mode));
        let attestation = if !dev_mode {
            let digest = digest_encrypted_data(&encrypted_data_info);
            match ask_attestation(ra, &digest, self.pccs_url.as_str(), self.ra_timeout) {
                Some(report) => Some(report),
                None => {
                    return Err(HandoverError::AttestationTimeout);
                },
            }
        } else {
            None
        };
        Ok(HandoverSecretData { encrypted_data_info, attestation })
    }
}

/// The local report `encoded` is one that `la` may give when asked for a
/// report addressed to `target_info`.
pub open spec fn locally_reported<L: LocalAttestation>(
    la: &L,
    target_info: Seq<u8>,
    encoded: Seq<u8>,
) -> bool {
    exists|report: LocalReport|
        report.encoded@ == encoded && #[trigger] gives_report(
            la,
            target_info,
            blank_report_data(),
            Some(report),
        )
}

/// How an admitted response is served. The result holds the secret, sealed
/// for the client under a fresh key pair of the server. In dev mode it is not
/// attested; else it carries the report that the remote attestation gave
/// over the digest of the encrypted secret, and fails as timed out where it
/// gave none. It fails on a secret that cannot be sealed, and it may fail
/// where the system gives no random bytes.
pub open spec fn served<R: RemoteAttestation>(
    r: Result<HandoverSecretData, HandoverError>,
    config: Config,
    secret: Seq<u8>,
    client_pubkey: Seq<u8>,
    ra: &R,
) -> bool {
    match r {
        Ok(data) => {
            &&& sealable(secret.len())
            &&& sealed_for(data@.encrypted_data_info, secret, client_pubkey, config.dev_mode)
            &&& if config.dev_mode {
                data.attestation is None
            } else {
                data.attestation is Some && attested(
                    ra,
                    config,
                    data@.encrypted_data_info,
                    data@.attestation,
                )
            }
        },
        Err(e) => e == HandoverError::CryptoError || {
            &&& e == HandoverError::AttestationTimeout
            &&& !config.dev_mode
            &&& sealable(secret.len())
            &&& exists|envelope: EncryptedDataView| #[trigger]
                sealed_for(envelope, secret, client_pubkey, config.dev_mode) && attested(
                    ra,
                    config,
                    envelope,
                    None,
                )
        },
    }
}

/// `answer` is what the remote attestation may give when asked, as the
/// engine is configured, for a report over the digest of the client's answer
/// `info`.
pub open spec fn answer_attested<R: RemoteAttestation>(
    ra: &R,
    config: Config,
    info: HandlerInfoView,
    answer: Option<Seq<u8>>,
) -> bool {
    gives_attestation(ra, handler_info_digest(info), config.pccs_url, config.ra_timeout, answer)
}

/// `answer` is what the remote attestation may give when asked, as the
/// engine is configured, for a report over the digest of `envelope`.
pub open spec fn attested<R: RemoteAttestation>(
    ra: &R,
    config: Config,
    envelope: EncryptedDataView,
    answer: Option<Seq<u8>>,
) -> bool {
    gives_attestation(
        ra,
        encrypted_data_digest(envelope),
        config.pccs_url,
        config.ra_timeout,
        answer,
    )
}

} // verus!
