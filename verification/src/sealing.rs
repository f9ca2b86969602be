//! What the attestations bind, and how the secret is sealed for the client.

use vstd::prelude::*;
use crate::crypto::{
    aead_encrypt, aes256_gcm_sealed, ecdh_agree, ecdh_public_key, is_blank, public_key_of,
    sealable, sha256, sha256_digest, shared_key, wipe, wiped_key,
};
use crate::error::HandoverError;
use crate::message::{ChallengeHandlerInfo, EncryptedDataInfo, EncryptedDataView, HandlerInfoView};
use crate::wire::encode::{encode_encrypted_data, encode_handler_info};
use crate::wire::format::{encrypted_data_wire, handler_info_wire};

verus! {

/// The digest that the client's remote attestation binds: SHA-256 over the
/// encoding of its whole answer, the challenge and the public key included.
pub open spec fn handler_info_digest(h: HandlerInfoView) -> Seq<u8> {
    sha256_digest(handler_info_wire(h))
}

/// The digest that the server's remote attestation binds: SHA-256 over the
/// encoding of the encrypted secret.
pub open spec fn encrypted_data_digest(e: EncryptedDataView) -> Seq<u8> {
    sha256_digest(encrypted_data_wire(e))
}

/// Computes the digest over a client's answer. Client and server both take it
/// from here, the one before it attests, the other before it verifies.
pub fn digest_handler_info(h: &ChallengeHandlerInfo) -> (digest: [u8; 32])
    ensures
        digest@ == handler_info_digest(h@),
{
    let bytes = encode_handler_info(h);
    sha256(bytes.as_slice())
}

/// Computes the digest over an encrypted secret.
pub fn digest_encrypted_data(e: &EncryptedDataInfo) -> (digest: [u8; 32])
    ensures
        digest@ == encrypted_data_digest(e@),
{
    let bytes = encode_encrypted_data(e);
    sha256(bytes.as_slice())
}

/// Whether a secret can be sealed for a client under a secret key of the
/// server: the secret is not too long for the cipher, and the two keys agree
/// on a key that is not blank.
pub open spec fn can_seal(secret: Seq<u8>, client_pubkey: Seq<u8>, server_secret: Seq<u8>) -> bool {
    sealable(secret.len()) && !is_blank(shared_key(server_secret, client_pubkey))
}

/// The encrypted secret that a server with the ephemeral secret key
/// `server_secret` makes for the client with the public key `client_pubkey`.
/// It carries the server's public key, with which the client derives the key
/// that both share.
pub open spec fn sealed_envelope(
    secret: Seq<u8>,
    client_pubkey: Seq<u8>,
    server_secret: Seq<u8>,
    iv: Seq<u8>,
    dev_mode: bool,
) -> EncryptedDataView {
    EncryptedDataView {
        ecdh_pubkey: public_key_of(server_secret),
        encrypted_data: aes256_gcm_sealed(shared_key(server_secret, client_pubkey), iv, secret),
        iv,
        dev_mode,
    }
}

/// Whether `envelope` holds `secret`, sealed for the client with the public
/// key `client_pubkey` under some ephemeral secret key of the server.
pub open spec fn sealed_for(
    envelope: EncryptedDataView,
    secret: Seq<u8>,
    client_pubkey: Seq<u8>,
    dev_mode: bool,
) -> bool {
    exists|server_secret: Seq<u8>|
        can_seal(secret, client_pubkey, server_secret) && envelope == #[trigger] sealed_envelope(
            secret,
            client_pubkey,
            server_secret,
            envelope.iv,
            dev_mode,
        )
}

/// Seals the secret for a client and spends the server's ephemeral secret
/// key on it: agrees on a key with the client's public key, encrypts under
/// it, and wipes both the agreed key and the secret key. Where the secret
/// cannot be sealed, the secret key is wiped all the same.
pub fn seal_secret(
    secret: &[u8],
    client_pubkey: &[u8; 32],
    server_secret: &mut [u8; 32],
    iv: [u8; 12],
    dev_mode: bool,
) -> (r: Result<EncryptedDataInfo, HandoverError>)
    ensures
        final(server_secret)@ == wiped_key(),
        match r {
            Ok(envelope) => {
                &&& can_seal(secret@, client_pubkey@, old(server_secret)@)
                &&& envelope@ == sealed_envelope(
                    secret@,
                    client_pubkey@,
                    old(server_secret)@,
                    iv@,
                    dev_mode,
                )
            },
            Err(e) => {
                &&& !can_seal(secret@, client_pubkey@, old(server_secret)@)
                &&& e == HandoverError::CryptoError
            },
        },
{
    let ecdh_pubkey = ecdh_public_key(server_secret);
    let agreed = ecdh_agree(server_secret, client_pubkey);
    wipe(server_secret);
    let mut key = match agreed {
        Ok(key) => key,
        Err(e) => {
            return Err(e);
        },
    };
    let sealed = aead_encrypt(secret, &key, &iv);
    wipe(&mut key);
    match sealed {
        Ok(encrypted_data) => Ok(EncryptedDataInfo { ecdh_pubkey, encrypted_data, iv, dev_mode }),
        Err(e) => Err(e),
    }
}

} // verus!
