//! The cryptographic primitives of a handover: SHA-256, X25519, AES-256-GCM,
//! the system's random source, and wiping of key material.
//!
//! None of these is computed here. Each is a call into a crate that
//! implements it, and what is stated of the call is believed, not proved.

use vstd::prelude::*;
use aes_gcm::aead::Aead;
use aes_gcm::KeyInit;
use sha2::Digest;
use zeroize::Zeroize;
use crate::error::HandoverError;

verus! {

/// The SHA-256 digest of `data`: what `sha2::Sha256::digest` returns.
pub uninterp spec fn sha256_digest(data: Seq<u8>) -> Seq<u8>;

/// The X25519 function of RFC 7748 on a scalar and the u-coordinate of a
/// point: what `x25519_dalek::x25519` returns.
pub uninterp spec fn x25519_product(scalar: Seq<u8>, point: Seq<u8>) -> Seq<u8>;

/// The AES-256-GCM ciphertext of `plaintext` under `key` and `iv`, with no
/// associated data and the 16-byte tag at its end: what
/// `aes_gcm::Aes256Gcm::encrypt` returns where it succeeds.
pub uninterp spec fn aes256_gcm_sealed(key: Seq<u8>, iv: Seq<u8>, plaintext: Seq<u8>) -> Seq<u8>;

/// The error of the `aes_gcm` crate, which says nothing about its cause.
#[verifier::external_type_specification]
#[verifier::external_body]
pub struct ExAeadError(aes_gcm::Error);

/// The error of the `getrandom` crate.
#[verifier::external_type_specification]
#[verifier::external_body]
pub struct ExRandomError(getrandom::Error);

/// Calls `sha2::Sha256::digest`. Believed: the result is the SHA-256 digest of
/// `data`, a function of `data` alone.
#[verifier::external_body]
pub(crate) fn sha256(data: &[u8]) -> (digest: [u8; 32])
    ensures
        digest@ == sha256_digest(data@),
{
    sha2::Sha256::digest(data).into()
}

/// Calls `x25519_dalek::x25519`. Believed: the result is the X25519 function
/// of the two arguments, and depends on nothing else.
#[verifier::external_body]
pub(crate) fn x25519(scalar: &[u8; 32], point: &[u8; 32]) -> (product: [u8; 32])
    ensures
        product@ == x25519_product(scalar@, point@),
{
    x25519_dalek::x25519(*scalar, *point)
}

/// Calls `aes_gcm::Aes256Gcm::encrypt` with an empty associated data.
/// Believed: it fails exactly on a plaintext of more than 2^36 bytes, and its
/// result on success is a function of key, iv and plaintext alone. The
/// `requires` leaves out the lengths on which the buffer for the ciphertext
/// cannot be allocated.
#[verifier::external_body]
pub(crate) fn aes256_gcm_seal(key: &[u8; 32], iv: &[u8; 12], plaintext: &[u8]) -> (r: Result<
    Vec<u8>,
    aes_gcm::Error,
>)
    requires
        plaintext@.len() + 16 <= isize::MAX,
    ensures
        r is Ok <==> plaintext@.len() <= 0x10_0000_0000,
        r matches Ok(sealed) ==> sealed@ == aes256_gcm_sealed(key@, iv@, plaintext@),
{
    let cipher = aes_gcm::Aes256Gcm::new(aes_gcm::Key::<aes_gcm::Aes256Gcm>::from_slice(key));
    cipher.encrypt(aes_gcm::Nonce::from_slice(iv), plaintext)
}

/// Calls `getrandom::getrandom` on a buffer of `N` bytes. Nothing is stated
/// of the bytes: they differ from call to call.
#[verifier::external_body]
pub(crate) fn random_bytes<const N: usize>() -> (r: Result<[u8; N], getrandom::Error>) {
    let mut buffer = [0u8; N];
    match getrandom::getrandom(&mut buffer) {
        Ok(()) => Ok(buffer),
        Err(e) => Err(e),
    }
}

/// A key after it has been wiped: 32 zero bytes.
pub open spec fn wiped_key() -> Seq<u8> {
    Seq::new(32, |i: int| 0u8)
}

/// Calls `zeroize::Zeroize::zeroize` on a key. Believed: every byte is zero
/// afterwards, and the call does not panic.
#[verifier::external_body]
pub(crate) fn wipe(key: &mut [u8; 32])
    ensures
        final(key)@ == wiped_key(),
    opens_invariants none
    no_unwind
{
    key.zeroize()
}

/// The u-coordinate of the X25519 base point: 9, as 32 little-endian bytes.
pub open spec fn x25519_base_point() -> Seq<u8> {
    Seq::new(32, |i: int| if i == 0 { 9u8 } else { 0u8 })
}

/// The public key that belongs to a secret key.
pub open spec fn public_key_of(secret: Seq<u8>) -> Seq<u8> {
    x25519_product(secret, x25519_base_point())
}

/// The key that the holder of `secret` shares with the holder of the secret
/// key behind `peer_public`.
pub open spec fn shared_key(secret: Seq<u8>, peer_public: Seq<u8>) -> Seq<u8> {
    x25519_product(secret, peer_public)
}

/// Whether a key is nothing but zero bytes. Such a key is what the agreement
/// gives on a peer key of small order, whatever the own secret key: it is
/// known to everybody.
pub open spec fn is_blank(key: Seq<u8>) -> bool {
    forall|i: int| 0 <= i < key.len() ==> key[i] == 0
}

/// Derives the public key of an X25519 secret key.
pub fn ecdh_public_key(secret: &[u8; 32]) -> (public: [u8; 32])
    ensures
        public@ == public_key_of(secret@),
{
    let mut base = [0u8; 32];
    base[0] = 9;
    assert(base@ =~= x25519_base_point());
    x25519(secret, &base)
}

/// Derives the key shared with a peer from the own secret key and the peer's
/// public key. It is used as the symmetric key as it stands. A peer key that
/// leads to the blank key is refused as invalid.
pub fn ecdh_agree(secret: &[u8; 32], peer_public: &[u8; 32]) -> (r: Result<
    [u8; 32],
    HandoverError,
>)
    ensures
        match r {
            Ok(shared) => shared@ == shared_key(secret@, peer_public@) && !is_blank(shared@),
            Err(e) => e == HandoverError::CryptoError && is_blank(
                shared_key(secret@, peer_public@),
            ),
        },
{
    let mut shared = x25519(secret, peer_public);
    let mut i: usize = 0;
    while i < 32
        invariant
            i <= 32,
            shared@ == shared_key(secret@, peer_public@),
            forall|j: int| 0 <= j < i ==> shared@[j] == 0,
        decreases 32 - i,
    {
        if shared[i] != 0 {
            return Ok(shared);
        }
        i = i + 1;
    }
    wipe(&mut shared);
    Err(HandoverError::CryptoError)
}

/// Whether a plaintext of `len` bytes can be sealed: AES-GCM takes at most
/// 2^36 bytes, and the ciphertext, 16 bytes longer, must fit in memory.
pub open spec fn sealable(len: nat) -> bool {
    len <= 0x10_0000_0000 && len + 16 <= isize::MAX
}

/// Encrypts `plaintext` with AES-256-GCM under `key` and `iv`.
pub fn aead_encrypt(plaintext: &[u8], key: &[u8; 32], iv: &[u8; 12]) -> (r: Result<
    Vec<u8>,
    HandoverError,
>)
    ensures
        sealable(plaintext@.len()) ==> (r matches Ok(sealed) && sealed@ == aes256_gcm_sealed(
            key@,
            iv@,
            plaintext@,
        )),
        !sealable(plaintext@.len()) ==> r == Err::<Vec<u8>, HandoverError>(
            HandoverError::CryptoError,
        ),
{
    if plaintext.len() > isize::MAX as usize - 16 {
        return Err(HandoverError::CryptoError);
    }
    match aes256_gcm_seal(key, iv, plaintext) {
        Ok(sealed) => Ok(sealed),
        Err(_) => Err(HandoverError::CryptoError),
    }
}

} // verus!
