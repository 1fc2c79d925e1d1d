//! Trusted boundary to the cryptographic crates.
//!
//! Every function here is a thin wrapper from plain byte values to plain
//! byte values around `k256` (ephemeral elliptic-curve Diffie-Hellman with
//! HKDF-SHA-256 key derivation) or `aes_gcm` (AES-256-GCM authenticated
//! encryption). Results that are deterministic functions of the arguments
//! alone are given uninterpreted names, so that callers' contracts can speak
//! of them exactly without restating the algorithms.

use aes_gcm::aead::Aead;
use aes_gcm::aead::generic_array::GenericArray;
use aes_gcm::AeadCore;
use aes_gcm::Aes256Gcm;
use aes_gcm::KeyInit;
use rand_core::OsRng;
use k256::elliptic_curve::sec1::ToEncodedPoint;
use vstd::prelude::*;

verus! {

/// The SEC1 compressed public point of an elliptic-curve secret scalar. A
/// deterministic function of the secret.
pub uninterp spec fn ec_public_of(secret: Seq<u8>) -> Seq<u8>;

/// Whether these bytes deserialize as a valid, non-zero secret scalar —
/// whether `k256::SecretKey::from_slice` succeeds on them. A deterministic
/// function of the bytes.
pub uninterp spec fn is_ec_secret(secret: Seq<u8>) -> bool;

/// Whether these bytes are a valid SEC1 point encoding — whether
/// `k256::PublicKey::from_sec1_bytes` succeeds on them. A deterministic
/// function of the bytes.
pub uninterp spec fn is_ec_public(peer_public: Seq<u8>) -> bool;

/// The 32-byte key that ECDH between `secret` and `peer_public` followed by
/// HKDF-SHA-256 (empty salt and info) derives. A deterministic function of
/// its two arguments.
pub uninterp spec fn derived_key_of(secret: Seq<u8>, peer_public: Seq<u8>) -> Seq<u8>;

/// The AES-256-GCM ciphertext (tag included) of `plaintext` under `key` and
/// `nonce`. A deterministic function of its three arguments.
pub uninterp spec fn sealed_of(key: Seq<u8>, nonce: Seq<u8>, plaintext: Seq<u8>) -> Seq<u8>;

/// What AES-256-GCM decryption makes of `ciphertext` under `key` and
/// `nonce`: the plaintext, or `None` when the authentication tag does not
/// verify.
pub uninterp spec fn opened_of(key: Seq<u8>, nonce: Seq<u8>, ciphertext: Seq<u8>) -> Option<
    Seq<u8>,
>;

/// Relies on `k256::SecretKey::random` and SEC1 compressed point encoding:
/// a fresh scalar is 32 bytes and non-zero, so its canonical encoding parses
/// back as a secret key; the public half is its compressed public point,
/// 33 bytes and a valid SEC1 encoding.
#[verifier::external_body]
pub(crate) fn keypair_generate() -> (r: (Vec<u8>, Vec<u8>))
    ensures
        r.0@.len() == 32,
        r.1@.len() == 33,
        r.1@ == ec_public_of(r.0@),
        is_ec_secret(r.0@),
        is_ec_public(r.1@),
{
    let secret = k256::SecretKey::random(&mut OsRng);
    let public = secret.public_key().to_encoded_point(true);
    (secret.to_bytes().to_vec(), public.as_bytes().to_vec())
}

/// Relies on `k256::PublicKey::from_sec1_bytes`, `k256::ecdh::diffie_hellman`
/// and `SharedSecret::extract::<Sha256>` / `Hkdf::expand`: the derived key is
/// 32 bytes and a function of the two inputs alone; `None` exactly when the
/// secret is not a valid scalar or the peer key not a valid point, since
/// HKDF expansion to 32 bytes (far under its 255-blocks limit) cannot fail.
/// The last clause is the point of Diffie-Hellman, as the `ecdh` module
/// documents it: against a peer's public point, both parties compute the
/// same shared secret, so they derive the same key.
#[verifier::external_body]
pub(crate) fn ecdh_derive(secret: &[u8], peer_public: &[u8]) -> (r: Option<Vec<u8>>)
    ensures
        match r {
            Some(k) => {
                &&& is_ec_secret(secret@) && is_ec_public(peer_public@)
                &&& k@ == derived_key_of(secret@, peer_public@)
                &&& k@.len() == 32
                &&& forall|other: Seq<u8>|
                    peer_public@ == ec_public_of(other) ==> k@ == derived_key_of(
                        other,
                        ec_public_of(secret@),
                    )
            },
            None => !(is_ec_secret(secret@) && is_ec_public(peer_public@)),
        },
{
    let sk = match k256::SecretKey::from_slice(secret) {
        Ok(v) => v,
        Err(_) => return None,
    };
    let pk = match k256::PublicKey::from_sec1_bytes(peer_public) {
        Ok(v) => v,
        Err(_) => return None,
    };
    let shared = k256::ecdh::diffie_hellman(sk.to_nonzero_scalar(), pk.as_affine());
    let hk = shared.extract::<sha2::Sha256>(None);
    let mut key = [0u8; 32];
    match hk.expand(&[], &mut key) {
        Ok(()) => Some(key.to_vec()),
        Err(_) => None,
    }
}

/// Relies on `Aes256Gcm::generate_nonce` with the operating system's RNG.
#[verifier::external_body]
pub(crate) fn generate_nonce() -> (r: Vec<u8>)
    ensures
        r@.len() == 12,
{
    Aes256Gcm::generate_nonce(&mut OsRng).to_vec()
}

/// Relies on `Aes256Gcm` encryption: it fails exactly on a plaintext past
/// GCM's limit of 2^36 bytes (the associated data here is empty); the
/// ciphertext is the plaintext's length plus the 16-byte tag, and
/// decrypting it under the same key and nonce gives the plaintext back.
#[verifier::external_body]
pub(crate) fn aead_seal(key: &[u8], nonce: &[u8], plaintext: &[u8]) -> (r: Option<Vec<u8>>)
    requires
        key@.len() == 32,
        nonce@.len() == 12,
    ensures
        match r {
            Some(ct) => {
                &&& plaintext@.len() <= 0x1000000000
                &&& ct@ == sealed_of(key@, nonce@, plaintext@)
                &&& ct@.len() == plaintext@.len() + 16
                &&& opened_of(key@, nonce@, ct@) == Some(plaintext@)
            },
            None => plaintext@.len() > 0x1000000000,
        },
{
    let cipher = Aes256Gcm::new(GenericArray::from_slice(key));
    match cipher.encrypt(GenericArray::from_slice(nonce), plaintext) {
        Ok(ct) => Some(ct),
        Err(_) => None,
    }
}

/// Relies on `Aes256Gcm` decryption: authentication failure yields `None`
/// and never any plaintext.
#[verifier::external_body]
pub(crate) fn aead_open(key: &[u8], nonce: &[u8], ciphertext: &[u8]) -> (r: Option<Vec<u8>>)
    requires
        key@.len() == 32,
        nonce@.len() == 12,
    ensures
        match r {
            Some(pt) => opened_of(key@, nonce@, ciphertext@) == Some(pt@) && pt@.len() + 16
                == ciphertext@.len(),
            None => opened_of(key@, nonce@, ciphertext@) is None,
        },
{
    let cipher = Aes256Gcm::new(GenericArray::from_slice(key));
    match cipher.decrypt(GenericArray::from_slice(nonce), ciphertext) {
        Ok(pt) => Some(pt),
        Err(_) => None,
    }
}

} // verus!
