//! Authenticated encryption with AES-256-GCM.

use aes_gcm::aead::{Aead, KeyInit};
use aes_gcm::{Aes256Gcm, Key, Nonce};
use vstd::prelude::*;

verus! {

/// Length in bytes of an AES-256 key.
pub const KEY_LEN: usize = 32;

/// Length in bytes of a GCM nonce.
pub const NONCE_LEN: usize = 12;

/// Length in bytes of a GCM authentication tag.
pub const TAG_LEN: usize = 16;

/// AES-GCM refuses plaintexts longer than this many bytes.
pub const GCM_MAX_PLAINTEXT_BYTES: u64 = 0x10_0000_0000;

/// What AES-256-GCM encryption returns for (key, nonce, plaintext): the
/// ciphertext with the 16-byte authentication tag appended; a pure function
/// of these arguments alone.
pub uninterp spec fn aes256_gcm_seal(key: Seq<u8>, nonce: Seq<u8>, plaintext: Seq<u8>) -> Seq<u8>;

/// What AES-256-GCM decryption returns for (key, nonce, sealed): the
/// plaintext when the authentication tag verifies, nothing otherwise; a pure
/// function of these arguments alone.
pub uninterp spec fn aes256_gcm_open(key: Seq<u8>, nonce: Seq<u8>, sealed: Seq<u8>) -> Option<
    Seq<u8>,
>;

/// Relies on aes_gcm::Aes256Gcm through aead::Aead::encrypt: the result is
/// the ciphertext, as long as the plaintext, followed by the 16-byte tag,
/// and decrypting it under the same key and nonce gives the plaintext back.
/// The key and nonce lengths are the ones the algorithm fixes; encryption
/// accepts any plaintext up to GCM_MAX_PLAINTEXT_BYTES and fails on nothing
/// else.
#[verifier::external_body]
pub(crate) fn gcm_seal(key: &[u8], nonce: &[u8], plaintext: &[u8]) -> (sealed: Vec<u8>)
    requires
        key@.len() == KEY_LEN,
        nonce@.len() == NONCE_LEN,
        plaintext@.len() <= GCM_MAX_PLAINTEXT_BYTES,
    ensures
        sealed@ == aes256_gcm_seal(key@, nonce@, plaintext@),
        sealed@.len() == plaintext@.len() + TAG_LEN,
        aes256_gcm_open(key@, nonce@, sealed@) == Some(plaintext@),
{
    let cipher = Aes256Gcm::new(Key::<Aes256Gcm>::from_slice(key));
    cipher.encrypt(Nonce::from_slice(nonce), plaintext).unwrap()
}

/// Relies on aes_gcm::Aes256Gcm through aead::Aead::decrypt: strips the
/// 16-byte tag and returns the plaintext exactly when the tag verifies.
#[verifier::external_body]
pub(crate) fn gcm_open(key: &[u8], nonce: &[u8], sealed: &[u8]) -> (plaintext: Option<Vec<u8>>)
    requires
        key@.len() == KEY_LEN,
        nonce@.len() == NONCE_LEN,
    ensures
        match plaintext {
            Some(p) => aes256_gcm_open(key@, nonce@, sealed@) == Some(p@) && p@.len() + TAG_LEN
                == sealed@.len(),
            None => aes256_gcm_open(key@, nonce@, sealed@) is None,
        },
{
    let cipher = Aes256Gcm::new(Key::<Aes256Gcm>::from_slice(key));
    cipher.decrypt(Nonce::from_slice(nonce), sealed).ok()
}

} // verus!
