//! Password-based key derivation.
//!
//! A vault key is a pure, deterministic function of the password and the
//! per-vault salt; it is derived afresh on every operation and never stored.

use pbkdf2::pbkdf2_hmac;
use sha2::Sha256;
use vstd::prelude::*;

verus! {

use crate::aead::KEY_LEN;
use vstd::utf8::encode_utf8;

/// The fixed PBKDF2 work factor baked into this version of the core.
pub const PBKDF2_ROUNDS: u32 = 100_000;

/// What PBKDF2-HMAC-SHA-256 returns for the given password, salt, iteration
/// count and output length: a pure function of these arguments alone.
pub uninterp spec fn pbkdf2_hmac_sha256(
    password: Seq<u8>,
    salt: Seq<u8>,
    rounds: u32,
    out_len: usize,
) -> Seq<u8>;

/// Relies on pbkdf2::pbkdf2_hmac with sha2::Sha256: deterministically fills
/// the whole output buffer from (password, salt, rounds); any password and
/// salt are acceptable (HMAC takes keys of any length).
#[verifier::external_body]
fn pbkdf2_derive(password: &[u8], salt: &[u8], rounds: u32, out_len: usize) -> (key: Vec<u8>)
    ensures
        key@ == pbkdf2_hmac_sha256(password@, salt@, rounds, out_len),
        key@.len() == out_len,
{
    let mut buf = vec![0u8; out_len];
    pbkdf2_hmac::<Sha256>(password, salt, rounds, &mut buf);
    buf
}

/// The symmetric key the vault derives from a password and a salt.
pub open spec fn derived_key_of(password: Seq<char>, salt: Seq<u8>) -> Seq<u8> {
    pbkdf2_hmac_sha256(encode_utf8(password), salt, PBKDF2_ROUNDS, KEY_LEN)
}

/// Derive the 32-byte AES-256 key for `password` under `salt`.
pub fn derive_key(password: &str, salt: &[u8]) -> (key: Vec<u8>)
    ensures
        key@ == derived_key_of(password@, salt@),
        key@.len() == KEY_LEN,
{
    pbkdf2_derive(password.as_bytes(), salt, PBKDF2_ROUNDS, KEY_LEN)
}

} // verus!
