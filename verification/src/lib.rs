//! Password-based vault encryption core.
//!
//! Derives a symmetric key from a user password, authenticates the password
//! without ever persisting it, and encrypts/decrypts an opaque payload so
//! that the password can be changed without losing data.

use vstd::prelude::*;

pub mod aead;
pub mod blob;
pub mod kdf;
pub mod meta;
pub mod rng;
pub mod textcodec;
pub mod vault;

verus! {

/// The error kinds a vault operation can surface.
#[derive(Clone, Copy, Debug, PartialEq, Eq, Structural)]
pub enum VaultError {
    /// Malformed base64, malformed metadata, or a blob shorter than a nonce.
    InputError,
    /// Authentication-tag verification failed: wrong password or tampered data.
    AuthFailure,
    /// Decrypted bytes are not valid UTF-8 text.
    EncodingError,
    /// The explicit old-password check of a password change failed.
    InvalidPassword,
}

impl VaultError {
    /// A human-readable description of the error.
    pub fn message(&self) -> (r: &'static str)
        ensures
            self is InputError ==> r@ == "Invalid input"@,
            self is AuthFailure ==> r@ == "Decryption failed: wrong password or corrupted data"@,
            self is EncodingError ==> r@ == "Decrypted data is not valid UTF-8"@,
            self is InvalidPassword ==> r@ == "Invalid old password"@,
    {
        match self {
            VaultError::InputError => "Invalid input",
            VaultError::AuthFailure => "Decryption failed: wrong password or corrupted data",
            VaultError::EncodingError => "Decrypted data is not valid UTF-8",
            VaultError::InvalidPassword => "Invalid old password",
        }
    }
}

} // verus!
