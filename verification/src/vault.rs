//! The vault operations: setup, verify, encrypt, decrypt, change password.
//!
//! Every operation is stateless: it re-derives the key from the password
//! and the persisted salt, transforms its input, and returns the result.
//! Nothing secret is ever kept between calls.

use vstd::prelude::*;

verus! {

use crate::aead::{NONCE_LEN, TAG_LEN};
use crate::blob::{is_sealing_of, open_blob, opened_blob_of, seal_blob, MAX_PLAINTEXT_BYTES};
use crate::kdf::{derive_key, derived_key_of};
use crate::meta::{
    build_meta,
    lemma_b64_text_is_field_text,
    lemma_meta_fields_canonical,
    meta_fields_of,
    meta_salt_of,
    parse_meta,
    parse_salt,
};
use crate::rng::os_random_bytes;
use crate::textcodec::{b64_decode, b64_decoding, b64_encode, bytes_to_string, is_b64_text};
use crate::VaultError;
use vstd::pervasive::unreached;
use vstd::utf8::{
    decode_utf8,
    decode_utf8_encode_utf8,
    encode_utf8,
    encode_utf8_decode_utf8,
    encode_utf8_valid_utf8,
    is_ascii_chars,
    is_ascii_chars_encode_utf8,
    valid_utf8,
};

/// Length in bytes of a per-vault salt.
pub const SALT_LEN: usize = 16;

/// The fixed sentinel: the text whose successful decryption under a
/// password's key proves that password, without the password (or any hash
/// of it) ever being stored.
pub open spec fn sentinel_chars() -> Seq<char> {
    "stash-vault-ok"@
}

/// The sentinel as an executable string.
pub fn sentinel_text() -> (s: &'static str)
    ensures
        s@ == sentinel_chars(),
{
    "stash-vault-ok"
}

/// The payload a never-written vault migrates: the empty-list text.
pub open spec fn empty_payload_chars() -> Seq<char> {
    "[]"@
}

/// What decrypting the blob `ct_b64` with `password` under the salt text
/// `salt_b64` yields: the plaintext, or the error naming the first check
/// that failed.
pub open spec fn decrypt_inner_of(
    password: Seq<char>,
    salt_b64: Seq<char>,
    ct_b64: Seq<char>,
) -> Result<Seq<char>, VaultError> {
    match b64_decoding(salt_b64) {
        Option::None => Result::Err(VaultError::InputError),
        Option::Some(salt) => match opened_blob_of(derived_key_of(password, salt), ct_b64) {
            Result::Err(e) => Result::Err(e),
            Result::Ok(pt) => if valid_utf8(pt) {
                Result::Ok(decode_utf8(pt))
            } else {
                Result::Err(VaultError::EncodingError)
            },
        },
    }
}

/// Whether `password` is the password of the vault that `meta` anchors:
/// true exactly when the sentinel blob decrypts to the sentinel text.
pub open spec fn verify_of(password: Seq<char>, meta: Seq<char>) -> bool {
    match meta_fields_of(meta) {
        Option::None => false,
        Option::Some(f) => decrypt_inner_of(password, f.0, f.1) == Result::<
            Seq<char>,
            VaultError,
        >::Ok(sentinel_chars()),
    }
}

/// What decrypting `ct` with `password` under metadata `meta` yields.
/// Only the salt field is needed; a metadata object without a sentinel
/// still decrypts.
pub open spec fn vault_decrypt_of(password: Seq<char>, meta: Seq<char>, ct: Seq<char>) -> Result<
    Seq<char>,
    VaultError,
> {
    match meta_salt_of(meta) {
        Option::None => Result::Err(VaultError::InputError),
        Option::Some(salt_b64) => decrypt_inner_of(password, salt_b64, ct),
    }
}

/// The payload that a password change carries over: the empty-list text for
/// a never-written vault, otherwise whatever the old password decrypts.
pub open spec fn migrated_payload_of(
    old_password: Seq<char>,
    meta: Seq<char>,
    ct: Seq<char>,
) -> Result<Seq<char>, VaultError> {
    if ct.len() == 0 {
        Result::Ok(empty_payload_chars())
    } else {
        vault_decrypt_of(old_password, meta, ct)
    }
}

/// Encrypt `plaintext` with the key derived from `password` and the salt
/// text `salt_b64`, under a fresh random nonce. Succeeds exactly when the
/// salt text is valid base64, and the blob it returns decrypts back to
/// `plaintext` under the same password and salt.
pub fn vault_encrypt_inner(password: &str, salt_b64: &str, plaintext: &str) -> (r: Result<
    String,
    VaultError,
>)
    requires
        encode_utf8(plaintext@).len() <= MAX_PLAINTEXT_BYTES,
    ensures
        r is Ok <==> b64_decoding(salt_b64@) is Some,
        r matches Err(e) ==> e == VaultError::InputError,
        r matches Ok(c) ==> (b64_decoding(salt_b64@) matches Some(salt) ==> (is_sealing_of(
            derived_key_of(password@, salt),
            encode_utf8(plaintext@),
            c@,
        ) && decrypt_inner_of(password@, salt_b64@, c@) == Result::<Seq<char>, VaultError>::Ok(
            plaintext@,
        ) && is_b64_text(c@))),
        r matches Ok(c) ==> (b64_decoding(c@) matches Some(raw) && raw.len() == NONCE_LEN
            + encode_utf8(plaintext@).len() + TAG_LEN && c@.len() == (encode_utf8(plaintext@).len()
            + NONCE_LEN + TAG_LEN + 2) / 3 * 4),
{
    let salt = match b64_decode(salt_b64) {
        Option::Some(s) => s,
        Option::None => {
            return Result::Err(VaultError::InputError);
        },
    };
    let key = derive_key(password, salt.as_slice());
    let blob = seal_blob(key.as_slice(), plaintext.as_bytes());
    proof {
        encode_utf8_valid_utf8(plaintext@);
        encode_utf8_decode_utf8(plaintext@);
    }
    Result::Ok(blob)
}

/// Decrypt the blob `ciphertext_b64` with the key derived from `password`
/// and the salt text `salt_b64`, and decode the result as UTF-8 text.
pub fn vault_decrypt_inner(password: &str, salt_b64: &str, ciphertext_b64: &str) -> (r: Result<
    String,
    VaultError,
>)
    ensures
        match r {
            Result::Ok(s) => decrypt_inner_of(password@, salt_b64@, ciphertext_b64@) == Result::<
                Seq<char>,
                VaultError,
            >::Ok(s@) && encode_utf8(s@).len() + NONCE_LEN + TAG_LEN <= ciphertext_b64@.len(),
            Result::Err(e) => decrypt_inner_of(password@, salt_b64@, ciphertext_b64@) == Result::<
                Seq<char>,
                VaultError,
            >::Err(e),
        },
{
    let salt = match b64_decode(salt_b64) {
        Option::Some(s) => s,
        Option::None => {
            return Result::Err(VaultError::InputError);
        },
    };
    let key = derive_key(password, salt.as_slice());
    let pt = match open_blob(key.as_slice(), ciphertext_b64) {
        Result::Ok(p) => p,
        Result::Err(e) => {
            return Result::Err(e);
        },
    };
    let ghost ptv = pt@;
    match bytes_to_string(pt) {
        Option::Some(s) => {
            proof {
                decode_utf8_encode_utf8(ptv);
            }
            Result::Ok(s)
        },
        Option::None => Result::Err(VaultError::EncodingError),
    }
}

/// Set up a fresh vault for `password`: generate a random 16-byte salt,
/// encrypt the sentinel under the derived key, and return the metadata that
/// anchors the vault. The password itself is not stored in any form, yet
/// the returned metadata verifies against it.
pub fn vault_setup(password: &str) -> (meta: String)
    ensures
        verify_of(password@, meta@),
        (meta_fields_of(meta@) matches Some(f) && b64_decoding(f.0) matches Some(salt)
            && salt.len() == SALT_LEN && is_sealing_of(
            derived_key_of(password@, salt),
            encode_utf8(sentinel_chars()),
            f.1,
        )),
{
    let salt = os_random_bytes(SALT_LEN);
    let salt_b64 = b64_encode(salt.as_slice());
    proof {
        reveal_strlit("stash-vault-ok");
        assert(is_ascii_chars(sentinel_chars()));
        is_ascii_chars_encode_utf8(sentinel_chars());
    }
    let sentinel_blob = match vault_encrypt_inner(password, salt_b64.as_str(), sentinel_text()) {
        Result::Ok(c) => c,
        Result::Err(_) => unreached(),
    };
    let meta = build_meta(salt_b64.as_str(), sentinel_blob.as_str());
    proof {
        lemma_b64_text_is_field_text(salt_b64@);
        lemma_b64_text_is_field_text(sentinel_blob@);
        lemma_meta_fields_canonical(salt_b64@, sentinel_blob@);
    }
    meta
}

/// Check `password` against the persisted metadata. Collapses every
/// failure, from malformed metadata to a wrong password, into `false`.
pub fn vault_verify(password: &str, meta: &str) -> (ok: bool)
    ensures
        ok == verify_of(password@, meta@),
{
    let f = match parse_meta(meta) {
        Result::Ok(f) => f,
        Result::Err(_) => {
            return false;
        },
    };
    match vault_decrypt_inner(password, f.0.as_str(), f.1.as_str()) {
        Result::Ok(s) => {
            let sentinel = sentinel_text().to_owned();
            s == sentinel
        },
        Result::Err(_) => false,
    }
}

/// Encrypt `plaintext` under `password` with the salt taken from the
/// persisted metadata.
pub fn vault_encrypt(password: &str, meta: &str, plaintext: &str) -> (r: Result<
    String,
    VaultError,
>)
    requires
        encode_utf8(plaintext@).len() <= MAX_PLAINTEXT_BYTES,
    ensures
        meta_salt_of(meta@) is None ==> (r matches Err(e) && e == VaultError::InputError),
        r matches Err(e) ==> e == VaultError::InputError,
        (meta_salt_of(meta@) matches Some(sb) ==> (r is Ok <==> b64_decoding(sb) is Some)),
        r matches Ok(c) ==> (vault_decrypt_of(password@, meta@, c@) == Result::<
            Seq<char>,
            VaultError,
        >::Ok(plaintext@) && is_b64_text(c@) && c@.len() == (encode_utf8(plaintext@).len()
            + NONCE_LEN + TAG_LEN + 2) / 3 * 4),
{
    let salt_b64 = match parse_salt(meta) {
        Result::Ok(s) => s,
        Result::Err(e) => {
            return Result::Err(e);
        },
    };
    vault_encrypt_inner(password, salt_b64.as_str(), plaintext)
}

/// Decrypt `ciphertext` under `password` with the salt taken from the
/// persisted metadata. A wrong password reads as an authentication
/// failure, indistinguishable from corrupted data.
pub fn vault_decrypt(password: &str, meta: &str, ciphertext: &str) -> (r: Result<
    String,
    VaultError,
>)
    ensures
        match r {
            Result::Ok(s) => vault_decrypt_of(password@, meta@, ciphertext@) == Result::<
                Seq<char>,
                VaultError,
            >::Ok(s@) && encode_utf8(s@).len() + NONCE_LEN + TAG_LEN <= ciphertext@.len(),
            Result::Err(e) => vault_decrypt_of(password@, meta@, ciphertext@) == Result::<
                Seq<char>,
                VaultError,
            >::Err(e),
        },
{
    let salt_b64 = match parse_salt(meta) {
        Result::Ok(s) => s,
        Result::Err(e) => {
            return Result::Err(e);
        },
    };
    vault_decrypt_inner(password, salt_b64.as_str(), ciphertext)
}

/// Change the vault password: verify the old password against the
/// sentinel, recover the current payload (the empty-list text for a vault
/// never written), then re-encrypt sentinel and payload under a brand-new
/// salt and the new password. The new metadata and ciphertext are returned
/// as one unit and must be persisted together; on any error nothing new is
/// produced at all.
pub fn vault_change_password(
    old_password: &str,
    new_password: &str,
    meta: &str,
    ciphertext: &str,
) -> (r: Result<(String, String), VaultError>)
    requires
        ciphertext@.len() <= MAX_PLAINTEXT_BYTES,
    ensures
        meta_fields_of(meta@) is None ==> (r matches Err(e) && e == VaultError::InputError),
        (meta_fields_of(meta@) is Some && !verify_of(old_password@, meta@)) ==> (r matches Err(e)
            && e == VaultError::InvalidPassword),
        (verify_of(old_password@, meta@) && ciphertext@.len() == 0) ==> r is Ok,
        (verify_of(old_password@, meta@) && ciphertext@.len() != 0) ==> ((r is Ok
            <==> vault_decrypt_of(old_password@, meta@, ciphertext@) is Ok) && (r matches Err(e)
            ==> vault_decrypt_of(old_password@, meta@, ciphertext@) == Result::<
            Seq<char>,
            VaultError,
        >::Err(e))),
        r matches Ok(out) ==> (verify_of(new_password@, out.0@) && (migrated_payload_of(
            old_password@,
            meta@,
            ciphertext@,
        ) matches Ok(payload) && vault_decrypt_of(new_password@, out.0@, out.1@) == Result::<
            Seq<char>,
            VaultError,
        >::Ok(payload))),
{
    let f = match parse_meta(meta) {
        Result::Ok(f) => f,
        Result::Err(e) => {
            return Result::Err(e);
        },
    };
    let old_salt_b64 = f.0;
    let sentinel_b64 = f.1;
    let password_ok = match vault_decrypt_inner(old_password, old_salt_b64.as_str(),
        sentinel_b64.as_str()) {
        Result::Ok(s) => {
            let sentinel = sentinel_text().to_owned();
            s == sentinel
        },
        Result::Err(_) => false,
    };
    if !password_ok {
        return Result::Err(VaultError::InvalidPassword);
    }
    let payload: String = if ciphertext.is_empty() {
        "[]".to_owned()
    } else {
        match vault_decrypt_inner(old_password, old_salt_b64.as_str(), ciphertext) {
            Result::Ok(s) => s,
            Result::Err(e) => {
                return Result::Err(e);
            },
        }
    };
    proof {
        reveal_strlit("[]");
        assert(is_ascii_chars(empty_payload_chars()));
        is_ascii_chars_encode_utf8(empty_payload_chars());
        reveal_strlit("stash-vault-ok");
        assert(is_ascii_chars(sentinel_chars()));
        is_ascii_chars_encode_utf8(sentinel_chars());
    }
    let new_salt = os_random_bytes(SALT_LEN);
    let new_salt_b64 = b64_encode(new_salt.as_slice());
    let new_sentinel = match vault_encrypt_inner(new_password, new_salt_b64.as_str(),
        sentinel_text()) {
        Result::Ok(c) => c,
        Result::Err(_) => unreached(),
    };
    let new_meta = build_meta(new_salt_b64.as_str(), new_sentinel.as_str());
    let new_ciphertext = match vault_encrypt_inner(new_password, new_salt_b64.as_str(),
        payload.as_str()) {
        Result::Ok(c) => c,
        Result::Err(_) => unreached(),
    };
    proof {
        lemma_b64_text_is_field_text(new_salt_b64@);
        lemma_b64_text_is_field_text(new_sentinel@);
        lemma_meta_fields_canonical(new_salt_b64@, new_sentinel@);
    }
    Result::Ok((new_meta, new_ciphertext))
}

} // verus!
