//! End-to-end tests of the vault core against the real crypto crates.

use base64::prelude::BASE64_STANDARD;
use base64::Engine;
use stash_vault::blob::seal_blob;
use stash_vault::kdf::derive_key;
use stash_vault::vault::{
    vault_change_password, vault_decrypt, vault_encrypt, vault_setup, vault_verify,
};
use stash_vault::VaultError;

#[test]
fn roundtrip_simple() {
    let meta = vault_setup("hunter2");
    let ct = vault_encrypt("hunter2", &meta, "[]").unwrap();
    let pt = vault_decrypt("hunter2", &meta, &ct).unwrap();
    assert_eq!(pt, "[]");
}

#[test]
fn roundtrip_empty_plaintext() {
    let meta = vault_setup("hunter2");
    let ct = vault_encrypt("hunter2", &meta, "").unwrap();
    let pt = vault_decrypt("hunter2", &meta, &ct).unwrap();
    assert_eq!(pt, "");
}

#[test]
fn roundtrip_non_ascii() {
    let meta = vault_setup("pässwörd");
    let text = "bücher: 本の栞 — ❤";
    let ct = vault_encrypt("pässwörd", &meta, text).unwrap();
    let pt = vault_decrypt("pässwörd", &meta, &ct).unwrap();
    assert_eq!(pt, text);
}

#[test]
fn roundtrip_empty_password() {
    let meta = vault_setup("");
    let ct = vault_encrypt("", &meta, "data").unwrap();
    let pt = vault_decrypt("", &meta, &ct).unwrap();
    assert_eq!(pt, "data");
}

#[test]
fn wrong_password_fails_auth() {
    let meta = vault_setup("hunter2");
    let ct = vault_encrypt("hunter2", &meta, "[]").unwrap();
    let r = vault_decrypt("wrong", &meta, &ct);
    assert_eq!(r, Err(VaultError::AuthFailure));
}

#[test]
fn verify_right_and_wrong_password() {
    let meta = vault_setup("hunter2");
    assert!(vault_verify("hunter2", &meta));
    assert!(!vault_verify("letmein", &meta));
}

#[test]
fn verify_malformed_meta_is_false() {
    assert!(!vault_verify("hunter2", "not json at all"));
    assert!(!vault_verify("hunter2", "{\"salt\":\"AAAA\"}"));
    assert!(!vault_verify("hunter2", ""));
}

#[test]
fn two_encryptions_differ() {
    let meta = vault_setup("hunter2");
    let c1 = vault_encrypt("hunter2", &meta, "same text").unwrap();
    let c2 = vault_encrypt("hunter2", &meta, "same text").unwrap();
    assert_ne!(c1, c2);
}

#[test]
fn two_setups_differ() {
    let m1 = vault_setup("hunter2");
    let m2 = vault_setup("hunter2");
    assert_ne!(m1, m2);
}

#[test]
fn bit_flip_fails_auth() {
    let meta = vault_setup("hunter2");
    let ct = vault_encrypt("hunter2", &meta, "[]").unwrap();
    let raw = BASE64_STANDARD.decode(&ct).unwrap();
    // nonce (12) ‖ ciphertext (2) ‖ tag (16)
    assert_eq!(raw.len(), 30);
    for &pos in &[12usize, 13, 29] {
        let mut bad = raw.clone();
        bad[pos] ^= 0x01;
        let bad_b64 = BASE64_STANDARD.encode(&bad);
        let r = vault_decrypt("hunter2", &meta, &bad_b64);
        assert_eq!(r, Err(VaultError::AuthFailure), "flipped byte {pos}");
    }
}

#[test]
fn blob_shape_after_decode() {
    let meta = vault_setup("hunter2");
    let ct = vault_encrypt("hunter2", &meta, "abc").unwrap();
    let raw = BASE64_STANDARD.decode(&ct).unwrap();
    assert_eq!(raw.len(), 12 + 3 + 16);
}

#[test]
fn meta_salt_is_base64_of_16_bytes() {
    let meta = vault_setup("hunter2");
    let v: Vec<&str> = meta.splitn(2, "\"salt\":\"").collect();
    let salt_b64: &str = v[1].split('"').next().unwrap();
    let salt = BASE64_STANDARD.decode(salt_b64).unwrap();
    assert_eq!(salt.len(), 16);
}

#[test]
fn derived_key_depends_on_salt() {
    let k1 = derive_key("hunter2", &[0u8; 16]);
    let k2 = derive_key("hunter2", &[1u8; 16]);
    assert_eq!(k1.len(), 32);
    assert_eq!(k2.len(), 32);
    assert_ne!(k1, k2);
    assert_ne!(&k1[..], "hunter2".as_bytes());
    let k1_again = derive_key("hunter2", &[0u8; 16]);
    assert_eq!(k1, k1_again);
}

#[test]
fn different_vault_same_password_fails() {
    let m1 = vault_setup("hunter2");
    let m2 = vault_setup("hunter2");
    let ct = vault_encrypt("hunter2", &m1, "data").unwrap();
    assert_eq!(vault_decrypt("hunter2", &m2, &ct), Err(VaultError::AuthFailure));
}

#[test]
fn tampered_sentinel_fails_verify() {
    let meta = vault_setup("hunter2");
    let (salt_b64, sentinel_b64) = stash_vault::meta::parse_meta(&meta).unwrap();
    let mut raw = BASE64_STANDARD.decode(&sentinel_b64).unwrap();
    let last = raw.len() - 1;
    raw[last] ^= 0x80;
    let tampered = stash_vault::meta::build_meta(&salt_b64, &BASE64_STANDARD.encode(&raw));
    assert!(!vault_verify("hunter2", &tampered));
}

#[test]
fn change_password_roundtrip() {
    let m1 = vault_setup("old");
    let c1 = vault_encrypt("old", &m1, "[]").unwrap();
    let (m2, c2) = vault_change_password("old", "new", &m1, &c1).unwrap();
    assert_eq!(vault_decrypt("new", &m2, &c2).unwrap(), "[]");
    assert!(vault_decrypt("old", &m2, &c2).is_err());
    assert!(vault_verify("new", &m2));
    assert!(!vault_verify("old", &m2));
}

#[test]
fn change_password_wrong_old_password() {
    let m1 = vault_setup("hunter2");
    let c1 = vault_encrypt("hunter2", &m1, "[]").unwrap();
    let r = vault_change_password("wrong", "newpass", &m1, &c1);
    assert_eq!(r, Err(VaultError::InvalidPassword));
}

#[test]
fn change_password_empty_ciphertext() {
    let m = vault_setup("hunter2");
    let (m2, c2) = vault_change_password("hunter2", "newpass", &m, "").unwrap();
    assert_eq!(vault_decrypt("newpass", &m2, &c2).unwrap(), "[]");
}

#[test]
fn scenario_hunter2() {
    let meta = vault_setup("hunter2");
    let ct = vault_encrypt("hunter2", &meta, "[]").unwrap();
    assert_eq!(vault_decrypt("hunter2", &meta, &ct).unwrap(), "[]");
    assert_eq!(vault_decrypt("wrong", &meta, &ct), Err(VaultError::AuthFailure));
}

#[test]
fn salt_only_meta_encrypts_and_decrypts() {
    let meta = "{\"salt\":\"AA==\"}";
    let ct = vault_encrypt("pw", meta, "hi").unwrap();
    assert_eq!(vault_decrypt("pw", meta, &ct).unwrap(), "hi");
    // a well-formed blob that was never sealed: an auth failure, not malformed input
    let stray = BASE64_STANDARD.encode([0u8; 18]);
    assert_eq!(vault_decrypt("pw", meta, &stray), Err(VaultError::AuthFailure));
    // without a sentinel there is nothing to verify against
    assert!(!vault_verify("pw", meta));
}

#[test]
fn reordered_meta_verifies() {
    let meta = vault_setup("hunter2");
    let (salt, sentinel) = stash_vault::meta::parse_meta(&meta).unwrap();
    let reordered = format!("{{ \"sentinel\": \"{sentinel}\", \"salt\": \"{salt}\" }}");
    assert!(vault_verify("hunter2", &reordered));
    let ct = vault_encrypt("hunter2", &reordered, "[]").unwrap();
    assert_eq!(vault_decrypt("hunter2", &meta, &ct).unwrap(), "[]");
}

#[test]
fn malformed_meta_is_input_error() {
    let r = vault_encrypt("pw", "{broken", "text");
    assert_eq!(r, Err(VaultError::InputError));
    let r = vault_decrypt("pw", "{broken", "AAAA");
    assert_eq!(r, Err(VaultError::InputError));
    let r = vault_change_password("pw", "pw2", "{broken", "");
    assert_eq!(r, Err(VaultError::InputError));
}

#[test]
fn bad_base64_salt_is_input_error() {
    let meta = "{\"salt\":\"!!!not-base64!!!\",\"sentinel\":\"AAAA\"}";
    let r = vault_encrypt("pw", meta, "text");
    assert_eq!(r, Err(VaultError::InputError));
}

#[test]
fn short_blob_is_input_error() {
    let meta = vault_setup("hunter2");
    // five bytes decode fine but are shorter than a nonce
    let short = BASE64_STANDARD.encode([1u8, 2, 3, 4, 5]);
    let r = vault_decrypt("hunter2", &meta, &short);
    assert_eq!(r, Err(VaultError::InputError));
}

#[test]
fn non_base64_blob_is_input_error() {
    let meta = vault_setup("hunter2");
    let r = vault_decrypt("hunter2", &meta, "@@@@");
    assert_eq!(r, Err(VaultError::InputError));
}

#[test]
fn non_utf8_payload_is_encoding_error() {
    let salt = [7u8; 16];
    let salt_b64 = BASE64_STANDARD.encode(salt);
    let sentinel_key = derive_key("pw", &salt);
    let sentinel = seal_blob(&sentinel_key, "stash-vault-ok".as_bytes());
    let meta = format!("{{\"salt\":\"{salt_b64}\",\"sentinel\":\"{sentinel}\"}}");
    assert!(vault_verify("pw", &meta));
    let key = derive_key("pw", &salt);
    let blob = seal_blob(&key, &[0xff, 0xfe, 0xfd]);
    let r = vault_decrypt("pw", &meta, &blob);
    assert_eq!(r, Err(VaultError::EncodingError));
}

#[test]
fn error_messages_are_stable() {
    assert_eq!(VaultError::InputError.message(), "Invalid input");
    assert_eq!(
        VaultError::AuthFailure.message(),
        "Decryption failed: wrong password or corrupted data"
    );
    assert_eq!(VaultError::EncodingError.message(), "Decrypted data is not valid UTF-8");
    assert_eq!(VaultError::InvalidPassword.message(), "Invalid old password");
}
