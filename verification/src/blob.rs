//! The encrypted blob wire format: base64(nonce ‖ ciphertext ‖ tag).
//!
//! Every encryption draws a fresh random nonce, so the blob carries the
//! nonce in front of the GCM output; the whole is base64-encoded for
//! transport as text.

use vstd::prelude::*;

verus! {

use crate::aead::{aes256_gcm_open, aes256_gcm_seal, gcm_open, gcm_seal, KEY_LEN, NONCE_LEN, TAG_LEN};
use crate::rng::os_random_bytes;
use crate::textcodec::{b64_decode, b64_decoding, b64_encode, b64_encoding, is_b64_text};
use crate::VaultError;
use vstd::slice::slice_subrange;

/// The longest plaintext, in bytes, that a single blob may carry. Far below
/// the AES-GCM limit, it also keeps every length computation inside `usize`
/// on any machine.
pub const MAX_PLAINTEXT_BYTES: usize = 0x3000_0000;

/// The blob produced by sealing `plaintext` under `key` with `nonce`.
pub open spec fn sealed_blob_of(key: Seq<u8>, nonce: Seq<u8>, plaintext: Seq<u8>) -> Seq<char> {
    b64_encoding(nonce + aes256_gcm_seal(key, nonce, plaintext))
}

/// True when `blob` is a sealing of `plaintext` under `key` with some nonce.
pub open spec fn is_sealing_of(key: Seq<u8>, plaintext: Seq<u8>, blob: Seq<char>) -> bool {
    exists|nonce: Seq<u8>|
        nonce.len() == NONCE_LEN && blob == #[trigger] sealed_blob_of(key, nonce, plaintext)
}

/// What opening `blob` under `key` yields: the plaintext bytes, or the
/// error naming the first check that failed. A blob that is not base64, or
/// whose decoding is shorter than a nonce, is malformed; one whose
/// authentication tag does not verify reads as an authentication failure,
/// whether the key is wrong or the data corrupted.
pub open spec fn opened_blob_of(key: Seq<u8>, blob: Seq<char>) -> Result<Seq<u8>, VaultError> {
    match b64_decoding(blob) {
        Option::None => Result::Err(VaultError::InputError),
        Option::Some(combined) => if combined.len() < NONCE_LEN {
            Result::Err(VaultError::InputError)
        } else {
            match aes256_gcm_open(
                key,
                combined.take(NONCE_LEN as int),
                combined.skip(NONCE_LEN as int),
            ) {
                Option::None => Result::Err(VaultError::AuthFailure),
                Option::Some(p) => Result::Ok(p),
            }
        },
    }
}

/// Concatenation of two byte slices.
fn concat_bytes(a: &[u8], b: &[u8]) -> (out: Vec<u8>)
    requires
        a@.len() + b@.len() <= usize::MAX,
    ensures
        out@ == a@ + b@,
{
    let mut out: Vec<u8> = Vec::new();
    let mut i: usize = 0;
    while i < a.len()
        invariant
            i <= a@.len(),
            out@ == a@.take(i as int),
        decreases a@.len() - i,
    {
        out.push(a[i]);
        i = i + 1;
        proof {
            assert(out@ =~= a@.take(i as int));
        }
    }
    proof {
        assert(out@ =~= a@);
    }
    let mut j: usize = 0;
    while j < b.len()
        invariant
            j <= b@.len(),
            out@ == a@ + b@.take(j as int),
        decreases b@.len() - j,
    {
        out.push(b[j]);
        j = j + 1;
        proof {
            assert(out@ =~= a@ + b@.take(j as int));
        }
    }
    proof {
        assert(out@ =~= a@ + b@);
    }
    out
}

/// Seal `plaintext` under `key` with a fresh random nonce, producing the
/// base64 blob. The result always opens back to `plaintext` under `key`,
/// and its decoding is the 12-byte nonce, the ciphertext (as long as the
/// plaintext) and the 16-byte tag.
pub fn seal_blob(key: &[u8], plaintext: &[u8]) -> (blob: String)
    requires
        key@.len() == KEY_LEN,
        plaintext@.len() <= MAX_PLAINTEXT_BYTES,
    ensures
        is_sealing_of(key@, plaintext@, blob@),
        opened_blob_of(key@, blob@) == Result::<Seq<u8>, VaultError>::Ok(plaintext@),
        is_b64_text(blob@),
        (b64_decoding(blob@) matches Some(raw) && raw.len() == NONCE_LEN + plaintext@.len()
            + TAG_LEN),
        blob@.len() == (plaintext@.len() + NONCE_LEN + TAG_LEN + 2) / 3 * 4,
{
    let nonce = os_random_bytes(NONCE_LEN);
    let sealed = gcm_seal(key, nonce.as_slice(), plaintext);
    let combined = concat_bytes(nonce.as_slice(), sealed.as_slice());
    let blob = b64_encode(combined.as_slice());
    proof {
        assert(combined@.take(NONCE_LEN as int) =~= nonce@);
        assert(combined@.skip(NONCE_LEN as int) =~= sealed@);
        assert(blob@ == sealed_blob_of(key@, nonce@, plaintext@));
    }
    blob
}

/// Open a base64 blob under `key`, recovering the plaintext bytes.
pub fn open_blob(key: &[u8], blob: &str) -> (r: Result<Vec<u8>, VaultError>)
    requires
        key@.len() == KEY_LEN,
    ensures
        match r {
            Result::Ok(p) => opened_blob_of(key@, blob@) == Result::<Seq<u8>, VaultError>::Ok(p@)
                && p@.len() + NONCE_LEN + TAG_LEN <= blob@.len(),
            Result::Err(e) => opened_blob_of(key@, blob@) == Result::<Seq<u8>, VaultError>::Err(e),
        },
{
    let combined = match b64_decode(blob) {
        Option::Some(c) => c,
        Option::None => {
            return Result::Err(VaultError::InputError);
        },
    };
    if combined.len() < NONCE_LEN {
        return Result::Err(VaultError::InputError);
    }
    let nonce = slice_subrange(combined.as_slice(), 0, NONCE_LEN);
    let rest = slice_subrange(combined.as_slice(), NONCE_LEN, combined.len());
    proof {
        assert(nonce@ =~= combined@.take(NONCE_LEN as int));
        assert(rest@ =~= combined@.skip(NONCE_LEN as int));
    }
    match gcm_open(key, nonce, rest) {
        Option::Some(p) => Result::Ok(p),
        Option::None => Result::Err(VaultError::AuthFailure),
    }
}

} // verus!
