//! Randomness from the operating system.

use rand::rngs::OsRng;
use rand::RngCore;
use vstd::prelude::*;

verus! {

/// Relies on rand::rngs::OsRng, an OS-backed CSPRNG: returns `len` fresh
/// random bytes. Nothing can be promised of their values; two calls on the
/// same length may return anything. Aborts only if the operating system's
/// random source itself fails.
#[verifier::external_body]
pub(crate) fn os_random_bytes(len: usize) -> (bytes: Vec<u8>)
    ensures
        bytes@.len() == len,
{
    let mut buf = vec![0u8; len];
    OsRng.fill_bytes(&mut buf);
    buf
}

} // verus!
