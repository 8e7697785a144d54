//! The core's single window onto the process entropy source.

use vstd::prelude::*;

verus! {

/// Relies on rand::RngCore::fill_bytes on rand::rngs::ThreadRng: fills the
/// buffer with cryptographically secure random bytes.  Nothing is promised
/// of the values: every caller must hold for any outcome.
#[verifier::external_body]
pub(crate) fn random_vec(len: usize) -> (r: Vec<u8>)
    ensures
        r@.len() == len,
{
    let mut buf = vec![0u8; len];
    rand::RngCore::fill_bytes(&mut rand::thread_rng(), &mut buf);
    buf
}

} // verus!
