//! The memory-hard digest at the bottom of every key derivation.
//!
//! All password hashing in this crate — the versioned hashers as well as
//! the key-slot derivations — funnels into the one trusted call below.

use vstd::prelude::*;
use crate::error::CoreError;

verus! {

/// Greatest space cost the crate hands to the hash: 8 Mi blocks of 32
/// bytes, a quarter of a gibibyte of working memory.
pub const MAX_SPACE_COST: u32 = 0x0080_0000;

/// The 32-byte Balloon digest over a BLAKE3 compression for a password,
/// a salt, and the given space and time costs.  The value is a function
/// of its arguments alone; nothing here states what it is.
pub uninterp spec fn balloon_digest(
    password: Seq<u8>,
    salt: Seq<u8>,
    space_cost: u32,
    time_cost: u32,
) -> Seq<u8>;

/// Relies on balloon_hash::Balloon::<blake3::Hasher>::hash_into with
/// Algorithm::Balloon: the digest is a deterministic function of the
/// password, the salt and the cost parameters; with a 32-byte output
/// buffer the call fails exactly when a cost is zero (parameter
/// construction) or the parallelism is not one (the non-M algorithm
/// rejects threads).
#[verifier::external_body]
pub(crate) fn balloon_blake3(
    password: &[u8],
    salt: &[u8; 16],
    space_cost: u32,
    time_cost: u32,
    parallelism: u32,
) -> (r: Result<[u8; 32], CoreError>)
    requires
        space_cost <= MAX_SPACE_COST,
    ensures
        (r is Ok) == (space_cost > 0 && time_cost > 0 && parallelism == 1),
        r is Ok ==> r->Ok_0@ == balloon_digest(password@, salt@, space_cost, time_cost),
        r is Ok ==> r->Ok_0@.len() == 32,
{
    let params = match balloon_hash::Params::new(space_cost, time_cost, parallelism) {
        Ok(p) => p,
        Err(_) => return Err(CoreError::KdfInit),
    };
    let balloon = balloon_hash::Balloon::<blake3::Hasher>::new(
        balloon_hash::Algorithm::Balloon,
        params,
        None,
    );
    let mut out = [0u8; 32];
    match balloon.hash_into(password, salt, &mut out) {
        Ok(()) => Ok(out),
        Err(_) => Err(CoreError::KdfFailed),
    }
}

} // verus!
