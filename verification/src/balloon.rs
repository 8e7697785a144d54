//! The standalone password-hashing interface: versioned or custom Balloon
//! parameters over the BLAKE3 compression, with hashing, verification and
//! a secret-consuming variant.

use vstd::prelude::*;
use crate::error::CoreError;
use crate::hasher::constant_time_eq;
use crate::kdf::{balloon_blake3, balloon_digest, MAX_SPACE_COST};
use crate::protected::Zeroizable;

verus! {

/// Length in bytes of a hashing salt.
pub const SALT_SIZE: usize = 16;

/// Length in bytes of a password hash.
pub const HASH_SIZE: usize = 32;

/// Space cost of the fixed parameter version.
pub const V1_SPACE_COST: u32 = 278_528;

/// Time cost of the fixed parameter version.
pub const V1_TIME_COST: u32 = 1;

/// A fixed, named parameter set, or explicitly supplied parameters.
#[derive(Debug, Clone, Copy, PartialEq, Eq, Structural)]
pub enum Version {
    /// 272 MB space cost, one round, one thread.
    V1,
    /// Parameters supplied by the caller.
    Custom,
}

/// Balloon cost parameters.
#[derive(Debug, Clone, Copy)]
pub struct Params {
    /// Space cost, in number of hash blocks.
    pub space_cost: u32,
    /// Time cost, in number of rounds.
    pub time_cost: u32,
    /// Degree of parallelism; the hash only runs with one thread.
    pub parallelism: u32,
}

impl Params {
    /// All three costs are positive and a single thread is asked for:
    /// exactly the parameter sets the underlying hash accepts.
    pub open spec fn valid(&self) -> bool {
        self.space_cost > 0 && self.time_cost > 0 && self.parallelism == 1
    }

    /// Validated construction: every cost must be positive.
    pub fn new(space_cost: u32, time_cost: u32, parallelism: u32) -> (r: Result<Self, CoreError>)
        ensures
            (r is Ok) == (space_cost > 0 && time_cost > 0 && parallelism > 0),
            r is Ok ==> r->Ok_0 == (Params { space_cost, time_cost, parallelism }),
            r is Err ==> r->Err_0 is KdfInit,
    {
        if space_cost == 0 {
            return Err(CoreError::KdfInit);
        }
        if time_cost == 0 {
            return Err(CoreError::KdfInit);
        }
        if parallelism == 0 {
            return Err(CoreError::KdfInit);
        }
        Ok(Params { space_cost, time_cost, parallelism })
    }
}

impl Version {
    /// The cost parameters a named version stands for; explicit parameters
    /// must be supplied separately.
    pub fn params(&self) -> (r: Result<Params, CoreError>)
        ensures
            (r is Ok) == (*self is V1),
            r is Ok ==> r->Ok_0 == (Params {
                space_cost: V1_SPACE_COST,
                time_cost: V1_TIME_COST,
                parallelism: 1,
            }),
            r is Err ==> r->Err_0 is KdfInit,
    {
        match self {
            Version::V1 => Ok(Params {
                space_cost: V1_SPACE_COST,
                time_cost: V1_TIME_COST,
                parallelism: 1,
            }),
            Version::Custom => Err(CoreError::KdfInit),
        }
    }
}

/// The digest this module computes for a password and salt under a named
/// version: the Balloon/BLAKE3 digest at that version's costs.
pub open spec fn spec_version_digest(password: Seq<u8>, salt: Seq<u8>) -> Seq<u8> {
    balloon_digest(password, salt, V1_SPACE_COST, V1_TIME_COST)
}

/// Hashes a password with a named parameter version.
pub fn hash_password(
    password: &[u8],
    salt: &[u8; SALT_SIZE],
    version: Version,
) -> (r: Result<[u8; HASH_SIZE], CoreError>)
    ensures
        (r is Ok) == (version is V1),
        r is Ok ==> r->Ok_0@ == spec_version_digest(password@, salt@),
        r is Err ==> r->Err_0 is KdfInit,
{
    let params = match version.params() {
        Ok(p) => p,
        Err(e) => return Err(e),
    };
    hash_password_with_params(password, salt, params)
}

/// Hashes a password with explicitly supplied parameters.
pub fn hash_password_with_params(
    password: &[u8],
    salt: &[u8; SALT_SIZE],
    params: Params,
) -> (r: Result<[u8; HASH_SIZE], CoreError>)
    requires
        params.space_cost <= MAX_SPACE_COST,
    ensures
        (r is Ok) == params.valid(),
        r is Ok ==> r->Ok_0@ == balloon_digest(password@, salt@, params.space_cost, params.time_cost),
        r is Err ==> r->Err_0 is KdfFailed,
{
    hash_password_raw(password, salt, params)
}

/// The shared trusted call, with the crate's error kinds mapped on.
fn hash_password_raw(
    password: &[u8],
    salt: &[u8; SALT_SIZE],
    params: Params,
) -> (r: Result<[u8; HASH_SIZE], CoreError>)
    requires
        params.space_cost <= MAX_SPACE_COST,
    ensures
        (r is Ok) == params.valid(),
        r is Ok ==> r->Ok_0@ == balloon_digest(password@, salt@, params.space_cost, params.time_cost),
        r is Err ==> r->Err_0 is KdfFailed,
{
    match balloon_blake3(password, salt, params.space_cost, params.time_cost, params.parallelism) {
        Ok(hash) => Ok(hash),
        Err(_) => Err(CoreError::KdfFailed),
    }
}

/// Hashes an owned password and erases it before returning.
pub fn hash_password_secure(
    password: Vec<u8>,
    salt: &[u8; SALT_SIZE],
    version: Version,
) -> (r: Result<[u8; HASH_SIZE], CoreError>)
    ensures
        (r is Ok) == (version is V1),
        r is Ok ==> r->Ok_0@ == spec_version_digest(password@, salt@),
        r is Err ==> r->Err_0 is KdfInit,
{
    let mut password = password;
    let result = hash_password(password.as_slice(), salt, version);
    password.wipe();
    result
}

/// Checks a password against an expected hash, comparing in constant time.
pub fn verify_password(
    password: &[u8],
    salt: &[u8; SALT_SIZE],
    hash: &[u8; HASH_SIZE],
    version: Version,
) -> (r: Result<bool, CoreError>)
    ensures
        (r is Ok) == (version is V1),
        r is Ok ==> r->Ok_0 == (spec_version_digest(password@, salt@) == hash@),
        r is Err ==> r->Err_0 is KdfInit,
{
    let computed_hash = match hash_password(password, salt, version) {
        Ok(h) => h,
        Err(e) => return Err(e),
    };
    let equal = constant_time_eq(computed_hash.as_slice(), hash.as_slice());
    Ok(equal)
}

} // verus!
