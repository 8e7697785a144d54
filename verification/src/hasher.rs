//! The versioned hasher: an object holding a parameter version, with
//! hashing and constant-time verification.

use vstd::prelude::*;
use crate::balloon_error::Blake3BalloonError;
use crate::kdf::{balloon_blake3, balloon_digest};
use crate::params::{spec_space_cost, Blake3BalloonConfig, ParameterVersion, OUTPUT_LEN, SALT_LEN};
use crate::protected::Protected;

verus! {

/// A password hasher pinned to one parameter version.
pub struct Blake3BalloonHasher {
    config: Blake3BalloonConfig,
}

/// The digest the versioned hasher computes: one Balloon/BLAKE3 round
/// count at the version's space cost.
pub open spec fn spec_hasher_digest(
    version: ParameterVersion,
    password: Seq<u8>,
    salt: Seq<u8>,
) -> Seq<u8> {
    balloon_digest(password, salt, spec_space_cost(version), 1)
}

impl Blake3BalloonHasher {
    /// The parameter version this hasher is pinned to.
    pub closed spec fn spec_version(&self) -> ParameterVersion {
        self.config.version
    }

    /// A hasher for the given parameter version.
    pub fn new(version: ParameterVersion) -> (r: Self)
        ensures
            r.spec_version() == version,
    {
        Blake3BalloonHasher { config: Blake3BalloonConfig::new(version) }
    }

    /// A hasher with the recommended (latest) parameters.
    pub fn recommended() -> (r: Self)
        ensures
            r.spec_version() is V5,
    {
        Blake3BalloonHasher { config: Blake3BalloonConfig::recommended() }
    }

    /// A hasher with the legacy parameters, for checking old hashes.
    pub fn legacy_v4() -> (r: Self)
        ensures
            r.spec_version() is V4,
    {
        Blake3BalloonHasher { config: Blake3BalloonConfig::legacy_v4() }
    }

    /// The parameter version this hasher uses.
    pub fn version(&self) -> (r: ParameterVersion)
        ensures
            r == self.spec_version(),
    {
        self.config.version
    }

    /// Hashes a password with the pinned parameters.  An empty password
    /// is rejected; any other password hashes successfully.
    pub fn hash_password(
        &self,
        password: &[u8],
        salt: &[u8; SALT_LEN],
    ) -> (r: Result<[u8; OUTPUT_LEN], Blake3BalloonError>)
        ensures
            (r is Ok) == (password@.len() > 0),
            r is Ok ==> r->Ok_0@ == spec_hasher_digest(self.spec_version(), password@, salt@),
            r is Err ==> r->Err_0 is EmptyPassword,
    {
        if password.len() == 0 {
            return Err(Blake3BalloonError::EmptyPassword);
        }
        let space_cost: u32 = match self.config.version {
            ParameterVersion::V4 => 262_144,
            ParameterVersion::V5 => 278_528,
        };
        match balloon_blake3(password, salt, space_cost, 1, 1) {
            Ok(hash) => Ok(hash),
            Err(_) => Err(Blake3BalloonError::EmptyPassword),
        }
    }

    /// Hashes a protected password, erasing it before returning.
    pub fn hash_protected_password(
        &self,
        password: Protected<Vec<u8>>,
        salt: &[u8; SALT_LEN],
    ) -> (r: Result<Protected<[u8; OUTPUT_LEN]>, Blake3BalloonError>)
        ensures
            (r is Ok) == (password.spec_inner()@.len() > 0),
            r is Ok ==> r->Ok_0.spec_inner()@ == spec_hasher_digest(
                self.spec_version(),
                password.spec_inner()@,
                salt@,
            ),
            r is Err ==> r->Err_0 is EmptyPassword,
    {
        let mut password = password;
        let result = self.hash_password(password.expose().as_slice(), salt);
        password.wipe();
        match result {
            Ok(hash) => Ok(Protected::new(hash)),
            Err(e) => Err(e),
        }
    }

    /// Checks a password against an expected hash, comparing the digests
    /// in constant time.
    pub fn verify_password(
        &self,
        password: &[u8],
        salt: &[u8; SALT_LEN],
        expected_hash: &[u8; OUTPUT_LEN],
    ) -> (r: Result<bool, Blake3BalloonError>)
        ensures
            (r is Ok) == (password@.len() > 0),
            r is Ok ==> r->Ok_0 == (spec_hasher_digest(self.spec_version(), password@, salt@)
                == expected_hash@),
            r is Err ==> r->Err_0 is EmptyPassword,
    {
        let computed_hash = match self.hash_password(password, salt) {
            Ok(h) => h,
            Err(e) => return Err(e),
        };
        Ok(constant_time_eq(computed_hash.as_slice(), expected_hash.as_slice()))
    }
}

impl Default for Blake3BalloonHasher {
    /// A hasher with the recommended parameters.
    fn default() -> (r: Self)
        ensures
            r.spec_version() is V5,
    {
        Blake3BalloonHasher::recommended()
    }
}

/// Hashes a password with the recommended parameters.
pub fn hash_password(
    password: &[u8],
    salt: &[u8; SALT_LEN],
) -> (r: Result<[u8; OUTPUT_LEN], Blake3BalloonError>)
    ensures
        (r is Ok) == (password@.len() > 0),
        r is Ok ==> r->Ok_0@ == spec_hasher_digest(ParameterVersion::V5, password@, salt@),
        r is Err ==> r->Err_0 is EmptyPassword,
{
    let hasher = Blake3BalloonHasher::recommended();
    hasher.hash_password(password, salt)
}

/// Hashes a protected password with the recommended parameters.
pub fn hash_protected_password(
    password: Protected<Vec<u8>>,
    salt: &[u8; SALT_LEN],
) -> (r: Result<Protected<[u8; OUTPUT_LEN]>, Blake3BalloonError>)
    ensures
        (r is Ok) == (password.spec_inner()@.len() > 0),
        r is Ok ==> r->Ok_0.spec_inner()@ == spec_hasher_digest(
            ParameterVersion::V5,
            password.spec_inner()@,
            salt@,
        ),
        r is Err ==> r->Err_0 is EmptyPassword,
{
    let hasher = Blake3BalloonHasher::recommended();
    hasher.hash_protected_password(password, salt)
}

/// Verifies a password against a hash with the recommended parameters.
pub fn verify_password(
    password: &[u8],
    salt: &[u8; SALT_LEN],
    expected_hash: &[u8; OUTPUT_LEN],
) -> (r: Result<bool, Blake3BalloonError>)
    ensures
        (r is Ok) == (password@.len() > 0),
        r is Ok ==> r->Ok_0 == (spec_hasher_digest(ParameterVersion::V5, password@, salt@)
            == expected_hash@),
        r is Err ==> r->Err_0 is EmptyPassword,
{
    let hasher = Blake3BalloonHasher::recommended();
    hasher.verify_password(password, salt, expected_hash)
}

/// Equality of two byte strings, visiting every byte so that the running
/// time does not depend on where a difference sits.
pub fn constant_time_eq(a: &[u8], b: &[u8]) -> (r: bool)
    ensures
        r == (a@ == b@),
{
    if a.len() != b.len() {
        proof {
            assert(a@.len() != b@.len());
        }
        return false;
    }
    let mut diff: u8 = 0;
    let mut i: usize = 0;
    while i < a.len()
        invariant
            a@.len() == b@.len(),
            i <= a@.len(),
            (diff == 0) == (a@.subrange(0, i as int) =~= b@.subrange(0, i as int)),
        decreases a@.len() - i,
    {
        let x = a[i];
        let y = b[i];
        let ghost old_diff = diff;
        diff = diff | (x ^ y);
        proof {
            assert((old_diff | (x ^ y)) == 0 <==> old_diff == 0 && x == y) by (bit_vector);
            if diff == 0 {
                assert(a@.subrange(0, i + 1 as int) =~= b@.subrange(0, i + 1 as int));
            } else {
                if old_diff == 0 {
                    assert(a@.subrange(0, i + 1 as int)[i as int] == x);
                    assert(b@.subrange(0, i + 1 as int)[i as int] == y);
                }
                assert(!(a@.subrange(0, i + 1 as int) =~= b@.subrange(0, i + 1 as int))) by {
                    if a@.subrange(0, i + 1 as int) =~= b@.subrange(0, i + 1 as int) {
                        if old_diff != 0 {
                            assert(a@.subrange(0, i as int) =~= b@.subrange(0, i as int));
                        } else {
                            assert(a@.subrange(0, i + 1 as int)[i as int]
                                == b@.subrange(0, i + 1 as int)[i as int]);
                        }
                    }
                }
            }
        }
        i = i + 1;
    }
    proof {
        assert(a@.subrange(0, a@.len() as int) =~= a@);
        assert(b@.subrange(0, b@.len() as int) =~= b@);
    }
    diff == 0
}

} // verus!
