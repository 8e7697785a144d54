//! Named parameter versions for the versioned hasher, and the small
//! configuration object that carries one.

use vstd::prelude::*;
use crate::balloon::Params;
use crate::balloon_error::Blake3BalloonError;

verus! {

/// Length in bytes of a hashing salt.
pub const SALT_LEN: usize = 16;

/// Length in bytes of a password hash.
pub const OUTPUT_LEN: usize = 32;

/// A named, pinned parameter set.
#[derive(Debug, Clone, Copy, PartialEq, Eq, Hash, Structural)]
pub enum ParameterVersion {
    /// Legacy parameters.
    V4,
    /// Current recommended parameters.
    V5,
}

/// The space cost a named version pins.
pub open spec fn spec_space_cost(v: ParameterVersion) -> u32 {
    match v {
        ParameterVersion::V4 => 262_144,
        ParameterVersion::V5 => 278_528,
    }
}

impl ParameterVersion {
    /// Every parameter version this crate understands, oldest first.
    pub fn supported_versions() -> (r: Vec<ParameterVersion>)
        ensures
            r@ =~= seq![ParameterVersion::V4, ParameterVersion::V5],
    {
        let mut versions: Vec<ParameterVersion> = Vec::new();
        versions.push(ParameterVersion::V4);
        versions.push(ParameterVersion::V5);
        versions
    }

    /// The recommended version.
    pub fn latest() -> (r: Self)
        ensures
            r is V5,
    {
        ParameterVersion::V5
    }

    /// The version a numeric tag names, if any.
    pub fn from_u32(version: u32) -> (r: Result<Self, Blake3BalloonError>)
        ensures
            (r is Ok) == (version == 4 || version == 5),
            version == 4 ==> r->Ok_0 is V4,
            version == 5 ==> r->Ok_0 is V5,
            r is Err ==> (r->Err_0 matches Blake3BalloonError::UnsupportedVersion {
                version: v,
                supported,
            } && v == version && supported@ =~= seq![4u32, 5u32]),
    {
        match version {
            4 => Ok(ParameterVersion::V4),
            5 => Ok(ParameterVersion::V5),
            _ => {
                let mut supported: Vec<u32> = Vec::new();
                supported.push(4);
                supported.push(5);
                Err(Blake3BalloonError::UnsupportedVersion { version, supported })
            },
        }
    }

    /// The numeric tag of this version.
    pub fn to_u32(self) -> (r: u32)
        ensures
            self is V4 ==> r == 4,
            self is V5 ==> r == 5,
    {
        match self {
            ParameterVersion::V4 => 4,
            ParameterVersion::V5 => 5,
        }
    }

    /// The cost parameters this version pins: one round on a single
    /// thread over the version's block count.
    pub fn balloon_params(self) -> (r: Result<Params, Blake3BalloonError>)
        ensures
            r is Ok,
            r->Ok_0.space_cost == spec_space_cost(self),
            r->Ok_0.time_cost == 1,
            r->Ok_0.parallelism == 1,
    {
        match self {
            ParameterVersion::V4 => Ok(Params { space_cost: 262_144, time_cost: 1, parallelism: 1 }),
            ParameterVersion::V5 => Ok(Params { space_cost: 278_528, time_cost: 1, parallelism: 1 }),
        }
    }

    /// A human-readable description of the parameter set.
    pub fn description(self) -> (r: &'static str)
        ensures
            self is V4 ==> r@ == "Legacy parameters (256KB memory cost)"@,
            self is V5 ==> r@ == "Current recommended parameters (272KB memory cost)"@,
    {
        match self {
            ParameterVersion::V4 => "Legacy parameters (256KB memory cost)",
            ParameterVersion::V5 => "Current recommended parameters (272KB memory cost)",
        }
    }
}

impl Default for ParameterVersion {
    /// The recommended version.
    fn default() -> (r: Self)
        ensures
            r is V5,
    {
        ParameterVersion::latest()
    }
}

/// Configuration for the versioned hasher.
#[derive(Debug, Clone)]
pub struct Blake3BalloonConfig {
    /// The parameter version to hash with.
    pub version: ParameterVersion,
}

impl Blake3BalloonConfig {
    /// A configuration for the given version.
    pub fn new(version: ParameterVersion) -> (r: Self)
        ensures
            r.version == version,
    {
        Blake3BalloonConfig { version }
    }

    /// A configuration with the recommended version.
    pub fn recommended() -> (r: Self)
        ensures
            r.version is V5,
    {
        Blake3BalloonConfig::new(ParameterVersion::latest())
    }

    /// A configuration with the legacy version.
    pub fn legacy_v4() -> (r: Self)
        ensures
            r.version is V4,
    {
        Blake3BalloonConfig::new(ParameterVersion::V4)
    }
}

impl Default for Blake3BalloonConfig {
    /// The recommended configuration.
    fn default() -> (r: Self)
        ensures
            r.version is V5,
    {
        Blake3BalloonConfig::recommended()
    }
}

} // verus!
