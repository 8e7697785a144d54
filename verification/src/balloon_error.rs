//! Errors of the versioned hasher interface.

use vstd::prelude::*;

verus! {

/// Everything the versioned hasher can report.
#[derive(Debug)]
pub enum Blake3BalloonError {
    /// The hashing parameters could not be constructed.
    ParameterInit(String),
    /// The hashing process itself failed.
    HashingFailed(String),
    /// The numeric parameter version is not supported.
    UnsupportedVersion { version: u32, supported: Vec<u32> },
    /// A salt of the wrong length was supplied.
    InvalidSaltLength { expected: usize, actual: usize },
    /// The password was empty.
    EmptyPassword,
}

} // verus!
