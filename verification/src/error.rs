//! The error kinds the core can surface.  Authentication failures and
//! wrong-key failures are distinct variants here; a boundary that wants to
//! hide the distinction can collapse them when rendering.

use vstd::prelude::*;

verus! {

/// Every failure the core can report, one variant per §cause.
#[derive(Clone, Copy, PartialEq, Eq, Structural, Debug)]
pub enum CoreError {
    /// An underlying reader or writer failed.
    Io,
    /// The first two envelope bytes are not the version tag.
    HeaderBadVersion,
    /// The algorithm tag bytes are unknown.
    HeaderBadAlgo,
    /// The mode tag bytes are unknown.
    HeaderBadMode,
    /// Fewer bytes than a whole envelope.
    HeaderTruncated,
    /// A populated key slot carries an unknown hash identifier.
    HeaderBadSlotTag,
    /// The key derivation version byte is unrecognised.
    KdfUnsupportedVersion,
    /// The key derivation parameters could not be constructed.
    KdfInit,
    /// The key derivation itself failed.
    KdfFailed,
    /// The bulk cipher could not be initialised.
    CipherInit,
    /// Authentication failed while decrypting.
    CipherAuth,
    /// No key slot unlocked with the supplied secret.
    NoMatchingKey,
    /// All four key slots are already populated.
    NoEmptySlot,
    /// Deleting the slot would leave the envelope with no key at all.
    LastSlot,
    /// The user secret was empty.
    EmptySecret,
}

impl CoreError {
    /// A short description, for boundaries that render errors.
    /// Authentication failures, wrong-key failures and corrupted-header
    /// failures all collapse into one message, so a caller probing the
    /// boundary cannot tell them apart.
    pub fn message(&self) -> (r: &'static str)
        ensures
            (*self is CipherInit || *self is CipherAuth || *self is NoMatchingKey
                || *self is HeaderBadVersion || *self is HeaderBadAlgo
                || *self is HeaderBadMode || *self is HeaderTruncated
                || *self is HeaderBadSlotTag)
                ==> r@ =~= "cannot decrypt: wrong key or corrupted file"@,
    {
        match self {
            CoreError::Io => "unable to read or write data",
            CoreError::HeaderBadVersion => "cannot decrypt: wrong key or corrupted file",
            CoreError::HeaderBadAlgo => "cannot decrypt: wrong key or corrupted file",
            CoreError::HeaderBadMode => "cannot decrypt: wrong key or corrupted file",
            CoreError::HeaderTruncated => "cannot decrypt: wrong key or corrupted file",
            CoreError::HeaderBadSlotTag => "cannot decrypt: wrong key or corrupted file",
            CoreError::KdfUnsupportedVersion => "hashing is not supported with the parameters provided",
            CoreError::KdfInit => "error initialising balloon hashing parameters",
            CoreError::KdfFailed => "error while hashing your key",
            CoreError::CipherInit => "cannot decrypt: wrong key or corrupted file",
            CoreError::CipherAuth => "cannot decrypt: wrong key or corrupted file",
            CoreError::NoMatchingKey => "cannot decrypt: wrong key or corrupted file",
            CoreError::NoEmptySlot => "no empty keyslot is available",
            CoreError::LastSlot => "deleting this key would remove the last keyslot",
            CoreError::EmptySecret => "the supplied secret is empty",
        }
    }
}

} // verus!
