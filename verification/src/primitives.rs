//! Shared constants and the algorithm / mode pair that parameterise the
//! envelope and the bulk cipher.

use vstd::prelude::*;

verus! {

/// Length in bytes of every salt used by the key derivation function.
pub const SALT_LEN: usize = 16;

/// Length in bytes of the master key that protects a payload.
pub const MASTER_KEY_LEN: usize = 32;

/// Length in bytes of a wrapped master key: 32 bytes of key plus the
/// 16-byte authentication tag.
pub const ENCRYPTED_MASTER_KEY_LEN: usize = 48;

/// Length in bytes of the authentication tag an AEAD appends.
pub const TAG_LEN: usize = 16;

/// Size in bytes of one plaintext block in stream mode.
pub const BLOCK_SIZE: usize = 1_048_576;

/// The supported authenticated ciphers.
#[derive(Clone, Copy, PartialEq, Eq, Structural, Debug)]
pub enum Algorithm {
    XChaCha20Poly1305,
    Aes256GcmSiv,
}

/// Whether a payload was sealed in one shot or block by block.
#[derive(Clone, Copy, PartialEq, Eq, Structural, Debug)]
pub enum Mode {
    StreamMode,
    MemoryMode,
}

/// Nonce length in bytes for a given algorithm and mode.  In stream mode
/// the stored nonce is four bytes shorter: those bytes carry the block
/// counter.
pub open spec fn spec_nonce_len(algorithm: Algorithm, mode: Mode) -> usize {
    match (algorithm, mode) {
        (Algorithm::XChaCha20Poly1305, Mode::MemoryMode) => 24,
        (Algorithm::XChaCha20Poly1305, Mode::StreamMode) => 20,
        (Algorithm::Aes256GcmSiv, Mode::MemoryMode) => 12,
        (Algorithm::Aes256GcmSiv, Mode::StreamMode) => 8,
    }
}

/// Nonce length in bytes for a given algorithm and mode.
pub fn get_nonce_len(algorithm: &Algorithm, mode: &Mode) -> (r: usize)
    ensures
        r == spec_nonce_len(*algorithm, *mode),
{
    match (algorithm, mode) {
        (Algorithm::XChaCha20Poly1305, Mode::MemoryMode) => 24,
        (Algorithm::XChaCha20Poly1305, Mode::StreamMode) => 20,
        (Algorithm::Aes256GcmSiv, Mode::MemoryMode) => 12,
        (Algorithm::Aes256GcmSiv, Mode::StreamMode) => 8,
    }
}

} // verus!
