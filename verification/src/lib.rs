//! Core of a password-based file-encryption format: a memory-hard key
//! derivation function, a fixed 416-byte multi-slot envelope, and an
//! authenticated bulk cipher layer in single-shot and chunked form.
//!
//! The cryptographic primitives — the Balloon/BLAKE3 digest and the two
//! AEAD ciphers — are called through trusted wrappers whose contracts
//! name their results; everything else is verified against those names.
//! In particular, [`encrypt::encrypt`] ensures that what it returns
//! opens back to the plaintext under the secret that sealed it, and
//! [`decrypt::decrypt`] ensures it returns exactly that opening, so the
//! encrypt-then-decrypt round trip follows from the two contracts.

pub mod balloon;
pub mod balloon_error;
pub mod cipher;
pub mod decrypt;
pub mod encrypt;
pub mod error;
pub mod hasher;
pub mod header;
pub mod header_key;
pub mod key;
pub mod kdf;
pub mod params;
pub mod primitives;
pub mod protected;
mod rng;
pub mod salt;
pub mod stream;
