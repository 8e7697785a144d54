//! The authenticated ciphers, behind one pair of names per algorithm:
//! what sealing produces and what opening yields.  Everything the crate
//! proves about encrypted bytes rests on the contracts here.

use vstd::prelude::*;
use crate::error::CoreError;
use crate::primitives::{spec_nonce_len, Algorithm, Mode};
use crate::protected::Protected;
use chacha20poly1305::aead::{Aead, KeyInit, Payload};

verus! {

/// Greatest message length the cipher wrappers accept; both ciphers
/// seal anything up to this bound and far beyond it.
pub const MAX_AEAD_LEN: usize = 0x7800_0000;

/// The ciphertext-with-tag XChaCha20-Poly1305 produces; a function of
/// key, nonce, associated data and message alone.
pub uninterp spec fn xchacha_seal(key: Seq<u8>, nonce: Seq<u8>, aad: Seq<u8>, msg: Seq<u8>) -> Seq<u8>;

/// What opening a byte string under XChaCha20-Poly1305 yields: the
/// message when the tag verifies, nothing otherwise.
pub uninterp spec fn xchacha_open(key: Seq<u8>, nonce: Seq<u8>, aad: Seq<u8>, ct: Seq<u8>) -> Option<Seq<u8>>;

/// The ciphertext-with-tag AES-256-GCM-SIV produces.
pub uninterp spec fn aes_gcm_siv_seal(key: Seq<u8>, nonce: Seq<u8>, aad: Seq<u8>, msg: Seq<u8>) -> Seq<u8>;

/// What opening a byte string under AES-256-GCM-SIV yields.
pub uninterp spec fn aes_gcm_siv_open(key: Seq<u8>, nonce: Seq<u8>, aad: Seq<u8>, ct: Seq<u8>) -> Option<Seq<u8>>;

/// Sealing under the given algorithm.
pub open spec fn aead_seal(
    algorithm: Algorithm,
    key: Seq<u8>,
    nonce: Seq<u8>,
    aad: Seq<u8>,
    msg: Seq<u8>,
) -> Seq<u8> {
    match algorithm {
        Algorithm::XChaCha20Poly1305 => xchacha_seal(key, nonce, aad, msg),
        Algorithm::Aes256GcmSiv => aes_gcm_siv_seal(key, nonce, aad, msg),
    }
}

/// Opening under the given algorithm.
pub open spec fn aead_open(
    algorithm: Algorithm,
    key: Seq<u8>,
    nonce: Seq<u8>,
    aad: Seq<u8>,
    ct: Seq<u8>,
) -> Option<Seq<u8>> {
    match algorithm {
        Algorithm::XChaCha20Poly1305 => xchacha_open(key, nonce, aad, ct),
        Algorithm::Aes256GcmSiv => aes_gcm_siv_open(key, nonce, aad, ct),
    }
}

/// Relies on chacha20poly1305::XChaCha20Poly1305 through aead::Aead::
/// encrypt: the result is the sealed message with its 16-byte tag
/// appended, a function of key, nonce, associated data and message
/// alone, and decrypting it under the same parameters yields the
/// message back; within the length bound the call cannot fail.
#[verifier::external_body]
fn xchacha_encrypt(key: &[u8; 32], nonce: &[u8], aad: &[u8], msg: &[u8]) -> (r: Result<Vec<u8>, CoreError>)
    requires
        nonce@.len() == 24,
        msg@.len() <= MAX_AEAD_LEN,
    ensures
        r is Ok,
        r->Ok_0@ == xchacha_seal(key@, nonce@, aad@, msg@),
        r->Ok_0@.len() == msg@.len() + 16,
        xchacha_open(key@, nonce@, aad@, r->Ok_0@) == Some(msg@),
{
    let cipher = chacha20poly1305::XChaCha20Poly1305::new(chacha20poly1305::Key::from_slice(key));
    match cipher.encrypt(chacha20poly1305::XNonce::from_slice(nonce), Payload { msg, aad }) {
        Ok(ct) => Ok(ct),
        Err(_) => Err(CoreError::CipherAuth),
    }
}

/// Relies on chacha20poly1305::XChaCha20Poly1305 through aead::Aead::
/// decrypt: the call succeeds exactly when the tag verifies, and then
/// returns the sealed message, 16 bytes shorter than the input.
#[verifier::external_body]
fn xchacha_decrypt(key: &[u8; 32], nonce: &[u8], aad: &[u8], ct: &[u8]) -> (r: Result<Vec<u8>, CoreError>)
    requires
        nonce@.len() == 24,
        ct@.len() <= MAX_AEAD_LEN + 16,
    ensures
        (r is Ok) == (xchacha_open(key@, nonce@, aad@, ct@) is Some),
        r is Ok ==> r->Ok_0@ == xchacha_open(key@, nonce@, aad@, ct@)->0,
        r is Ok ==> r->Ok_0@.len() + 16 == ct@.len(),
        r is Err ==> r->Err_0 is CipherAuth,
{
    let cipher = chacha20poly1305::XChaCha20Poly1305::new(chacha20poly1305::Key::from_slice(key));
    match cipher.decrypt(chacha20poly1305::XNonce::from_slice(nonce), Payload { msg: ct, aad }) {
        Ok(pt) => Ok(pt),
        Err(_) => Err(CoreError::CipherAuth),
    }
}

/// Relies on aes_gcm_siv::Aes256GcmSiv through aead::Aead::encrypt:
/// the result is the sealed message with its 16-byte tag appended, a
/// function of key, nonce, associated data and message alone, and
/// decrypting it under the same parameters yields the message back;
/// within the length bounds the call cannot fail.
#[verifier::external_body]
fn aes_gcm_siv_encrypt(key: &[u8; 32], nonce: &[u8], aad: &[u8], msg: &[u8]) -> (r: Result<Vec<u8>, CoreError>)
    requires
        nonce@.len() == 12,
        msg@.len() <= MAX_AEAD_LEN,
        aad@.len() <= MAX_AEAD_LEN,
    ensures
        r is Ok,
        r->Ok_0@ == aes_gcm_siv_seal(key@, nonce@, aad@, msg@),
        r->Ok_0@.len() == msg@.len() + 16,
        aes_gcm_siv_open(key@, nonce@, aad@, r->Ok_0@) == Some(msg@),
{
    let cipher = <aes_gcm_siv::Aes256GcmSiv as KeyInit>::new(aes_gcm_siv::Key::<aes_gcm_siv::Aes256GcmSiv>::from_slice(key));
    match cipher.encrypt(aes_gcm_siv::Nonce::from_slice(nonce), Payload { msg, aad }) {
        Ok(ct) => Ok(ct),
        Err(_) => Err(CoreError::CipherAuth),
    }
}

/// Relies on aes_gcm_siv::Aes256GcmSiv through aead::Aead::decrypt:
/// the call succeeds exactly when the tag verifies, and then returns
/// the sealed message, 16 bytes shorter than the input.
#[verifier::external_body]
fn aes_gcm_siv_decrypt(key: &[u8; 32], nonce: &[u8], aad: &[u8], ct: &[u8]) -> (r: Result<Vec<u8>, CoreError>)
    requires
        nonce@.len() == 12,
        ct@.len() <= MAX_AEAD_LEN + 16,
        aad@.len() <= MAX_AEAD_LEN,
    ensures
        (r is Ok) == (aes_gcm_siv_open(key@, nonce@, aad@, ct@) is Some),
        r is Ok ==> r->Ok_0@ == aes_gcm_siv_open(key@, nonce@, aad@, ct@)->0,
        r is Ok ==> r->Ok_0@.len() + 16 == ct@.len(),
        r is Err ==> r->Err_0 is CipherAuth,
{
    let cipher = <aes_gcm_siv::Aes256GcmSiv as KeyInit>::new(aes_gcm_siv::Key::<aes_gcm_siv::Aes256GcmSiv>::from_slice(key));
    match cipher.decrypt(aes_gcm_siv::Nonce::from_slice(nonce), Payload { msg: ct, aad }) {
        Ok(pt) => Ok(pt),
        Err(_) => Err(CoreError::CipherAuth),
    }
}

/// A bulk cipher initialised with a 32-byte key.  The key sits in a
/// zeroizing wrapper; `erase` wipes it when the cipher is done with.
pub struct Ciphers {
    algorithm: Algorithm,
    key: Protected<[u8; 32]>,
}

impl Ciphers {
    /// The algorithm this cipher seals with.
    pub closed spec fn spec_algorithm(&self) -> Algorithm {
        self.algorithm
    }

    /// The key this cipher seals with.
    pub closed spec fn spec_key(&self) -> Seq<u8> {
        self.key.spec_inner()@
    }

    /// The full nonce length this cipher expects.
    pub open spec fn spec_cipher_nonce_len(&self) -> usize {
        spec_nonce_len(self.spec_algorithm(), Mode::MemoryMode)
    }

    /// Builds a cipher around a derived key.
    pub fn initialize(key: Protected<[u8; 32]>, algorithm: &Algorithm) -> (r: Result<Self, CoreError>)
        ensures
            r is Ok,
            r->Ok_0.spec_algorithm() == *algorithm,
            r->Ok_0.spec_key() == key.spec_inner()@,
    {
        Ok(Ciphers { algorithm: *algorithm, key })
    }

    /// The algorithm of this cipher.
    pub fn algorithm(&self) -> (r: Algorithm)
        ensures
            r == self.spec_algorithm(),
    {
        self.algorithm
    }

    /// Seals a message.  The nonce must have the cipher's full length;
    /// in stream mode that is the stored prefix plus the counter bytes.
    pub fn encrypt(&self, nonce: &[u8], plaintext: &[u8], aad: &[u8]) -> (r: Result<Vec<u8>, CoreError>)
        requires
            nonce@.len() == self.spec_cipher_nonce_len(),
            plaintext@.len() <= MAX_AEAD_LEN,
            aad@.len() <= MAX_AEAD_LEN,
        ensures
            r is Ok,
            r->Ok_0@ == aead_seal(self.spec_algorithm(), self.spec_key(), nonce@, aad@, plaintext@),
            r->Ok_0@.len() == plaintext@.len() + 16,
            aead_open(self.spec_algorithm(), self.spec_key(), nonce@, aad@, r->Ok_0@)
                == Some(plaintext@),
    {
        match self.algorithm {
            Algorithm::XChaCha20Poly1305 => xchacha_encrypt(self.key.expose(), nonce, aad, plaintext),
            Algorithm::Aes256GcmSiv => aes_gcm_siv_encrypt(self.key.expose(), nonce, aad, plaintext),
        }
    }

    /// Opens a sealed message; fails exactly when the tag does not
    /// verify under this key, nonce and associated data.
    pub fn decrypt(&self, nonce: &[u8], ciphertext: &[u8], aad: &[u8]) -> (r: Result<Vec<u8>, CoreError>)
        requires
            nonce@.len() == self.spec_cipher_nonce_len(),
            ciphertext@.len() <= MAX_AEAD_LEN + 16,
            aad@.len() <= MAX_AEAD_LEN,
        ensures
            (r is Ok) == (aead_open(self.spec_algorithm(), self.spec_key(), nonce@, aad@,
                ciphertext@) is Some),
            r is Ok ==> r->Ok_0@ == aead_open(self.spec_algorithm(), self.spec_key(), nonce@,
                aad@, ciphertext@)->0,
            r is Ok ==> r->Ok_0@.len() + 16 == ciphertext@.len(),
            r is Err ==> r->Err_0 is CipherAuth,
    {
        match self.algorithm {
            Algorithm::XChaCha20Poly1305 => xchacha_decrypt(self.key.expose(), nonce, aad, ciphertext),
            Algorithm::Aes256GcmSiv => aes_gcm_siv_decrypt(self.key.expose(), nonce, aad, ciphertext),
        }
    }

    /// Wipes the key and consumes the cipher.
    pub fn erase(self) {
        let mut key = self.key;
        key.wipe();
    }
}

} // verus!
