//! Top-level decryption: probe the envelope's key slots for the master
//! key, then open the payload against the envelope's associated data.

use vstd::prelude::*;
use crate::cipher::{Ciphers, MAX_AEAD_LEN};
use crate::encrypt::spec_payload_open;
use crate::error::CoreError;
use crate::header::Header;
use crate::key::{decrypt_master_key, spec_unlock};
use crate::primitives::Mode;
use crate::protected::Protected;
use crate::stream::decrypt_stream;

verus! {

/// Greatest ciphertext length the decryptor accepts: the sealed form
/// of the longest accepted plaintext.
pub const MAX_SEALED_LEN: usize = 0x7000_7010;

/// Decrypts a payload: an empty secret is rejected; then the key slots
/// are probed in wire order, failing with `NoMatchingKey` when none
/// unlocks; then the payload is opened under the recovered master key
/// and the supplied associated data, failing with `CipherAuth` when a
/// tag does not verify.  On success the result is exactly what the
/// master key opens the ciphertext to.
pub fn decrypt(
    header: &Header,
    aad: &[u8],
    ciphertext: &[u8],
    raw_key: Protected<Vec<u8>>,
) -> (r: Result<Vec<u8>, CoreError>)
    requires
        header.wf(),
        aad@.len() <= MAX_AEAD_LEN,
        ciphertext@.len() <= MAX_SEALED_LEN,
    ensures
        ({
            let secret = raw_key.spec_inner()@;
            let unlocked = spec_unlock(header.keyslots->0@, header.header_type.algorithm, secret);
            &&& (r is Ok) == (secret.len() > 0 && unlocked is Some
                && spec_payload_open(header.header_type, unlocked->0, header.nonce@, aad@,
                    ciphertext@) is Some)
            &&& (secret.len() == 0 ==> (r matches Err(e) && e is EmptySecret))
            &&& (secret.len() > 0 && unlocked is None
                ==> (r matches Err(e) && e is NoMatchingKey))
            &&& (secret.len() > 0 && unlocked is Some
                && spec_payload_open(header.header_type, unlocked->0, header.nonce@, aad@,
                    ciphertext@) is None
                ==> (r matches Err(e) && e is CipherAuth))
            &&& (r is Ok ==> r->Ok_0@ == spec_payload_open(header.header_type, unlocked->0,
                header.nonce@, aad@, ciphertext@)->0)
        }),
{
    let mut raw_key = raw_key;
    if raw_key.expose().len() == 0 {
        raw_key.wipe();
        return Err(CoreError::EmptySecret);
    }
    let master_key = match decrypt_master_key(&raw_key, header) {
        Ok(mk) => mk,
        Err(e) => {
            raw_key.wipe();
            return Err(e);
        },
    };
    raw_key.wipe();
    let payload_cipher = match Ciphers::initialize(master_key, &header.header_type.algorithm) {
        Ok(c) => c,
        Err(_) => unreached(),
    };
    let opened = match header.header_type.mode {
        Mode::MemoryMode => payload_cipher.decrypt(header.nonce.as_slice(), ciphertext, aad),
        Mode::StreamMode => decrypt_stream(&payload_cipher, header.nonce.as_slice(), aad, ciphertext),
    };
    payload_cipher.erase();
    opened
}

} // verus!
