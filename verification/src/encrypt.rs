//! Top-level encryption: generate a master key, wrap it into one key
//! slot under the user's secret, assemble the envelope, and seal the
//! payload under the envelope's associated data.

use vstd::prelude::*;
use crate::cipher::{aead_open, aead_seal, Ciphers};
use crate::error::CoreError;
use crate::header::{Header, HashingAlgorithm, HeaderType, Keyslot};
use crate::key::{spec_slot_master_key, spec_slot_unlocks, spec_unlock, vec_to_arr};
use crate::primitives::{get_nonce_len, spec_nonce_len, Algorithm, Mode, SALT_LEN};
use crate::protected::Protected;
use crate::rng::random_vec;
use crate::salt::generate_salt;
use crate::stream::{encrypt_stream, spec_stream_open, spec_stream_seal, spec_stream_seal_len, MAX_STREAM_LEN};

verus! {

/// What the payload seals to under a header type: one shot in memory
/// mode, block by block in stream mode.
pub open spec fn spec_payload_seal(
    header_type: HeaderType,
    master_key: Seq<u8>,
    nonce: Seq<u8>,
    aad: Seq<u8>,
    plaintext: Seq<u8>,
) -> Seq<u8> {
    match header_type.mode {
        Mode::MemoryMode => aead_seal(header_type.algorithm, master_key, nonce, aad, plaintext),
        Mode::StreamMode => spec_stream_seal(header_type.algorithm, master_key, nonce, aad,
            plaintext, 0),
    }
}

/// What opening the payload yields under a header type.
pub open spec fn spec_payload_open(
    header_type: HeaderType,
    master_key: Seq<u8>,
    nonce: Seq<u8>,
    aad: Seq<u8>,
    ciphertext: Seq<u8>,
) -> Option<Seq<u8>> {
    match header_type.mode {
        Mode::MemoryMode => aead_open(header_type.algorithm, master_key, nonce, aad, ciphertext),
        Mode::StreamMode => spec_stream_open(header_type.algorithm, master_key, nonce, aad,
            ciphertext, 0),
    }
}

/// Wraps a 32-byte master key into a fresh key slot under a secret,
/// with the given slot salt and nonce.  The secret, and the slot key
/// the cipher held, are erased before returning.
pub(crate) fn wrap_master_key(
    raw_key: Protected<Vec<u8>>,
    hashing_algorithm: HashingAlgorithm,
    algorithm: &Algorithm,
    master_key: &Protected<[u8; 32]>,
    slot_salt: [u8; SALT_LEN],
    slot_nonce: Vec<u8>,
) -> (r: Result<Keyslot, CoreError>)
    requires
        slot_nonce@.len() == crate::header::spec_slot_nonce_len(*algorithm),
    ensures
        (r is Ok) == (hashing_algorithm matches HashingAlgorithm::Blake3Balloon(5u8)),
        r is Ok ==> ({
            let slot = r->Ok_0;
            &&& slot.wf(*algorithm)
            &&& slot.salt@ == slot_salt@
            &&& slot.nonce@ == slot_nonce@
            &&& spec_slot_unlocks(slot, *algorithm, raw_key.spec_inner()@)
            &&& spec_slot_master_key(slot, *algorithm, raw_key.spec_inner()@)
                == master_key.spec_inner()@
        }),
        r is Err ==> r->Err_0 is KdfUnsupportedVersion,
{
    let slot_key = match hashing_algorithm.hash(raw_key, &slot_salt) {
        Ok(k) => k,
        Err(e) => {
            return Err(e);
        },
    };
    let cipher = match Ciphers::initialize(slot_key, algorithm) {
        Ok(c) => c,
        Err(_) => unreached(),
    };
    let no_aad: Vec<u8> = Vec::new();
    let wrapped = match cipher.encrypt(slot_nonce.as_slice(), master_key.expose().as_slice(), no_aad.as_slice()) {
        Ok(w) => w,
        Err(_) => unreached(),
    };
    cipher.erase();
    let encrypted_key: [u8; 48] = vec_to_arr(wrapped);
    let slot = Keyslot {
        hash_algorithm: hashing_algorithm,
        encrypted_key,
        nonce: slot_nonce,
        salt: slot_salt,
    };
    proof {
        assert(spec_slot_master_key(slot, *algorithm, raw_key.spec_inner()@)
            =~= master_key.spec_inner()@);
    }
    Ok(slot)
}

/// Encrypts a plaintext with explicitly supplied key material: the
/// fresh master key, the payload nonce, and the slot salt and nonce.
/// The envelope holds one populated slot, which the supplied secret
/// unlocks to the supplied master key; the ciphertext opens back to the
/// plaintext under that master key and the envelope's associated data.
pub fn encrypt_with_materials(
    plaintext: &[u8],
    raw_key: Protected<Vec<u8>>,
    header_type: HeaderType,
    hashing_algorithm: HashingAlgorithm,
    master_key: Protected<[u8; 32]>,
    payload_nonce: Vec<u8>,
    slot_salt: [u8; SALT_LEN],
    slot_nonce: Vec<u8>,
) -> (r: Result<(Header, Vec<u8>), CoreError>)
    requires
        header_type.version is V5,
        payload_nonce@.len() == spec_nonce_len(header_type.algorithm, header_type.mode),
        slot_nonce@.len() == crate::header::spec_slot_nonce_len(header_type.algorithm),
        plaintext@.len() <= MAX_STREAM_LEN,
    ensures
        (r is Ok) == (raw_key.spec_inner()@.len() > 0
            && hashing_algorithm matches HashingAlgorithm::Blake3Balloon(5u8)),
        raw_key.spec_inner()@.len() == 0 ==> (r matches Err(e) && e is EmptySecret),
        r is Ok ==> ({
            let h = r->Ok_0.0;
            let ct = r->Ok_0.1;
            &&& h.wf()
            &&& h.header_type == header_type
            &&& h.nonce@ == payload_nonce@
            &&& h.keyslots->0@.len() == 1
            &&& spec_unlock(h.keyslots->0@, header_type.algorithm, raw_key.spec_inner()@)
                == Some(master_key.spec_inner()@)
            &&& ct@ == spec_payload_seal(header_type, master_key.spec_inner()@,
                payload_nonce@, h.spec_aad(), plaintext@)
            &&& spec_payload_open(header_type, master_key.spec_inner()@, payload_nonce@,
                h.spec_aad(), ct@) == Some(plaintext@)
            &&& (header_type.mode is StreamMode
                ==> ct@.len() == spec_stream_seal_len(plaintext@.len() as int))
            &&& (header_type.mode is MemoryMode ==> ct@.len() == plaintext@.len() + 16)
        }),
{
    let mut raw_key = raw_key;
    if raw_key.expose().len() == 0 {
        raw_key.wipe();
        let mut master_key = master_key;
        master_key.wipe();
        return Err(CoreError::EmptySecret);
    }
    let slot = match wrap_master_key(raw_key, hashing_algorithm, &header_type.algorithm,
        &master_key, slot_salt, slot_nonce) {
        Ok(slot) => slot,
        Err(e) => {
            let mut master_key = master_key;
            master_key.wipe();
            return Err(e);
        },
    };
    let mut keyslots: Vec<Keyslot> = Vec::new();
    keyslots.push(slot);
    let header = Header {
        header_type,
        nonce: payload_nonce,
        salt: None,
        keyslots: Some(keyslots),
    };
    let aad = match header.create_aad() {
        Ok(aad) => aad,
        Err(_) => unreached(),
    };
    let payload_cipher = match Ciphers::initialize(master_key, &header.header_type.algorithm) {
        Ok(c) => c,
        Err(_) => unreached(),
    };
    let ciphertext = match header.header_type.mode {
        Mode::MemoryMode => match payload_cipher.encrypt(header.nonce.as_slice(), plaintext, aad.as_slice()) {
            Ok(ct) => ct,
            Err(_) => unreached(),
        },
        Mode::StreamMode => match encrypt_stream(&payload_cipher, header.nonce.as_slice(), aad.as_slice(), plaintext) {
            Ok(ct) => ct,
            Err(_) => unreached(),
        },
    };
    payload_cipher.erase();
    proof {
        let slots = header.keyslots->0@;
        assert(slots.drop_first() =~= Seq::<Keyslot>::empty());
    }
    Ok((header, ciphertext))
}

/// Prepares a fresh envelope for a payload sealed block by block
/// through [`crate::stream::encrypt_stream_block`]: draws a random
/// master key, payload nonce, slot salt and slot nonce, wraps the
/// master key for the secret into the envelope's single slot, and
/// hands back the envelope together with a cipher holding the master
/// key.  The caller seals blocks against the envelope's associated
/// data and erases the cipher when done; this is the path for payloads
/// too large to hold in memory.
pub fn prepare_encrypt(
    raw_key: Protected<Vec<u8>>,
    header_type: HeaderType,
    hashing_algorithm: HashingAlgorithm,
) -> (r: Result<(Header, Ciphers), CoreError>)
    requires
        header_type.version is V5,
    ensures
        (r is Ok) == (raw_key.spec_inner()@.len() > 0
            && hashing_algorithm matches HashingAlgorithm::Blake3Balloon(5u8)),
        raw_key.spec_inner()@.len() == 0 ==> (r matches Err(e) && e is EmptySecret),
        r is Ok ==> ({
            let h = r->Ok_0.0;
            let cipher = r->Ok_0.1;
            &&& h.wf()
            &&& h.header_type == header_type
            &&& h.keyslots->0@.len() == 1
            &&& spec_unlock(h.keyslots->0@, header_type.algorithm, raw_key.spec_inner()@)
                == Some(cipher.spec_key())
            &&& cipher.spec_algorithm() == header_type.algorithm
        }),
{
    let mut raw_key = raw_key;
    if raw_key.expose().len() == 0 {
        raw_key.wipe();
        return Err(CoreError::EmptySecret);
    }
    let master_key_bytes: [u8; 32] = vec_to_arr(random_vec(32));
    let master_key = Protected::new(master_key_bytes);
    let nonce_len = get_nonce_len(&header_type.algorithm, &header_type.mode);
    let payload_nonce = random_vec(nonce_len);
    let slot_salt = generate_salt();
    let slot_nonce_len = get_nonce_len(&header_type.algorithm, &Mode::MemoryMode);
    let slot_nonce = random_vec(slot_nonce_len);
    let slot = match wrap_master_key(raw_key, hashing_algorithm, &header_type.algorithm,
        &master_key, slot_salt, slot_nonce) {
        Ok(slot) => slot,
        Err(e) => {
            let mut master_key = master_key;
            master_key.wipe();
            return Err(e);
        },
    };
    let mut keyslots: Vec<Keyslot> = Vec::new();
    keyslots.push(slot);
    let header = Header {
        header_type,
        nonce: payload_nonce,
        salt: None,
        keyslots: Some(keyslots),
    };
    let cipher = match Ciphers::initialize(master_key, &header_type.algorithm) {
        Ok(c) => c,
        Err(_) => unreached(),
    };
    proof {
        assert(header.keyslots->0@.drop_first() =~= Seq::<Keyslot>::empty());
    }
    Ok((header, cipher))
}

/// Encrypts a plaintext under a secret: a fresh random master key is
/// wrapped into the envelope's single key slot, and the payload is
/// sealed under the envelope's associated data.  On success the secret
/// unlocks the envelope to a master key that opens the ciphertext back
/// to the plaintext.
pub fn encrypt(
    plaintext: &[u8],
    raw_key: Protected<Vec<u8>>,
    header_type: HeaderType,
    hashing_algorithm: HashingAlgorithm,
) -> (r: Result<(Header, Vec<u8>), CoreError>)
    requires
        header_type.version is V5,
        plaintext@.len() <= MAX_STREAM_LEN,
    ensures
        (r is Ok) == (raw_key.spec_inner()@.len() > 0
            && hashing_algorithm matches HashingAlgorithm::Blake3Balloon(5u8)),
        raw_key.spec_inner()@.len() == 0 ==> (r matches Err(e) && e is EmptySecret),
        r is Ok ==> ({
            let h = r->Ok_0.0;
            let ct = r->Ok_0.1;
            let unlocked = spec_unlock(h.keyslots->0@, header_type.algorithm,
                raw_key.spec_inner()@);
            &&& h.wf()
            &&& h.header_type == header_type
            &&& h.keyslots->0@.len() == 1
            &&& unlocked is Some
            &&& spec_payload_open(header_type, unlocked->0, h.nonce@, h.spec_aad(), ct@)
                == Some(plaintext@)
            &&& (header_type.mode is StreamMode
                ==> ct@.len() == spec_stream_seal_len(plaintext@.len() as int))
            &&& (header_type.mode is MemoryMode ==> ct@.len() == plaintext@.len() + 16)
        }),
{
    let master_key_bytes: [u8; 32] = vec_to_arr(random_vec(32));
    let master_key = Protected::new(master_key_bytes);
    let nonce_len = get_nonce_len(&header_type.algorithm, &header_type.mode);
    let payload_nonce = random_vec(nonce_len);
    let slot_salt = generate_salt();
    let slot_nonce_len = get_nonce_len(&header_type.algorithm, &Mode::MemoryMode);
    let slot_nonce = random_vec(slot_nonce_len);
    encrypt_with_materials(plaintext, raw_key, header_type, hashing_algorithm, master_key,
        payload_nonce, slot_salt, slot_nonce)
}

} // verus!
