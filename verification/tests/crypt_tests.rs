use dexios_core::cipher::Ciphers;
use dexios_core::decrypt::decrypt;
use dexios_core::encrypt::encrypt;
use dexios_core::error::CoreError;
use dexios_core::header::{Header, HashingAlgorithm, HeaderType, HeaderVersion, Keyslot};
use dexios_core::header_key::{header_add_key, header_change_key, header_del_key, header_verify_key};
use dexios_core::primitives::{Algorithm, Mode, BLOCK_SIZE};
use dexios_core::protected::Protected;

fn secret(bytes: &[u8]) -> Protected<Vec<u8>> {
    Protected::new(bytes.to_vec())
}

fn header_type(algorithm: Algorithm, mode: Mode) -> HeaderType {
    HeaderType { version: HeaderVersion::V5, algorithm, mode }
}

/// Wraps `master` for `secret` into a key slot, spending one key
/// derivation.
fn wrap_slot(secret_bytes: &[u8], master: &[u8; 32], salt_byte: u8, nonce_byte: u8) -> Keyslot {
    let salt = [salt_byte; 16];
    let key = HashingAlgorithm::Blake3Balloon(5)
        .hash(secret(secret_bytes), &salt)
        .unwrap();
    let cipher = Ciphers::initialize(key, &Algorithm::XChaCha20Poly1305).unwrap();
    let nonce = vec![nonce_byte; 24];
    let wrapped = cipher.encrypt(&nonce, master, &[]).unwrap();
    let mut encrypted_key = [0u8; 48];
    encrypted_key.copy_from_slice(&wrapped);
    Keyslot {
        hash_algorithm: HashingAlgorithm::Blake3Balloon(5),
        encrypted_key,
        nonce,
        salt,
    }
}

/// An envelope with the given slots, memory mode, XChaCha20-Poly1305.
fn envelope(keyslots: Vec<Keyslot>) -> Header {
    Header {
        header_type: header_type(Algorithm::XChaCha20Poly1305, Mode::MemoryMode),
        nonce: vec![0x07; 24],
        salt: None,
        keyslots: Some(keyslots),
    }
}

fn roundtrip(plaintext: &[u8], algorithm: Algorithm, mode: Mode) -> (Header, Vec<u8>, Vec<u8>) {
    let (header, ciphertext) = encrypt(
        plaintext,
        secret(b"roundtrip password"),
        header_type(algorithm, mode),
        HashingAlgorithm::Blake3Balloon(5),
    )
    .unwrap();
    let aad = header.create_aad().unwrap();
    let decrypted = decrypt(&header, &aad, &ciphertext, secret(b"roundtrip password")).unwrap();
    assert_eq!(decrypted, plaintext);
    (header, aad, ciphertext)
}

#[test]
fn roundtrip_memory_xchacha() {
    roundtrip(b"hello envelope", Algorithm::XChaCha20Poly1305, Mode::MemoryMode);
}

#[test]
fn roundtrip_memory_aes() {
    roundtrip(b"hello envelope", Algorithm::Aes256GcmSiv, Mode::MemoryMode);
}

#[test]
fn roundtrip_stream_xchacha() {
    roundtrip(b"streamed bytes", Algorithm::XChaCha20Poly1305, Mode::StreamMode);
}

#[test]
fn roundtrip_stream_aes() {
    roundtrip(b"streamed bytes", Algorithm::Aes256GcmSiv, Mode::StreamMode);
}

#[test]
fn empty_plaintext_memory_mode_is_tag_only() {
    // Empty plaintext, XChaCha20-Poly1305, memory mode: the ciphertext
    // is exactly one 16-byte tag, and the round trip succeeds.
    let (_, _, ciphertext) = roundtrip(b"", Algorithm::XChaCha20Poly1305, Mode::MemoryMode);
    assert_eq!(ciphertext.len(), 16);
}

#[test]
fn block_sized_plaintext_emits_two_blocks() {
    // A plaintext of exactly one block emits one full non-terminal
    // block and one empty terminal block.
    let plaintext = vec![0xA5u8; BLOCK_SIZE];
    let (_, _, ciphertext) = roundtrip(&plaintext, Algorithm::XChaCha20Poly1305, Mode::StreamMode);
    assert_eq!(ciphertext.len(), BLOCK_SIZE + 16 + 16);
}

#[test]
fn block_minus_one_plaintext_emits_one_block() {
    // A plaintext one byte short of a block emits a single terminal
    // block.
    let plaintext = vec![0x5Au8; BLOCK_SIZE - 1];
    let (_, _, ciphertext) = roundtrip(&plaintext, Algorithm::XChaCha20Poly1305, Mode::StreamMode);
    assert_eq!(ciphertext.len(), BLOCK_SIZE - 1 + 16);
}

#[test]
fn wrong_secret_fails() {
    let (header, ciphertext) = encrypt(
        b"payload",
        secret(b"first secret"),
        header_type(Algorithm::XChaCha20Poly1305, Mode::MemoryMode),
        HashingAlgorithm::Blake3Balloon(5),
    )
    .unwrap();
    let aad = header.create_aad().unwrap();
    let err = decrypt(&header, &aad, &ciphertext, secret(b"second secret")).unwrap_err();
    assert!(
        err == CoreError::NoMatchingKey || err == CoreError::CipherAuth,
        "unexpected error: {:?}",
        err
    );
}

#[test]
fn empty_secret_is_rejected() {
    let err = encrypt(
        b"payload",
        secret(b""),
        header_type(Algorithm::XChaCha20Poly1305, Mode::MemoryMode),
        HashingAlgorithm::Blake3Balloon(5),
    )
    .unwrap_err();
    assert_eq!(err, CoreError::EmptySecret);
}

#[test]
fn zero_slot_envelope_fails_with_no_matching_key() {
    // A header with zero populated slots parses but cannot be
    // decrypted.
    let (header, ciphertext) = encrypt(
        b"payload",
        secret(b"password"),
        header_type(Algorithm::XChaCha20Poly1305, Mode::MemoryMode),
        HashingAlgorithm::Blake3Balloon(5),
    )
    .unwrap();
    let mut bytes = header.serialize().unwrap();
    // Zero the whole key-slot region.
    for b in bytes[32..416].iter_mut() {
        *b = 0;
    }
    let (stripped, aad) = Header::deserialize(&bytes).unwrap();
    assert_eq!(stripped.keyslots.as_ref().unwrap().len(), 0);
    let err = decrypt(&stripped, &aad, &ciphertext, secret(b"password")).unwrap_err();
    assert_eq!(err, CoreError::NoMatchingKey);
}

#[test]
fn stream_truncated_inside_final_block_fails() {
    // Cutting one byte off a stream ciphertext must fail
    // authentication.
    let plaintext = vec![0x3Cu8; BLOCK_SIZE + 100];
    let (header, ciphertext) = encrypt(
        &plaintext,
        secret(b"stream password"),
        header_type(Algorithm::XChaCha20Poly1305, Mode::StreamMode),
        HashingAlgorithm::Blake3Balloon(5),
    )
    .unwrap();
    let aad = header.create_aad().unwrap();
    let truncated = &ciphertext[..ciphertext.len() - 1];
    let err = decrypt(&header, &aad, truncated, secret(b"stream password")).unwrap_err();
    assert_eq!(err, CoreError::CipherAuth);
}

#[test]
fn stream_truncated_at_block_boundary_fails() {
    // Cutting the whole terminal block leaves a full block that was
    // sealed as non-terminal; opening it as terminal must fail.
    let plaintext = vec![0x3Cu8; BLOCK_SIZE + 100];
    let (header, ciphertext) = encrypt(
        &plaintext,
        secret(b"stream password"),
        header_type(Algorithm::XChaCha20Poly1305, Mode::StreamMode),
        HashingAlgorithm::Blake3Balloon(5),
    )
    .unwrap();
    let aad = header.create_aad().unwrap();
    let truncated = &ciphertext[..BLOCK_SIZE + 16];
    let err = decrypt(&header, &aad, truncated, secret(b"stream password")).unwrap_err();
    assert_eq!(err, CoreError::CipherAuth);
}

#[test]
fn aad_bit_flip_fails_decryption() {
    // Flipping bits in the first 32 bytes that survive parsing (the
    // nonce and its padding) changes the associated data, so payload
    // authentication fails.
    let (header, ciphertext) = encrypt(
        b"authenticated payload",
        secret(b"password"),
        header_type(Algorithm::XChaCha20Poly1305, Mode::MemoryMode),
        HashingAlgorithm::Blake3Balloon(5),
    )
    .unwrap();
    let bytes = header.serialize().unwrap();
    for flip in [6usize * 8, 31 * 8 + 7] {
        let mut flipped = bytes.clone();
        flipped[flip / 8] ^= 1 << (flip % 8);
        let (parsed, aad) = Header::deserialize(&flipped).unwrap();
        let err = decrypt(&parsed, &aad, &ciphertext, secret(b"password")).unwrap_err();
        assert_eq!(err, CoreError::CipherAuth, "flip of bit {} decrypted", flip);
    }
}

#[test]
fn algorithm_byte_change_fails_decryption() {
    // Rewriting byte 3 (the algorithm byte) re-reads the envelope under
    // the other cipher: no slot unwraps, so decryption fails before the
    // payload is touched; single-bit flips of that byte already fail at
    // parse time.
    let (header, ciphertext) = encrypt(
        b"payload bytes",
        secret(b"password"),
        header_type(Algorithm::XChaCha20Poly1305, Mode::MemoryMode),
        HashingAlgorithm::Blake3Balloon(5),
    )
    .unwrap();
    let mut bytes = header.serialize().unwrap();
    bytes[3] = 0x02;
    let (parsed, aad) = Header::deserialize(&bytes).unwrap();
    let err = decrypt(&parsed, &aad, &ciphertext, secret(b"password")).unwrap_err();
    assert!(
        err == CoreError::NoMatchingKey || err == CoreError::CipherAuth,
        "unexpected error: {:?}",
        err
    );
    for bit in 0..8 {
        let mut flipped = bytes.clone();
        flipped[3] = 0x01 ^ (1 << bit);
        assert!(Header::deserialize(&flipped).is_err());
    }
}

#[test]
fn add_key_appends_a_slot_and_keeps_the_rest() {
    let master = [0xC3u8; 32];
    let old_slot = wrap_slot(b"old secret", &master, 0x01, 0x02);
    let old_bytes = old_slot.encrypted_key;
    let mut header = envelope(vec![old_slot]);
    header_add_key(&mut header, &secret(b"old secret"), secret(b"new secret")).unwrap();
    let slots = header.keyslots.as_ref().unwrap();
    assert_eq!(slots.len(), 2);
    assert_eq!(slots[0].encrypted_key, old_bytes, "existing slot untouched");
    assert_ne!(slots[1].salt, slots[0].salt, "fresh slot salt");
}

#[test]
fn both_slots_of_a_shared_envelope_verify() {
    // The state add_key produces: two slots wrapping one master key
    // under two secrets.  The secret of the scanned slot verifies.
    let master = [0x5Du8; 32];
    let new_slot = wrap_slot(b"new secret", &master, 0x04, 0x05);
    let old_slot = wrap_slot(b"old secret", &master, 0x01, 0x02);
    let header = envelope(vec![new_slot, old_slot]);
    assert!(header_verify_key(&header, &secret(b"new secret")));
}

#[test]
fn change_key_rewrites_the_unlocking_slot() {
    let master = [0x99u8; 32];
    let old_slot = wrap_slot(b"old secret", &master, 0x01, 0x02);
    let mut header = envelope(vec![old_slot]);
    header_change_key(&mut header, &secret(b"old secret"), secret(b"new secret")).unwrap();
    let slots = header.keyslots.as_ref().unwrap();
    assert_eq!(slots.len(), 1);
    assert_ne!(slots[0].salt, [0x01; 16], "slot rewritten under a fresh salt");
}

#[test]
fn changed_envelope_takes_new_secret_only() {
    // The state change_key produces: the old slot replaced by a slot
    // for the new secret alone.
    let master = [0x2Eu8; 32];
    let new_slot = wrap_slot(b"new secret", &master, 0x04, 0x05);
    let header = envelope(vec![new_slot]);
    assert!(!header_verify_key(&header, &secret(b"old secret")));
    assert!(header_verify_key(&header, &secret(b"new secret")));
}

#[test]
fn del_key_zeroes_the_slot_in_place() {
    let master = [0x42u8; 32];
    let first = wrap_slot(b"first", &master, 0x01, 0x02);
    let second = wrap_slot(b"second", &master, 0x03, 0x04);
    let second_bytes = second.encrypted_key;
    let mut header = envelope(vec![first, second]);
    let before = header.serialize().unwrap();
    header_del_key(&mut header, &secret(b"first")).unwrap();
    let slots = header.keyslots.as_ref().unwrap();
    assert_eq!(slots.len(), 2);
    assert_eq!(slots[1].encrypted_key, second_bytes);
    let bytes = header.serialize().unwrap();
    assert_eq!(&bytes[32..128], &[0u8; 96][..], "deleted slot region is all zero");
    assert_eq!(&bytes[128..224], &before[128..224], "surviving slot keeps its region");
    assert_eq!(&bytes[0..32], &before[0..32], "associated data unchanged");
}

#[test]
fn del_key_refuses_the_last_slot() {
    let master = [0x42u8; 32];
    let only = wrap_slot(b"only secret", &master, 0x01, 0x02);
    let mut header = envelope(vec![only]);
    assert_eq!(
        header_del_key(&mut header, &secret(b"only secret")).unwrap_err(),
        CoreError::LastSlot
    );
    assert_eq!(header.keyslots.as_ref().unwrap().len(), 1);
}

#[test]
fn deleted_secret_no_longer_verifies() {
    // The state del_key produces: a freed region in place of the old
    // slot, so only the remaining slot's secret verifies.
    let master = [0x42u8; 32];
    let freed = Keyslot {
        hash_algorithm: HashingAlgorithm::Blake3Balloon(0),
        encrypted_key: [0u8; 48],
        nonce: vec![0u8; 24],
        salt: [0u8; 16],
    };
    let second = wrap_slot(b"second", &master, 0x03, 0x04);
    let header = envelope(vec![freed, second]);
    assert!(!header_verify_key(&header, &secret(b"first")));
}

#[test]
fn add_key_reuses_a_freed_slot() {
    // After a delete, the next add writes into the freed region
    // instead of growing the list.
    let master = [0x77u8; 32];
    let first = wrap_slot(b"first", &master, 0x01, 0x02);
    let freed = Keyslot {
        hash_algorithm: HashingAlgorithm::Blake3Balloon(0),
        encrypted_key: [0u8; 48],
        nonce: vec![0u8; 24],
        salt: [0u8; 16],
    };
    let mut header = envelope(vec![first, freed]);
    header_add_key(&mut header, &secret(b"first"), secret(b"replacement")).unwrap();
    let slots = header.keyslots.as_ref().unwrap();
    assert_eq!(slots.len(), 2);
    assert_eq!(slots[1].hash_algorithm, HashingAlgorithm::Blake3Balloon(5));
    assert_ne!(slots[1].salt, [0u8; 16]);
}

#[test]
fn add_key_fills_at_most_four_slots() {
    let master = [0x6Bu8; 32];
    let slot = wrap_slot(b"one", &master, 0x01, 0x02);
    let mut header = envelope(vec![slot.clone(), slot.clone(), slot.clone(), slot]);
    assert_eq!(
        header_add_key(&mut header, &secret(b"one"), secret(b"five")).unwrap_err(),
        CoreError::NoEmptySlot
    );
}
