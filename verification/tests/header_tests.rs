use dexios_core::error::CoreError;
use dexios_core::header::{Header, HeaderType, HeaderVersion, HashingAlgorithm, Keyslot};
use dexios_core::primitives::{Algorithm, Mode};

fn sample_header(algorithm: Algorithm, mode: Mode, slots: usize) -> Header {
    let mut keyslots = Vec::new();
    for i in 0..slots {
        keyslots.push(Keyslot {
            hash_algorithm: HashingAlgorithm::Blake3Balloon(5),
            encrypted_key: [0x11 + i as u8; 48],
            nonce: vec![0x22 + i as u8; slot_nonce_len(algorithm)],
            salt: [0x33 + i as u8; 16],
        });
    }
    Header {
        header_type: HeaderType { version: HeaderVersion::V5, algorithm, mode },
        nonce: vec![0x44; payload_nonce_len(algorithm, mode)],
        salt: None,
        keyslots: Some(keyslots),
    }
}

fn payload_nonce_len(algorithm: Algorithm, mode: Mode) -> usize {
    match (algorithm, mode) {
        (Algorithm::XChaCha20Poly1305, Mode::MemoryMode) => 24,
        (Algorithm::XChaCha20Poly1305, Mode::StreamMode) => 20,
        (Algorithm::Aes256GcmSiv, Mode::MemoryMode) => 12,
        (Algorithm::Aes256GcmSiv, Mode::StreamMode) => 8,
    }
}

fn slot_nonce_len(algorithm: Algorithm) -> usize {
    payload_nonce_len(algorithm, Mode::MemoryMode)
}

#[test]
fn serialized_header_is_416_bytes_with_expected_tags() {
    let header = sample_header(Algorithm::XChaCha20Poly1305, Mode::StreamMode, 1);
    let bytes = header.serialize().unwrap();
    assert_eq!(bytes.len(), 416);
    assert_eq!(header.get_size(), 416);
    assert_eq!(&bytes[0..2], &[0xDE, 0x05]);
    assert_eq!(&bytes[2..4], &[0x0E, 0x01]);
    assert_eq!(&bytes[4..6], &[0x0C, 0x01]);
    // payload nonce, then zero padding up to offset 32
    assert_eq!(&bytes[6..26], &[0x44; 20][..]);
    assert_eq!(&bytes[26..32], &[0; 6][..]);
    // slot 0 populated, slots 1-3 zero
    assert_eq!(&bytes[32..34], &[0xDF, 0xB5]);
    assert_eq!(&bytes[128..416], &[0u8; 288][..]);
}

#[test]
fn header_round_trips_through_bytes() {
    for (algorithm, mode) in [
        (Algorithm::XChaCha20Poly1305, Mode::MemoryMode),
        (Algorithm::XChaCha20Poly1305, Mode::StreamMode),
        (Algorithm::Aes256GcmSiv, Mode::MemoryMode),
        (Algorithm::Aes256GcmSiv, Mode::StreamMode),
    ] {
        for slots in 0..=4 {
            let header = sample_header(algorithm, mode, slots);
            let bytes = header.serialize().unwrap();
            let (parsed, aad) = Header::deserialize(&bytes).unwrap();
            assert_eq!(aad, &bytes[0..32]);
            assert_eq!(parsed.header_type, header.header_type);
            assert_eq!(parsed.nonce, header.nonce);
            let reserialized = parsed.serialize().unwrap();
            assert_eq!(reserialized, bytes, "serialize(deserialize(bytes)) == bytes");
        }
    }
}

#[test]
fn create_aad_is_serialized_prefix() {
    let header = sample_header(Algorithm::Aes256GcmSiv, Mode::MemoryMode, 2);
    let bytes = header.serialize().unwrap();
    let aad = header.create_aad().unwrap();
    assert_eq!(aad.len(), 32);
    assert_eq!(aad, &bytes[0..32]);
}

#[test]
fn truncated_header_is_rejected() {
    assert_eq!(Header::deserialize(&[]).unwrap_err(), CoreError::HeaderTruncated);
    assert_eq!(Header::deserialize(&[0xDE]).unwrap_err(), CoreError::HeaderTruncated);
    let header = sample_header(Algorithm::XChaCha20Poly1305, Mode::MemoryMode, 1);
    let bytes = header.serialize().unwrap();
    assert_eq!(
        Header::deserialize(&bytes[..415]).unwrap_err(),
        CoreError::HeaderTruncated
    );
}

#[test]
fn bad_tags_are_rejected() {
    let header = sample_header(Algorithm::XChaCha20Poly1305, Mode::MemoryMode, 1);
    let bytes = header.serialize().unwrap();

    let mut bad_version = bytes.clone();
    bad_version[0] = 0xDD;
    assert_eq!(
        Header::deserialize(&bad_version).unwrap_err(),
        CoreError::HeaderBadVersion
    );

    let mut bad_algo = bytes.clone();
    bad_algo[3] = 0x07;
    assert_eq!(Header::deserialize(&bad_algo).unwrap_err(), CoreError::HeaderBadAlgo);

    let mut bad_mode = bytes.clone();
    bad_mode[5] = 0x07;
    assert_eq!(Header::deserialize(&bad_mode).unwrap_err(), CoreError::HeaderBadMode);

    let mut bad_slot = bytes.clone();
    bad_slot[33] = 0xB4;
    assert_eq!(
        Header::deserialize(&bad_slot).unwrap_err(),
        CoreError::HeaderBadSlotTag
    );
}

#[test]
fn every_tag_bit_flip_is_rejected() {
    // Flipping any single bit of the six tag bytes must make the
    // envelope unparseable.
    let header = sample_header(Algorithm::XChaCha20Poly1305, Mode::StreamMode, 1);
    let bytes = header.serialize().unwrap();
    for bit in 0..48 {
        let mut flipped = bytes.clone();
        flipped[bit / 8] ^= 1 << (bit % 8);
        assert!(
            Header::deserialize(&flipped).is_err(),
            "flip of bit {} parsed",
            bit
        );
    }
}

#[test]
fn empty_slot_regions_are_skipped() {
    // A header with zero populated slots parses successfully.
    let header = sample_header(Algorithm::XChaCha20Poly1305, Mode::MemoryMode, 0);
    let bytes = header.serialize().unwrap();
    assert_eq!(&bytes[32..416], &[0u8; 384][..]);
    let (parsed, _) = Header::deserialize(&bytes).unwrap();
    assert_eq!(parsed.keyslots.as_ref().unwrap().len(), 0);
}

#[test]
fn keyslot_serialize_tags() {
    let slot = Keyslot {
        hash_algorithm: HashingAlgorithm::Blake3Balloon(5),
        encrypted_key: [0; 48],
        nonce: vec![0; 24],
        salt: [0; 16],
    };
    assert_eq!(slot.serialize(), [0xDF, 0xB5]);
    let odd = Keyslot {
        hash_algorithm: HashingAlgorithm::Blake3Balloon(4),
        encrypted_key: [0; 48],
        nonce: vec![0; 24],
        salt: [0; 16],
    };
    assert_eq!(odd.serialize(), [0x00, 0x00]);
}
