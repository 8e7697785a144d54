use dexios_core::decrypt::decrypt;
use dexios_core::error::CoreError;
use dexios_core::header::{Header, HashingAlgorithm, HeaderVersion};
use dexios_core::primitives::{Algorithm, Mode};
use dexios_core::protected::Protected;

/// A pinned envelope: a packed directory sealed in stream mode with
/// XChaCha20-Poly1305.  The 416-byte envelope is followed by 822 bytes
/// of stream ciphertext: one terminal block holding 806 plaintext
/// bytes.  The password that unlocks the slot is not among the given
/// sources, so the structural facts and the failure path are pinned
/// here.
const ENCRYPTED_PACKED_BAR_DIR: [u8; 1238] = [
    222, 5, 14, 1, 12, 1, 173, 240, 60, 45, 230, 243, 58, 160, 69, 50,
    217, 192, 66, 223, 124, 190, 148, 91, 92, 129, 0, 0, 0, 0, 0, 0,
    223, 181, 95, 105, 185, 21, 162, 109, 60, 146, 157, 42, 115, 68, 158, 213,
    228, 100, 101, 63, 45, 205, 234, 143, 110, 91, 80, 242, 88, 136, 65, 165,
    70, 4, 102, 72, 89, 122, 202, 166, 50, 25, 235, 133, 151, 252, 132, 7,
    224, 16, 173, 240, 60, 45, 230, 243, 58, 160, 69, 50, 217, 192, 66, 223,
    124, 190, 148, 91, 92, 129, 50, 126, 110, 254, 58, 206, 16, 183, 233, 128,
    23, 223, 81, 30, 214, 132, 32, 104, 51, 119, 0, 0, 0, 0, 0, 0,
    0, 0, 0, 0, 0, 0, 0, 0, 0, 0, 0, 0, 0, 0, 0, 0,
    0, 0, 0, 0, 0, 0, 0, 0, 0, 0, 0, 0, 0, 0, 0, 0,
    0, 0, 0, 0, 0, 0, 0, 0, 0, 0, 0, 0, 0, 0, 0, 0,
    0, 0, 0, 0, 0, 0, 0, 0, 0, 0, 0, 0, 0, 0, 0, 0,
    0, 0, 0, 0, 0, 0, 0, 0, 0, 0, 0, 0, 0, 0, 0, 0,
    0, 0, 0, 0, 0, 0, 0, 0, 0, 0, 0, 0, 0, 0, 0, 0,
    0, 0, 0, 0, 0, 0, 0, 0, 0, 0, 0, 0, 0, 0, 0, 0,
    0, 0, 0, 0, 0, 0, 0, 0, 0, 0, 0, 0, 0, 0, 0, 0,
    0, 0, 0, 0, 0, 0, 0, 0, 0, 0, 0, 0, 0, 0, 0, 0,
    0, 0, 0, 0, 0, 0, 0, 0, 0, 0, 0, 0, 0, 0, 0, 0,
    0, 0, 0, 0, 0, 0, 0, 0, 0, 0, 0, 0, 0, 0, 0, 0,
    0, 0, 0, 0, 0, 0, 0, 0, 0, 0, 0, 0, 0, 0, 0, 0,
    0, 0, 0, 0, 0, 0, 0, 0, 0, 0, 0, 0, 0, 0, 0, 0,
    0, 0, 0, 0, 0, 0, 0, 0, 0, 0, 0, 0, 0, 0, 0, 0,
    0, 0, 0, 0, 0, 0, 0, 0, 0, 0, 0, 0, 0, 0, 0, 0,
    0, 0, 0, 0, 0, 0, 0, 0, 0, 0, 0, 0, 0, 0, 0, 0,
    0, 0, 0, 0, 0, 0, 0, 0, 0, 0, 0, 0, 0, 0, 0, 0,
    0, 0, 0, 0, 0, 0, 0, 0, 0, 0, 0, 0, 0, 0, 0, 0,
    22, 64, 6, 177, 49, 139, 218, 8, 121, 228, 19, 5, 8, 117, 33, 131,
    131, 70, 76, 147, 108, 49, 191, 191, 127, 223, 64, 127, 248, 65, 201, 130,
    166, 129, 195, 245, 241, 188, 143, 148, 191, 86, 7, 102, 124, 253, 12, 44,
    172, 79, 236, 207, 68, 229, 117, 49, 250, 55, 6, 48, 86, 48, 244, 189,
    137, 27, 142, 241, 44, 118, 35, 5, 138, 237, 47, 248, 108, 30, 224, 42,
    91, 16, 216, 14, 235, 132, 33, 123, 83, 188, 196, 205, 18, 71, 152, 231,
    231, 127, 182, 29, 156, 157, 203, 178, 178, 3, 216, 51, 84, 28, 67, 91,
    255, 14, 124, 180, 131, 80, 48, 27, 111, 158, 39, 127, 37, 231, 111, 82,
    132, 168, 253, 149, 230, 199, 161, 78, 6, 175, 98, 210, 9, 25, 145, 199,
    151, 38, 142, 199, 217, 35, 247, 168, 73, 138, 94, 175, 45, 0, 184, 252,
    55, 250, 19, 8, 79, 247, 38, 230, 133, 143, 66, 27, 69, 107, 183, 201,
    238, 81, 114, 131, 123, 165, 158, 100, 29, 248, 12, 166, 50, 33, 70, 105,
    92, 159, 60, 63, 31, 5, 119, 237, 139, 105, 153, 217, 119, 120, 66, 252,
    18, 136, 252, 159, 3, 91, 154, 224, 242, 67, 250, 8, 191, 116, 37, 78,
    126, 67, 93, 234, 5, 15, 138, 251, 119, 65, 89, 234, 83, 255, 173, 78,
    9, 221, 29, 183, 161, 18, 138, 228, 195, 95, 64, 24, 49, 236, 165, 29,
    82, 186, 33, 153, 78, 74, 1, 59, 21, 198, 222, 202, 186, 1, 104, 12,
    161, 233, 243, 75, 245, 100, 12, 109, 109, 2, 136, 140, 9, 100, 162, 17,
    154, 208, 241, 177, 80, 135, 121, 200, 76, 196, 20, 117, 31, 210, 97, 0,
    160, 6, 214, 226, 122, 59, 26, 53, 62, 80, 187, 9, 225, 123, 109, 7,
    127, 110, 19, 121, 45, 35, 48, 127, 94, 41, 23, 207, 183, 237, 160, 192,
    158, 223, 99, 116, 245, 161, 147, 168, 60, 71, 83, 237, 235, 98, 22, 15,
    177, 134, 234, 233, 118, 241, 206, 88, 245, 75, 172, 221, 246, 191, 138, 42,
    134, 176, 191, 14, 74, 113, 180, 207, 83, 93, 119, 53, 161, 120, 152, 190,
    205, 64, 167, 17, 30, 217, 212, 85, 148, 247, 235, 104, 232, 114, 61, 36,
    60, 157, 60, 216, 78, 215, 134, 255, 7, 46, 191, 119, 60, 168, 202, 24,
    239, 147, 82, 143, 31, 207, 178, 98, 180, 243, 242, 222, 129, 88, 34, 31,
    117, 254, 16, 111, 108, 22, 18, 212, 122, 89, 94, 14, 138, 6, 237, 157,
    223, 149, 250, 55, 30, 221, 69, 1, 215, 170, 76, 149, 163, 241, 212, 217,
    131, 179, 34, 240, 124, 224, 192, 105, 207, 191, 172, 211, 100, 169, 146, 202,
    241, 29, 0, 125, 255, 130, 112, 171, 253, 22, 39, 56, 175, 188, 62, 158,
    202, 194, 227, 218, 5, 202, 25, 238, 242, 81, 208, 57, 146, 57, 147, 151,
    153, 112, 215, 255, 199, 163, 138, 114, 64, 179, 80, 78, 189, 93, 227, 37,
    247, 24, 127, 84, 231, 85, 82, 44, 243, 241, 70, 73, 178, 228, 31, 229,
    105, 144, 10, 17, 124, 3, 46, 67, 196, 116, 1, 234, 241, 0, 236, 97,
    64, 129, 172, 19, 68, 179, 222, 218, 22, 148, 73, 198, 5, 210, 18, 201,
    78, 114, 248, 228, 195, 217, 161, 143, 164, 98, 42, 120, 178, 223, 130, 172,
    28, 76, 157, 85, 119, 72, 10, 252, 243, 202, 40, 216, 0, 10, 9, 100,
    125, 64, 165, 252, 179, 141, 138, 202, 202, 138, 101, 144, 175, 255, 147, 140,
    110, 189, 21, 122, 57, 11, 120, 113, 203, 188, 73, 225, 95, 191, 244, 128,
    170, 128, 98, 206, 24, 141, 126, 81, 222, 74, 87, 225, 178, 83, 138, 105,
    239, 23, 46, 135, 223, 25, 201, 159, 10, 95, 29, 67, 76, 56, 165, 162,
    190, 193, 226, 248, 226, 79, 190, 190, 36, 75, 202, 151, 245, 53, 161, 47,
    37, 229, 204, 138, 63, 35, 88, 87, 84, 199, 40, 113, 140, 68, 174, 3,
    199, 156, 177, 217, 235, 212, 155, 143, 237, 103, 227, 169, 255, 153, 112, 51,
    56, 117, 221, 216, 117, 158, 89, 221, 67, 47, 182, 99, 185, 226, 237, 190,
    114, 216, 237, 93, 245, 153, 19, 225, 7, 221, 187, 185, 20, 74, 146, 101,
    196, 169, 13, 137, 138, 175, 128, 102, 79, 62, 0, 229, 197, 54, 99, 26,
    231, 98, 88, 22, 226, 77, 56, 202, 19, 220, 127, 122, 174, 117, 196, 130,
    28, 156, 40, 132, 23, 59, 194, 139, 172, 67, 41, 175, 244, 10, 45, 21,
    47, 242, 104, 103, 92, 233, 97, 233, 148, 197, 106, 101, 160, 144, 69, 51,
    198, 17, 13, 126, 195, 149,
];

#[test]
fn pinned_envelope_parses_with_expected_fields() {
    let (header, aad) = Header::deserialize(&ENCRYPTED_PACKED_BAR_DIR).unwrap();
    assert_eq!(header.header_type.version, HeaderVersion::V5);
    assert_eq!(header.header_type.algorithm, Algorithm::XChaCha20Poly1305);
    assert_eq!(header.header_type.mode, Mode::StreamMode);
    assert_eq!(header.nonce, &ENCRYPTED_PACKED_BAR_DIR[6..26]);
    assert_eq!(aad, &ENCRYPTED_PACKED_BAR_DIR[0..32]);

    let slots = header.keyslots.as_ref().unwrap();
    assert_eq!(slots.len(), 1);
    assert_eq!(slots[0].hash_algorithm, HashingAlgorithm::Blake3Balloon(5));
    assert_eq!(&slots[0].encrypted_key[..], &ENCRYPTED_PACKED_BAR_DIR[34..82]);
    assert_eq!(&slots[0].nonce[..], &ENCRYPTED_PACKED_BAR_DIR[82..106]);
    assert_eq!(&slots[0].salt[..], &ENCRYPTED_PACKED_BAR_DIR[106..122]);

    // 822 ciphertext bytes: a single terminal stream block of 806
    // plaintext bytes plus its 16-byte tag.
    assert_eq!(ENCRYPTED_PACKED_BAR_DIR.len() - 416, 822);

    // The envelope serializes back to its own bytes.
    let reserialized = header.serialize().unwrap();
    assert_eq!(reserialized, &ENCRYPTED_PACKED_BAR_DIR[..416]);
}

#[test]
fn pinned_envelope_rejects_a_wrong_password() {
    let (header, aad) = Header::deserialize(&ENCRYPTED_PACKED_BAR_DIR).unwrap();
    let ciphertext = &ENCRYPTED_PACKED_BAR_DIR[416..];
    let err = decrypt(
        &header,
        &aad,
        ciphertext,
        Protected::new(b"not the pinned password".to_vec()),
    )
    .unwrap_err();
    assert_eq!(err, CoreError::NoMatchingKey);
}
