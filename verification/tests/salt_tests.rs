use dexios_core::salt::{generate_salt, generate_salts, salt_from_hex, salt_to_hex};

#[test]
fn test_salt_hex_roundtrip() {
    let original_salt = [
        0x01, 0x23, 0x45, 0x67, 0x89, 0xab, 0xcd, 0xef,
        0xfe, 0xdc, 0xba, 0x98, 0x76, 0x54, 0x32, 0x10,
    ];

    let hex = salt_to_hex(&original_salt);
    let recovered_salt = salt_from_hex(&hex).unwrap();

    assert_eq!(original_salt, recovered_salt);
}

#[test]
fn test_salt_from_hex_invalid_length() {
    let result = salt_from_hex("too_short");
    assert!(result.is_err());
    assert!(result.unwrap_err().contains("Invalid hex string length"));
}

#[test]
fn test_salt_from_hex_invalid_characters() {
    let invalid_hex = "0123456789abcdefgggggggggggggggg";
    let result = salt_from_hex(invalid_hex);
    assert!(result.is_err());
}

#[test]
fn test_generate_salt_uniqueness() {
    let salt1 = generate_salt();
    let salt2 = generate_salt();

    // While theoretically possible, the probability of generating
    // the same salt twice is astronomically low
    assert_ne!(salt1, salt2);
}

#[test]
fn test_generate_salts() {
    let salts = generate_salts(5);
    assert_eq!(salts.len(), 5);

    // Check that all salts are different
    for i in 0..salts.len() {
        for j in (i + 1)..salts.len() {
            assert_ne!(salts[i], salts[j]);
        }
    }
}

#[test]
fn test_salt_to_hex_known_value() {
    let salt = [
        0x01, 0x23, 0x45, 0x67, 0x89, 0xab, 0xcd, 0xef,
        0x01, 0x23, 0x45, 0x67, 0x89, 0xab, 0xcd, 0xef,
    ];
    assert_eq!(salt_to_hex(&salt), "0123456789abcdef0123456789abcdef");
}

#[test]
fn test_salt_from_hex_uppercase() {
    let salt = salt_from_hex("0123456789ABCDEF0123456789ABCDEF").unwrap();
    assert_eq!(
        salt,
        [0x01, 0x23, 0x45, 0x67, 0x89, 0xab, 0xcd, 0xef,
         0x01, 0x23, 0x45, 0x67, 0x89, 0xab, 0xcd, 0xef]
    );
}
