use dexios_core::balloon::{
    hash_password, hash_password_secure, hash_password_with_params, verify_password, Params,
    Version, HASH_SIZE, SALT_SIZE,
};

#[test]
fn test_hash_consistency() {
    // Test that the same input always produces the same output
    let password = b"test password 123!@#";
    let salt = [0x42; SALT_SIZE];

    let hash1 = hash_password(password, &salt, Version::V1).unwrap();
    let hash2 = hash_password(password, &salt, Version::V1).unwrap();

    assert_eq!(hash1, hash2, "Hash should be deterministic");
}

#[test]
fn test_different_passwords() {
    let salt = [0x42; SALT_SIZE];

    let hash1 = hash_password(b"password1", &salt, Version::V1).unwrap();
    let hash2 = hash_password(b"password2", &salt, Version::V1).unwrap();

    assert_ne!(hash1, hash2, "Different passwords should produce different hashes");
}

#[test]
fn test_different_salts() {
    let password = b"same password";
    let salt1 = [0x01; SALT_SIZE];
    let salt2 = [0x02; SALT_SIZE];

    let hash1 = hash_password(password, &salt1, Version::V1).unwrap();
    let hash2 = hash_password(password, &salt2, Version::V1).unwrap();

    assert_ne!(hash1, hash2, "Different salts should produce different hashes");
}

#[test]
fn test_verify_correct_password() {
    let password = b"correct horse battery staple";
    let salt = [0x42; SALT_SIZE];

    let hash = hash_password(password, &salt, Version::V1).unwrap();

    assert!(
        verify_password(password, &salt, &hash, Version::V1).unwrap(),
        "Should verify correct password"
    );
}

#[test]
fn test_verify_wrong_password() {
    let password = b"correct horse battery staple";
    let wrong_password = b"incorrect horse battery staple";
    let salt = [0x42; SALT_SIZE];

    let hash = hash_password(password, &salt, Version::V1).unwrap();

    assert!(
        !verify_password(wrong_password, &salt, &hash, Version::V1).unwrap(),
        "Should not verify wrong password"
    );
}

#[test]
fn test_custom_params() {
    let password = b"test with custom params";
    let salt = [0x42; SALT_SIZE];

    // Test with different parameter configurations
    let params1 = Params::new(1024, 1, 1).unwrap();
    let params2 = Params::new(2048, 2, 1).unwrap();

    let hash1 = hash_password_with_params(password, &salt, params1).unwrap();
    let hash2 = hash_password_with_params(password, &salt, params2).unwrap();

    assert_ne!(hash1, hash2, "Different parameters should produce different hashes");
}

#[test]
fn test_invalid_params() {
    assert!(Params::new(0, 1, 1).is_err(), "Space cost of 0 should be invalid");
    assert!(Params::new(1, 0, 1).is_err(), "Time cost of 0 should be invalid");
    assert!(Params::new(1, 1, 0).is_err(), "Parallelism of 0 should be invalid");
}

#[test]
fn test_hash_secure() {
    let password = "secure password".to_string().into_bytes();
    let salt = [0x42; SALT_SIZE];

    let hash = hash_password_secure(password.clone(), &salt, Version::V1).unwrap();

    // Verify the hash is correct
    assert!(
        verify_password(&password, &salt, &hash, Version::V1).unwrap(),
        "Secure hash should verify correctly"
    );
}

#[test]
fn test_known_vector() {
    // Test against a known hash value to ensure consistency across versions
    let password = b"password";
    let salt = [0u8; SALT_SIZE];

    let hash = hash_password(password, &salt, Version::V1).unwrap();

    // This is just to print the hash for documentation
    println!("Hash for 'password' with zero salt: {:?}", hash);

    // The hash should always be 32 bytes
    assert_eq!(hash.len(), HASH_SIZE);
}

#[test]
fn test_empty_password() {
    let password = b"";
    let salt = [0x42; SALT_SIZE];

    let hash = hash_password(password, &salt, Version::V1).unwrap();
    assert_eq!(hash.len(), HASH_SIZE);

    assert!(
        verify_password(password, &salt, &hash, Version::V1).unwrap(),
        "Empty password should verify correctly"
    );
}

#[test]
fn test_long_password() {
    let password = b"This is a very long password that exceeds typical password lengths. \
                    It contains multiple sentences and should still hash correctly without \
                    any issues. The balloon hashing algorithm should handle arbitrary length \
                    inputs gracefully.";
    let salt = [0x42; SALT_SIZE];

    let hash = hash_password(password, &salt, Version::V1).unwrap();
    assert_eq!(hash.len(), HASH_SIZE);

    assert!(
        verify_password(password, &salt, &hash, Version::V1).unwrap(),
        "Long password should verify correctly"
    );
}

#[test]
fn test_unicode_password() {
    let password = "пароль密码🔐".as_bytes();
    let salt = [0x42; SALT_SIZE];

    let hash = hash_password(password, &salt, Version::V1).unwrap();
    assert_eq!(hash.len(), HASH_SIZE);

    assert!(
        verify_password(password, &salt, &hash, Version::V1).unwrap(),
        "Unicode password should verify correctly"
    );
}

#[test]
fn test_constant_time_verification() {
    let password = b"password";
    let salt = [0x42; SALT_SIZE];
    let hash = hash_password(password, &salt, Version::V1).unwrap();

    // Test with correct hash
    assert!(verify_password(password, &salt, &hash, Version::V1).unwrap());

    // Test with slightly modified hash (should use constant-time comparison)
    let mut wrong_hash = hash;
    wrong_hash[0] ^= 0x01;
    assert!(!verify_password(password, &salt, &wrong_hash, Version::V1).unwrap());
}

#[test]
fn test_generate_salt() {
    let salt1 = dexios_core::salt::generate_salt();
    let salt2 = dexios_core::salt::generate_salt();

    assert_eq!(salt1.len(), SALT_SIZE);
    assert_eq!(salt2.len(), SALT_SIZE);
    assert_ne!(salt1, salt2, "Generated salts should be different");
}

#[test]
fn test_version_enum() {
    // Test Version enum functionality
    assert_eq!(Version::V1, Version::V1);
    assert_ne!(Version::V1, Version::Custom);

    // Test that V1 params can be created
    assert!(Version::V1.params().is_ok());

    // Test that Custom version requires explicit params
    assert!(Version::Custom.params().is_err());
}

#[test]
fn test_pinned_vector() {
    // The pinned reproducibility vector: this exact secret and a zero
    // salt must derive this 32-byte key on every run and machine.
    let hash = hash_password(b"my-secure-password", &[0u8; SALT_SIZE], Version::V1).unwrap();
    assert_eq!(
        hash,
        [
            56, 36, 172, 44, 12, 123, 104, 131, 213, 200, 252, 205, 70, 93, 147, 62, 16, 183,
            192, 144, 45, 232, 26, 176, 89, 12, 118, 227, 196, 191, 40, 196
        ]
    );
}
