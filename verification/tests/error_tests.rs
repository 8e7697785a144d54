use dexios_core::error::CoreError;

#[test]
fn decryption_failures_share_one_message() {
    // Authentication failures, wrong-key failures and corrupted-header
    // failures are indistinguishable at the boundary.
    let auth = CoreError::CipherAuth.message();
    assert_eq!(auth, CoreError::NoMatchingKey.message());
    assert_eq!(auth, CoreError::CipherInit.message());
    assert_eq!(auth, CoreError::HeaderBadVersion.message());
    assert_eq!(auth, CoreError::HeaderBadAlgo.message());
    assert_eq!(auth, CoreError::HeaderBadMode.message());
    assert_eq!(auth, CoreError::HeaderTruncated.message());
    assert_eq!(auth, CoreError::HeaderBadSlotTag.message());
    assert_eq!(auth, "cannot decrypt: wrong key or corrupted file");
}

#[test]
fn header_errors_are_distinct_variants() {
    assert_ne!(CoreError::HeaderBadVersion, CoreError::HeaderBadAlgo);
    assert_ne!(CoreError::HeaderBadMode, CoreError::HeaderTruncated);
    assert_ne!(CoreError::NoEmptySlot, CoreError::LastSlot);
}
