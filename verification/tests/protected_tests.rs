use dexios_core::protected::{protected_bytes, protected_string, Protected};

#[test]
fn protected_round_trips_the_value() {
    let secret = Protected::new(b"sensitive".to_vec());
    assert_eq!(secret.expose().as_slice(), b"sensitive");
    let inner = secret.into_inner();
    assert_eq!(inner, b"sensitive".to_vec());
}

#[test]
fn protected_clone_is_independent() {
    let secret = Protected::new(b"duplicated".to_vec());
    let copy = secret.clone();
    drop(secret);
    assert_eq!(copy.expose().as_slice(), b"duplicated");
}

#[test]
fn protected_renders_redacted() {
    let secret = Protected::new(b"hidden".to_vec());
    assert_eq!(secret.redacted(), "[REDACTED]");
}

#[test]
fn protected_wipe_erases_in_place() {
    let mut secret = Protected::new(b"short lived".to_vec());
    secret.wipe();
    assert!(secret.expose().is_empty());
}

#[test]
fn protected_helpers_copy_their_input() {
    let from_bytes = protected_bytes(b"bytes");
    assert_eq!(from_bytes.expose().as_slice(), b"bytes");
    let from_string = protected_string("text");
    assert_eq!(from_string.expose(), "text");
}
