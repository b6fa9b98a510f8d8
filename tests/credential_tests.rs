use financetracker::credential::{hash_password, hash_password_with_salt, verify_password};

#[test]
fn hashed_password_verifies() {
    let h = hash_password("bestPassword").unwrap();
    assert!(h.starts_with("$argon2id$"));
    assert!(verify_password("bestPassword", &h));
    assert!(!verify_password("wrongpassword", &h));
}

#[test]
fn two_hashes_of_one_password_differ_and_both_verify() {
    let a = hash_password("hunter2").unwrap();
    let b = hash_password("hunter2").unwrap();
    assert_ne!(a, b);
    assert!(verify_password("hunter2", &a));
    assert!(verify_password("hunter2", &b));
}

#[test]
fn hash_with_fixed_salt_is_deterministic() {
    let a = hash_password_with_salt("pw", "c2FsdHNhbHRzYWx0").unwrap();
    let b = hash_password_with_salt("pw", "c2FsdHNhbHRzYWx0").unwrap();
    assert_eq!(a, b);
    assert_ne!(a, "pw");
    assert!(a.contains("c2FsdHNhbHRzYWx0"));
}

#[test]
fn hash_with_invalid_salt_fails() {
    assert!(hash_password_with_salt("pw", "x").is_err());
}

#[test]
fn unparsable_stored_hash_fails_closed() {
    assert!(!verify_password("pw", "not a phc string"));
    assert!(!verify_password("pw", ""));
}
