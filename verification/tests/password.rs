use service::crypto::password::{hash, try_verify, verify, ARGON2_DEFAULT_PREFIX};

#[test]
fn hashed_password_verifies_with_same_pepper() {
    let h = hash("hunter2", "pepper");
    assert!(h.starts_with("$argon2id$v=19$m=19456,t=2,p=1$"));
    assert!(h.starts_with(ARGON2_DEFAULT_PREFIX));
    assert!(verify("hunter2", &h, "pepper"));
}

#[test]
fn hashed_password_rejects_wrong_password_or_pepper() {
    let h = hash("hunter2", "pepper");
    assert!(!verify("hunter3", &h, "pepper"));
    assert!(!verify("hunter2", &h, "other pepper"));
}

#[test]
fn hashes_differ_by_salt() {
    let a = hash("same", "pepper");
    let b = hash("same", "pepper");
    assert_ne!(a, b);
    assert!(verify("same", &a, "pepper"));
    assert!(verify("same", &b, "pepper"));
}

#[test]
fn try_verify_reports_unreadable_hash() {
    assert_eq!(try_verify("x", "not a phc string", "pepper"), None);
    assert_eq!(try_verify("x", "", "pepper"), None);
    let h = hash("x", "pepper");
    assert_eq!(try_verify("x", &h, "pepper"), Some(true));
    assert_eq!(try_verify("y", &h, "pepper"), Some(false));
}
