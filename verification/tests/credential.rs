use hrm_system::credential::{hash_password, verify_password};

#[test]
fn a_password_verifies_against_its_own_digest() {
    for p in ["admin123", "x", "pass word", "päss\u{1F512}", "longer password with spaces"] {
        let digest = hash_password(p);
        assert!(verify_password(p, &digest));
    }
}

#[test]
fn a_digest_rejects_every_other_password() {
    let digest = hash_password("secret");
    for other in ["Secret", "secret ", " secret", "secre", "secrets", "", "admin123"] {
        assert!(!verify_password(other, &digest));
    }
}

#[test]
fn the_empty_password_round_trips_too() {
    let digest = hash_password("");
    assert!(verify_password("", &digest));
    assert!(!verify_password("a", &digest));
}

#[test]
fn hashing_is_deterministic() {
    assert_eq!(hash_password("abc"), hash_password("abc"));
    assert_ne!(hash_password("abc"), hash_password("abd"));
}

#[test]
fn digests_never_equal_the_password() {
    let digest = hash_password("admin123");
    assert_ne!(digest, "admin123");
    assert!(!digest.is_empty());
}
