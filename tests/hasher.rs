use auth_core::hasher::{net_prehash, prehash_with_salt, storage_hash_with_salt, verify_storage};

#[test]
fn prehash_is_lowercase_hex_of_32_bytes() {
    let p = prehash_with_salt("Secret1", b"saltsalt").unwrap();
    assert_eq!(p.len(), 64);
    assert!(p.chars().all(|c| c.is_ascii_digit() || ('a'..='f').contains(&c)));
    assert_ne!(p, "Secret1");
}

#[test]
fn prehash_matches_argon2_raw_hex() {
    let raw = argon2::hash_raw(b"Secret1", b"saltsalt", &argon2::Config::default()).unwrap();
    let expected: String = raw.iter().map(|b| format!("{:02x}", b)).collect();
    assert_eq!(prehash_with_salt("Secret1", b"saltsalt").unwrap(), expected);
}

#[test]
fn prehash_rejects_short_salt() {
    assert!(matches!(
        prehash_with_salt("Secret1", b"short"),
        Err(auth_core::error::AuthError::Hash(_))
    ));
}

#[test]
fn net_prehash_is_deterministic() {
    let a = net_prehash("Secret1").unwrap();
    let b = net_prehash("Secret1").unwrap();
    let c = net_prehash("Secret2").unwrap();
    assert_eq!(a, b);
    assert_ne!(a, c);
}

#[test]
fn storage_hash_verifies_only_its_password() {
    let salt = [7u8; 16];
    let stored = storage_hash_with_salt("prehashed", &salt).unwrap();
    assert!(stored.starts_with("$argon2id$"));
    assert!(verify_storage(&stored, "prehashed"));
    assert!(!verify_storage(&stored, "other"));
}

#[test]
fn malformed_stored_hash_never_verifies() {
    assert!(!verify_storage("not a hash", "prehashed"));
    assert!(!verify_storage("", ""));
}
