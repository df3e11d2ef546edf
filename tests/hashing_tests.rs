use crypto_analyzer::hashing::{
    batch_hash_passwords, distinct_passwords, encode_digest, hash_or_sentinel, hash_password,
    hash_password_sha1, hash_password_with_salt, verify_password_hash, HashingError,
    ERROR_SENTINEL,
};

#[test]
fn hash_then_verify_round_trip() {
    for p in ["", "hunter2", "a\u{1}b\u{0}c", "pässwörd✓"] {
        let h = hash_password(p.to_string()).unwrap();
        assert!(h.starts_with("$argon2id$"));
        assert!(verify_password_hash(p.to_string(), h.clone()));
        let other = hash_password(format!("{}x", p)).unwrap();
        assert!(!verify_password_hash(p.to_string(), other));
    }
}

#[test]
fn verify_malformed_hash_is_false() {
    assert!(!verify_password_hash("password".to_string(), "not-a-valid-hash-string".to_string()));
    assert!(!verify_password_hash("".to_string(), "".to_string()));
    assert!(!verify_password_hash("x".to_string(), "$argon2id$garbage".to_string()));
}

#[test]
fn hash_with_fixed_salt_is_deterministic() {
    let a = hash_password_with_salt("secret", "c29tZXNhbHQxMjM0NTY").unwrap();
    let b = hash_password_with_salt("secret", "c29tZXNhbHQxMjM0NTY").unwrap();
    assert_eq!(a, b);
    assert!(a.contains("c29tZXNhbHQxMjM0NTY"));
    assert!(verify_password_hash("secret".to_string(), a));
}

#[test]
fn hash_with_invalid_salt_fails() {
    assert_eq!(hash_password_with_salt("secret", "!"), Err(HashingError::HashFailed));
}

#[test]
fn salts_differ_between_calls() {
    let a = hash_password("same".to_string()).unwrap();
    let b = hash_password("same".to_string()).unwrap();
    assert_ne!(a, b);
}

#[test]
fn batch_collapses_duplicates() {
    let r = batch_hash_passwords(vec!["p".to_string(), "p".to_string()]);
    assert_eq!(r.len(), 1);
    assert_eq!(r[0].0, "p");
    assert!(verify_password_hash("p".to_string(), r[0].1.clone()));
}

#[test]
fn batch_one_entry_per_distinct_password() {
    let r = batch_hash_passwords(vec!["a".to_string(), "b".to_string(), "a".to_string()]);
    let keys: Vec<&str> = r.iter().map(|e| e.0.as_str()).collect();
    assert_eq!(keys, vec!["a", "b"]);
    assert!(batch_hash_passwords(vec![]).is_empty());
}

#[test]
fn sentinel_or_hash() {
    let h = hash_or_sentinel(&"pw".to_string());
    assert_ne!(h, ERROR_SENTINEL);
    assert!(verify_password_hash("pw".to_string(), h));
}

#[test]
fn sha1_golden_value() {
    assert_eq!(
        hash_password_sha1("password".to_string()),
        "5BAA61E4C9B93F3F0682250B6CF8331B7EE68FD8"
    );
    assert_eq!(
        hash_password_sha1("".to_string()),
        "DA39A3EE5E6B4B0D3255BFEF95601890AFD80709"
    );
}

#[test]
fn digest_encoding_upper_hex() {
    assert_eq!(encode_digest(&vec![0x00, 0xab, 0x0f, 0xff]), "00AB0FFF");
    assert_eq!(encode_digest(&vec![]), "");
}

#[test]
fn distinct_passwords_keep_first_appearance() {
    let d = distinct_passwords(&vec![
        "b".to_string(),
        "a".to_string(),
        "b".to_string(),
        "".to_string(),
        "a".to_string(),
    ]);
    assert_eq!(d, vec!["b".to_string(), "a".to_string(), "".to_string()]);
}

#[test]
fn empty_password_hashes_without_sentinel() {
    let h = hash_or_sentinel(&String::new());
    assert_ne!(h, ERROR_SENTINEL);
    assert!(h.starts_with('$'));
    assert!(verify_password_hash(String::new(), h));
}
