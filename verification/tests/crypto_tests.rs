use authcore::crypto::{
    decrypt_national_id, encrypt_decrypt_round_trip, encrypt_national_id, generate_secure_token,
    hash_national_id, hex_decode,
};
use sha2::{Digest, Sha256};
use authcore::errors::AuthError;

const KEY: [u8; 32] = [7u8; 32];

#[test]
fn encrypt_then_decrypt_returns_the_original() {
    for value in ["", "x", "1234567890123", "a national id with spaces"] {
        let blob = encrypt_national_id(value, &KEY).unwrap();
        assert!(blob.len() >= 28);
        let back = decrypt_national_id(blob.as_slice(), &KEY).unwrap();
        assert_eq!(back, value);
    }
}

#[test]
fn flipping_any_byte_fails_decryption() {
    let value = "1234567890123";
    let blob = encrypt_national_id(value, &KEY).unwrap();
    for i in 0..blob.len() {
        let mut corrupted = blob.clone();
        corrupted[i] ^= 0x01;
        let r = decrypt_national_id(corrupted.as_slice(), &KEY);
        assert_eq!(r.unwrap_err(), AuthError::Integrity);
    }
}

#[test]
fn truncated_blob_fails_with_integrity_error() {
    let blob = encrypt_national_id("secret", &KEY).unwrap();
    for len in 0..12 {
        let r = decrypt_national_id(&blob[..len], &KEY);
        assert_eq!(r.unwrap_err(), AuthError::Integrity);
    }
    // dropping the tag fails too
    let r = decrypt_national_id(&blob[..blob.len() - 1], &KEY);
    assert!(r.is_err());
}

#[test]
fn wrong_key_fails_decryption() {
    let blob = encrypt_national_id("secret", &KEY).unwrap();
    let other: [u8; 32] = [8u8; 32];
    assert!(decrypt_national_id(blob.as_slice(), &other).is_err());
}

#[test]
fn two_encryptions_of_one_value_differ() {
    // the nonce is drawn fresh per call
    let a = encrypt_national_id("same value", &KEY).unwrap();
    let b = encrypt_national_id("same value", &KEY).unwrap();
    assert_ne!(a, b);
}

#[test]
fn lookup_hash_is_deterministic_per_salt() {
    let a = hash_national_id("1234567890123", "demo_salt");
    let b = hash_national_id("1234567890123", "demo_salt");
    assert_eq!(a, b);
    assert_eq!(a.len(), 64);
    assert!(a.chars().all(|c| c.is_ascii_hexdigit() && !c.is_ascii_uppercase()));
    // a different salt prevents cross-tenant correlation
    let c = hash_national_id("1234567890123", "other_salt");
    assert_ne!(a, c);
    // a different value gives a different key
    let d = hash_national_id("9876543210987", "demo_salt");
    assert_ne!(a, d);
}

#[test]
fn lookup_hash_matches_sha256_of_salt_then_value() {
    let mut hasher = Sha256::new();
    hasher.update("demo_salt".as_bytes());
    hasher.update("1234567890123".as_bytes());
    let expected = hex::encode(hasher.finalize());
    assert_eq!(hash_national_id("1234567890123", "demo_salt"), expected);
}

#[test]
fn secure_tokens_are_url_safe_and_distinct() {
    let a = generate_secure_token();
    let b = generate_secure_token();
    assert_eq!(a.len(), 43);
    assert_eq!(b.len(), 43);
    assert_ne!(a, b);
    assert!(a
        .chars()
        .all(|c| c.is_ascii_alphanumeric() || c == '-' || c == '_'));
}

#[test]
fn hex_decoding_round_trips_and_rejects_junk() {
    let bytes = hex_decode("00ff10Ab").unwrap();
    assert_eq!(bytes, vec![0x00, 0xff, 0x10, 0xab]);
    assert!(hex_decode("0").is_none());
    assert!(hex_decode("zz").is_none());
    assert!(hex_decode("0g").is_none());
    assert_eq!(hex_decode("").unwrap(), Vec::<u8>::new());
}

#[test]
fn round_trip_composition_returns_the_input() {
    for value in ["", "STD-650123", "unicode: émile"] {
        assert_eq!(encrypt_decrypt_round_trip(value, &KEY).unwrap(), value);
    }
}
