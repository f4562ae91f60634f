use ecommerce::errors::RepoError;
use ecommerce::hasher::{hex, unhex, ScryptHasher};
use ecommerce::ports::PasswordHasher;
use ecommerce::user::{Password, PasswordHash};

#[test]
fn a_password_verifies_against_its_own_hash() {
    let hasher = ScryptHasher::default();
    let password = Password::try_from("correct horse battery staple".to_owned())
        .expect("long enough for a test fixture");

    let hash = hasher.hash(&password).expect("hashing succeeds");
    assert!(hasher.verify(&password, &hash).expect("verify runs"));
}

#[test]
fn a_different_password_does_not_verify() {
    let hasher = ScryptHasher::default();
    let password = Password::try_from("correct horse battery staple".to_owned()).expect("valid");
    let other = Password::try_from("incorrect horse battery".to_owned()).expect("valid");

    let hash = hasher.hash(&password).expect("hashing succeeds");
    assert!(!hasher.verify(&other, &hash).expect("verify runs"));
}

#[test]
fn the_same_password_hashes_differently_each_time() {
    let hasher = ScryptHasher::default();
    let password = Password::try_from("correct horse battery".to_owned()).expect("valid");

    let first = hasher.hash(&password).expect("hashing succeeds");
    let second = hasher.hash(&password).expect("hashing succeeds");
    assert_ne!(first.as_ref(), second.as_ref());
}

// ---------------------------------------------------------------------------
// Further cases
// ---------------------------------------------------------------------------

#[test]
fn hex_is_two_lower_case_digits_per_byte() {
    assert_eq!(hex(&[]), "");
    assert_eq!(hex(&[0x00, 0x0f, 0xa5, 0xff]), "000fa5ff");
}

#[test]
fn unhex_reads_back_hex_and_refuses_bad_input() {
    assert_eq!(unhex("000fa5ff"), Some(vec![0x00, 0x0f, 0xa5, 0xff]));
    assert_eq!(unhex("A5"), Some(vec![0xa5]));
    assert_eq!(unhex(""), Some(vec![]));
    assert_eq!(unhex("abc"), None);
    assert_eq!(unhex("zz"), None);
    assert_eq!(unhex("é1"), None);
    let bytes: Vec<u8> = (0u8..=255).collect();
    assert_eq!(unhex(&hex(&bytes)), Some(bytes));
}

#[test]
fn a_stored_hash_is_salt_and_key_in_hex() {
    let hasher = ScryptHasher::default();
    let password = Password::try_from("correct horse battery".to_owned()).expect("valid");
    let hash = hasher.hash(&password).expect("hashing succeeds");
    let (salt, key) = hash.as_ref().split_once(':').expect("one colon");
    assert_eq!(salt.len(), 32);
    assert_eq!(key.len(), 64);
    assert!(unhex(salt).is_some() && unhex(key).is_some());
}

#[test]
fn hashing_with_a_given_salt_is_deterministic_and_verifies() {
    let hasher = ScryptHasher::default();
    let password = Password::try_from("correct horse battery".to_owned()).expect("valid");
    let salt = [7u8; 16];
    let first = hasher.hash_with_salt(&password, &salt).expect("hashing succeeds");
    let second = hasher.hash_with_salt(&password, &salt).expect("hashing succeeds");
    assert_eq!(first.as_ref(), second.as_ref());
    assert!(first.as_ref().starts_with("07070707070707070707070707070707:"));
    assert!(hasher.verify(&password, &first).expect("verify runs"));
}

#[test]
fn a_hash_without_a_colon_is_corrupt() {
    let hasher = ScryptHasher::default();
    let password = Password::try_from("correct horse battery".to_owned()).expect("valid");
    let stored = PasswordHash::try_new("00ff").expect("non-empty");
    assert_eq!(
        hasher.verify(&password, &stored),
        Err(RepoError::Corrupt("stored hash is malformed".to_owned()))
    );
}

#[test]
fn a_hash_with_bad_hex_is_corrupt() {
    let hasher = ScryptHasher::default();
    let password = Password::try_from("correct horse battery".to_owned()).expect("valid");
    let stored = PasswordHash::try_new("0g:00").expect("non-empty");
    assert_eq!(
        hasher.verify(&password, &stored),
        Err(RepoError::Corrupt("stored hash is not valid hex".to_owned()))
    );
}
