use argon2::password_hash::{PasswordHasher, SaltString};
use proximiti_server::crypt::pwd::{
    hash_password, hash_password_with_salt, verify_password, Error,
};

const SALT: &str = "c29tZXNhbHR2YWx1ZTEyMw";

#[test]
fn a_hashed_password_verifies() {
    for password in [&b"correct horse battery staple"[..], b"", b"\x00\xff", "pässwörd".as_bytes()] {
        let record = hash_password(password).unwrap();
        assert_eq!(verify_password(password, &record), Ok(()));
    }
}

#[test]
fn another_password_is_a_mismatch() {
    let record = hash_password(b"hunter2").unwrap();
    for other in [&b"hunter3"[..], b"", b"hunter2 ", b"Hunter2"] {
        assert_eq!(verify_password(other, &record), Err(Error::Mismatch));
    }
}

#[test]
fn two_records_of_one_password_differ_and_both_verify() {
    let first = hash_password(b"hunter2").unwrap();
    let second = hash_password(b"hunter2").unwrap();
    assert_ne!(first, second);
    assert_eq!(verify_password(b"hunter2", &first), Ok(()));
    assert_eq!(verify_password(b"hunter2", &second), Ok(()));
}

#[test]
fn record_is_a_phc_string_of_argon2id() {
    let record = hash_password(b"hunter2").unwrap();
    assert_ne!(record.as_bytes(), b"hunter2");
    assert!(record.starts_with("$argon2id$v=19$m=19456,t=2,p=1$"));
    assert_eq!(record.split('$').count(), 6);
}

#[test]
fn record_under_a_given_salt_is_the_backend_s() {
    let record = hash_password_with_salt(b"hunter2", SALT).unwrap();
    let salt = SaltString::from_b64(SALT).unwrap();
    let expected = argon2::Argon2::default().hash_password(b"hunter2", &salt).unwrap().to_string();
    assert_eq!(record, expected);
    assert!(record.starts_with(&format!("$argon2id$v=19$m=19456,t=2,p=1${SALT}$")));
    assert_eq!(hash_password_with_salt(b"hunter2", SALT).unwrap(), record);
    assert_ne!(hash_password_with_salt(b"hunter3", SALT).unwrap(), record);
    assert_eq!(verify_password(b"hunter2", &record), Ok(()));
    assert_eq!(verify_password(b"hunter3", &record), Err(Error::Mismatch));
}

#[test]
fn a_refused_salt_is_an_internal_error() {
    for salt in ["", "abc", "not a salt!!", "c29tZXNhbHQ*"] {
        assert_eq!(hash_password_with_salt(b"hunter2", salt), Err(Error::Internal));
    }
}

#[test]
fn a_damaged_record_is_malformed() {
    let record = hash_password_with_salt(b"hunter2", SALT).unwrap();
    for bad in [
        String::new(),
        "hunter2".to_string(),
        "$argon2id$".to_string(),
        record.replace("$argon2id$", "$argon9$"),
        record.replace("v=19", "v=1"),
        record.replace("m=19456", "m=0"),
        format!("{record}$extra"),
        record.replace('$', "#"),
    ] {
        assert_eq!(verify_password(b"hunter2", &bad), Err(Error::Malformed));
    }
}

#[test]
fn a_record_with_another_hash_is_a_mismatch() {
    let record = hash_password_with_salt(b"hunter2", SALT).unwrap();
    let other = hash_password_with_salt(b"hunter3", SALT).unwrap();
    assert_eq!(verify_password(b"hunter2", &other), Err(Error::Mismatch));
    assert_eq!(verify_password(b"hunter3", &record), Err(Error::Mismatch));
}

#[test]
fn records_under_two_salts_are_two_records() {
    let first = hash_password_with_salt(b"hunter2", SALT).unwrap();
    let second = hash_password_with_salt(b"hunter2", "YW5vdGhlcnNhbHR2YWx1ZQ").unwrap();
    assert_ne!(first, second);
    assert!(second.contains("$YW5vdGhlcnNhbHR2YWx1ZQ$"));
    assert_eq!(verify_password(b"hunter2", &first), Ok(()));
    assert_eq!(verify_password(b"hunter2", &second), Ok(()));
}
