use user_api::password::{digest_from, granted, hash, verify};

// Digests of cost 4, made with another bcrypt implementation.
const DIGEST_OF_PASSWORD: &str = "$2a$04$UuTkLRZZ6QofpDOlMz32MuuxEHA43WOemOYHPz6.SjsVsyO1tDU96";
const DIGEST_OF_ADMIN123: &str = "$2b$04$abcdefghijklmnopqrstuur/uCBNBvVl4m8sbz1ePRFisPkMaJiTS";

#[test]
fn verify_accepts_the_password_of_a_digest() {
    assert!(verify("password", DIGEST_OF_PASSWORD));
    assert!(verify("admin123", DIGEST_OF_ADMIN123));
}

#[test]
fn verify_refuses_another_password() {
    assert!(!verify("Password", DIGEST_OF_PASSWORD));
    assert!(!verify("password ", DIGEST_OF_PASSWORD));
    assert!(!verify("", DIGEST_OF_PASSWORD));
    assert!(!verify("admin123", DIGEST_OF_PASSWORD));
}

#[test]
fn verify_refuses_a_changed_digest() {
    let changed = "$2a$04$UuTkLRZZ6QofpDOlMz32MuuxEHA43WOemOYHPz6.SjsVsyO1tDU97";
    assert!(!verify("password", changed));
}

#[test]
fn verify_returns_false_on_a_malformed_digest() {
    assert!(!verify("password", ""));
    assert!(!verify("password", "password"));
    assert!(!verify("password", "$2a$04$tooshort"));
    assert!(!verify("password", "$9z$04$UuTkLRZZ6QofpDOlMz32MuuxEHA43WOemOYHPz6.SjsVsyO1tDU96"));
    assert!(!verify("password", "$2a$xx$UuTkLRZZ6QofpDOlMz32MuuxEHA43WOemOYHPz6.SjsVsyO1tDU96"));
    assert!(!verify("password", "$2a$99$UuTkLRZZ6QofpDOlMz32MuuxEHA43WOemOYHPz6.SjsVsyO1tDU96"));
}

#[test]
fn hash_gives_a_digest_that_matches_its_password() {
    let digest = hash("admin123").unwrap();
    assert_ne!(digest, "admin123");
    assert!(digest.starts_with("$2b$12$"));
    assert_eq!(digest.len(), 60);
    assert!(verify("admin123", &digest));
}

#[test]
fn hash_gives_a_digest_that_refuses_another_password() {
    let digest = hash("admin123").unwrap();
    assert!(!verify("admin124", &digest));
}

#[test]
fn hash_salts_each_digest_afresh() {
    let first = hash("same").unwrap();
    let second = hash("same").unwrap();
    assert_ne!(first, second);
}

#[test]
fn granted_lets_only_a_match_through() {
    assert!(granted(Some(true)));
    assert!(!granted(Some(false)));
    assert!(!granted(None));
}

#[test]
fn digest_from_keeps_the_digest_of_a_success() {
    assert_eq!(digest_from(Ok(DIGEST_OF_PASSWORD.to_string())), Some(DIGEST_OF_PASSWORD.to_string()));
    assert_eq!(digest_from(Ok(String::new())), Some(String::new()));
}

#[test]
fn digest_from_keeps_nothing_of_an_error() {
    assert_eq!(digest_from(Err(bcrypt::BcryptError::CostNotAllowed(3))), None);
    assert_eq!(digest_from(Err(bcrypt::BcryptError::InvalidHash("x".to_string()))), None);
    assert_eq!(digest_from(Err(bcrypt::BcryptError::InvalidSaltLen(1))), None);
}
