use loginapp::errors::AppError;
use loginapp::password::{hashed, verdict, CredentialHasher, DEFAULT_COST, MAX_COST, MIN_COST};

fn hasher() -> CredentialHasher {
    CredentialHasher::new(4).unwrap()
}

#[test]
fn hash_then_verify_is_true() {
    let hasher = hasher();
    for password in ["pw123456", "", "a", "päss wörd", "correct horse battery staple"] {
        let hash = hasher.hash(password).unwrap();
        assert_eq!(hasher.verify(password, &hash), Ok(true), "{}", password);
    }
}

#[test]
fn hash_is_not_the_password() {
    let hash = hasher().hash("pw123456").unwrap();
    assert_ne!(hash, "pw123456");
    assert!(!hash.contains("pw123456"));
    assert!(hash.starts_with("$2b$04$"));
    assert_eq!(hash.len(), 60);
}

#[test]
fn other_password_does_not_verify() {
    let hasher = hasher();
    let hash = hasher.hash("pw123456").unwrap();
    assert_eq!(hasher.verify("wrong", &hash), Ok(false));
    assert_eq!(hasher.verify("pw1234567", &hash), Ok(false));
    assert_eq!(hasher.verify("", &hash), Ok(false));
    assert_eq!(hasher.verify("PW123456", &hash), Ok(false));
}

#[test]
fn same_password_hashes_differently_and_both_verify() {
    let hasher = hasher();
    let first = hasher.hash("pw123456").unwrap();
    let second = hasher.hash("pw123456").unwrap();
    assert_ne!(first, second);
    assert_eq!(hasher.verify("pw123456", &first), Ok(true));
    assert_eq!(hasher.verify("pw123456", &second), Ok(true));
}

#[test]
fn verify_reads_the_cost_from_the_hash() {
    let stored = CredentialHasher::new(5).unwrap().hash("pw123456").unwrap();
    assert!(stored.starts_with("$2b$05$"));
    assert_eq!(hasher().verify("pw123456", &stored), Ok(true));
}

#[test]
fn verify_takes_a_known_hash() {
    let hash = "$2a$04$UuTkLRZZ6QofpDOlMz32MuuxEHA43WOemOYHPz6.SjsVsyO1tDU96";
    assert_eq!(hasher().verify("password", hash), Ok(true));
    assert_eq!(hasher().verify("passwore", hash), Ok(false));
}

#[test]
fn verify_fails_on_a_hash_that_cannot_be_read() {
    let hasher = hasher();
    for hash in [
        "",
        "pw123456",
        "$2b$04$short",
        "$9z$04$UuTkLRZZ6QofpDOlMz32MuuxEHA43WOemOYHPz6.SjsVsyO1tDU96",
        "$2a$xx$UuTkLRZZ6QofpDOlMz32MuuxEHA43WOemOYHPz6.SjsVsyO1tDU96",
        "$2a$03$UuTkLRZZ6QofpDOlMz32MuuxEHA43WOemOYHPz6.SjsVsyO1tDU96",
    ] {
        assert_eq!(hasher.verify("password", hash), Err(AppError::Hashing), "{}", hash);
    }
}

#[test]
fn cost_must_be_allowed() {
    assert!(CredentialHasher::new(3).is_none());
    assert!(CredentialHasher::new(0).is_none());
    assert!(CredentialHasher::new(32).is_none());
    assert_eq!(CredentialHasher::new(4).unwrap().work_factor(), 4);
    assert_eq!(CredentialHasher::new(31).unwrap().work_factor(), 31);
    assert_eq!((MIN_COST, MAX_COST), (4, 31));
}

#[test]
fn default_cost_is_twelve() {
    assert_eq!(CredentialHasher::with_default_cost().work_factor(), 12);
    assert_eq!(DEFAULT_COST, 12);
}

#[test]
fn verdict_maps_the_answer() {
    assert_eq!(verdict(Some(true)), Ok(true));
    assert_eq!(verdict(Some(false)), Ok(false));
    assert_eq!(verdict(None), Err(AppError::Hashing));
}

#[test]
fn hashed_maps_the_hash() {
    assert_eq!(hashed(Some("h".to_string())), Ok("h".to_string()));
    assert_eq!(hashed(None), Err(AppError::Hashing));
}

#[test]
fn only_the_first_72_bytes_of_a_password_count() {
    let hasher = hasher();
    let long = "a".repeat(72);
    let hash = hasher.hash(&format!("{}x", long)).unwrap();
    assert_eq!(hasher.verify(&format!("{}y", long), &hash), Ok(true));
    assert_eq!(hasher.verify(&long, &hash), Ok(true));
    assert_eq!(hasher.verify(&"a".repeat(71), &hash), Ok(false));
}
