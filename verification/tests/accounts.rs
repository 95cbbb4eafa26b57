use wim::accounts::{
    delete_secret, get_secret, hash_password, verify_password, Lookup, Removal, SECRET_SERVICE,
};

#[test]
fn a_hashed_password_is_accepted() {
    let hash = hash_password("1234").unwrap();
    assert_ne!(hash, "1234");
    assert_eq!(hash.len(), 60);
    assert!(hash.starts_with("$2b$12$"));
    assert_eq!(verify_password("1234", &hash), Ok(true));
    assert_eq!(verify_password("12345", &hash), Ok(false));
}

#[test]
fn hashes_are_salted() {
    assert_ne!(hash_password("same"), hash_password("same"));
}

#[test]
fn a_known_hash() {
    let hash = "$2a$04$UuTkLRZZ6QofpDOlMz32MuuxEHA43WOemOYHPz6.SjsVsyO1tDU96";
    assert_eq!(verify_password("password", hash), Ok(true));
    assert_eq!(verify_password("Password", hash), Ok(false));
}

#[test]
fn a_hash_that_cannot_be_read() {
    assert!(verify_password("1234", "1234").is_err());
    assert!(verify_password("1234", "").is_err());
}

#[test]
fn secrets() {
    assert_eq!(SECRET_SERVICE, "WIM");
    assert_eq!(get_secret(Lookup::Found("v".to_string())), Ok("v".to_string()));
    assert_eq!(get_secret(Lookup::Missing), Ok("".to_string()));
    assert_eq!(get_secret(Lookup::Failed("locked".to_string())), Err("locked".to_string()));
    assert_eq!(delete_secret(Removal::Removed), Ok(()));
    assert_eq!(delete_secret(Removal::Missing), Ok(()));
    assert_eq!(delete_secret(Removal::Failed("locked".to_string())), Err("locked".to_string()));
}
