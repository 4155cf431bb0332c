use cirrus::error::Error;
use cirrus::models::UserInsert;
use cirrus::util::hash_password;
use scrypt::password_hash::{PasswordHash, PasswordVerifier};
use scrypt::Scrypt;

#[test]
fn hash_is_salted_and_never_echoes_the_password() {
    let h = hash_password(b"abc").unwrap();
    assert!(h.starts_with("$scrypt$"));
    assert_ne!(h, "abc");
}

#[test]
fn two_hashes_of_the_same_password_differ_yet_both_verify() {
    let h1 = hash_password(b"correct horse battery staple").unwrap();
    let h2 = hash_password(b"correct horse battery staple").unwrap();
    assert_ne!(h1, h2);
    let p1 = PasswordHash::new(&h1).unwrap();
    let p2 = PasswordHash::new(&h2).unwrap();
    assert!(Scrypt.verify_password(b"correct horse battery staple", &p1).is_ok());
    assert!(Scrypt.verify_password(b"correct horse battery staple", &p2).is_ok());
    assert!(Scrypt.verify_password(b"wrong password", &p1).is_err());
}

#[test]
fn empty_password_is_accepted() {
    let h = hash_password(b"").unwrap();
    assert!(h.starts_with("$scrypt$"));
    let p = PasswordHash::new(&h).unwrap();
    assert!(Scrypt.verify_password(b"", &p).is_ok());
}

#[test]
fn new_with_password_keeps_the_name_and_hashes() {
    let ins = UserInsert::new_with_password("bob".to_string(), b"pw").unwrap();
    assert_eq!(ins.name(), "bob");
    assert!(ins.password_hash().starts_with("$scrypt$"));
    assert_ne!(ins.password_hash(), "pw");
}

#[test]
fn hash_error_message_has_context() {
    let e = Error::HashError("bad parameters".to_string());
    assert_eq!(e.message(), "Unable to hash the password: bad parameters");
}
