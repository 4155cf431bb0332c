use cirrus::error::Error;
use cirrus::store::{
    create_user_check, require_user_exists, user_create, user_delete, user_insert_hashed,
    user_list, user_set_password, user_update_hashed, UserStore,
};
use cirrus::models::UserInsert;

#[test]
fn create_then_create_fails_and_keeps_hash() {
    let mut store = UserStore::new();
    assert!(user_create(&mut store, "alice", b"first-password").is_ok());
    let first_hash = store.password_hash_of("alice").unwrap().clone();
    let second = user_create(&mut store, "alice", b"other-password");
    assert!(matches!(second, Err(Error::UserAlreadyExists(n)) if n == "alice"));
    assert_eq!(store.password_hash_of("alice").unwrap(), &first_hash);
}

#[test]
fn delete_absent_fails() {
    let mut store = UserStore::new();
    let r = user_delete(&mut store, "ghost");
    assert!(matches!(r, Err(Error::UserNotFound(n)) if n == "ghost"));
    assert!(!store.contains("ghost"));
}

#[test]
fn second_delete_always_fails() {
    let mut store = UserStore::new();
    assert!(user_create(&mut store, "bob", b"pw").is_ok());
    assert!(user_delete(&mut store, "bob").is_ok());
    let again = user_delete(&mut store, "bob");
    assert!(matches!(again, Err(Error::UserNotFound(n)) if n == "bob"));
}

#[test]
fn set_password_absent_fails_and_creates_no_row() {
    let mut store = UserStore::new();
    let r = user_set_password(&mut store, "ghost", b"pw");
    assert!(matches!(r, Err(Error::UserNotFound(n)) if n == "ghost"));
    assert!(!store.contains("ghost"));
    assert!(user_list(&store).is_empty());
}

#[test]
fn set_password_replaces_hash() {
    let mut store = UserStore::new();
    assert!(user_create(&mut store, "carol", b"old-password").is_ok());
    let old_hash = store.password_hash_of("carol").unwrap().clone();
    assert!(user_set_password(&mut store, "carol", b"new-password").is_ok());
    let new_hash = store.password_hash_of("carol").unwrap().clone();
    assert_ne!(old_hash, new_hash);
    assert!(new_hash.starts_with("$scrypt$"));
}

#[test]
fn list_after_create_and_delete() {
    let mut store = UserStore::new();
    assert!(user_create(&mut store, "a", b"pa").is_ok());
    assert!(user_create(&mut store, "b", b"pb").is_ok());
    assert!(user_create(&mut store, "c", b"pc").is_ok());
    assert!(user_delete(&mut store, "b").is_ok());
    let mut names = user_list(&store);
    names.sort();
    assert_eq!(names, vec!["a".to_string(), "c".to_string()]);
}

#[test]
fn insert_hashed_stores_exactly_the_given_row() {
    let mut store = UserStore::new();
    let ins = UserInsert::new("dora".to_string(), "not-a-real-hash".to_string());
    assert!(user_insert_hashed(&mut store, ins).is_ok());
    assert_eq!(store.password_hash_of("dora").unwrap(), "not-a-real-hash");
    let dup = UserInsert::new("dora".to_string(), "different".to_string());
    let r = user_insert_hashed(&mut store, dup);
    assert!(matches!(r, Err(Error::UserAlreadyExists(n)) if n == "dora"));
    assert_eq!(store.password_hash_of("dora").unwrap(), "not-a-real-hash");
}

#[test]
fn update_hashed_rekeys_exactly_one_row() {
    let mut store = UserStore::new();
    let r = user_update_hashed(&mut store, "eve", "h1".to_string());
    assert!(matches!(r, Err(Error::UserNotFound(n)) if n == "eve"));
    let ins = UserInsert::new("eve".to_string(), "h1".to_string());
    assert!(user_insert_hashed(&mut store, ins).is_ok());
    let other = UserInsert::new("frank".to_string(), "h2".to_string());
    assert!(user_insert_hashed(&mut store, other).is_ok());
    assert!(user_update_hashed(&mut store, "eve", "h3".to_string()).is_ok());
    assert_eq!(store.password_hash_of("eve").unwrap(), "h3");
    assert_eq!(store.password_hash_of("frank").unwrap(), "h2");
}

#[test]
fn existence_checks() {
    assert!(create_user_check(false, "x").is_ok());
    assert!(matches!(create_user_check(true, "x"), Err(Error::UserAlreadyExists(n)) if n == "x"));
    assert!(require_user_exists(true, "x").is_ok());
    assert!(matches!(require_user_exists(false, "x"), Err(Error::UserNotFound(n)) if n == "x"));
}
