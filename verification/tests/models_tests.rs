use cirrus::models::{PublicShare, PublicShareInsert, User, UserInsert};

#[test]
fn user_row_keeps_its_fields() {
    let u = User::new("ann".to_string(), "$scrypt$h".to_string());
    assert_eq!(u.name(), "ann");
    assert_eq!(u.password_hash(), "$scrypt$h");
}

#[test]
fn user_insert_keeps_its_fields() {
    let u = UserInsert::new("ann".to_string(), "$scrypt$h".to_string());
    assert_eq!(u.name(), "ann");
    assert_eq!(u.password_hash(), "$scrypt$h");
}

#[test]
fn public_share_keeps_its_fields() {
    let s = PublicShare::new("id-1".to_string(), "/srv/file".to_string(), 1700000000);
    assert_eq!(s.id(), "id-1");
    assert_eq!(s.file_path(), "/srv/file");
    assert_eq!(s.created(), 1700000000);
}

#[test]
fn public_share_insert_keeps_its_fields() {
    let s = PublicShareInsert::new("id-1".to_string(), "/srv/file".to_string());
    assert_eq!(s.id(), "id-1");
    assert_eq!(s.file_path(), "/srv/file");
}
