//! Rows of the two persisted tables: `users(name, password_hash)` and
//! `public_shares(id, file_path, created)`.

use crate::error::Error;
use crate::util::hash_password;
use vstd::prelude::*;

verus! {

/// One row of the `users` table.  `name` identifies the user; no two rows
/// share a name.  `password_hash` is the opaque encoded hash, never the raw
/// password.
pub struct User {
    name: String,
    password_hash: String,
}

impl User {
    pub closed spec fn spec_name(&self) -> Seq<char> {
        self.name@
    }

    pub closed spec fn spec_password_hash(&self) -> Seq<char> {
        self.password_hash@
    }

    pub fn new(name: String, password_hash: String) -> (u: User)
        ensures
            u.spec_name() == name@,
            u.spec_password_hash() == password_hash@,
    {
        User { name, password_hash }
    }

    pub fn name(&self) -> (r: &String)
        ensures
            r@ == self.spec_name(),
    {
        &self.name
    }

    pub fn password_hash(&self) -> (r: &String)
        ensures
            r@ == self.spec_password_hash(),
    {
        &self.password_hash
    }
}

/// A `users` row about to be inserted.
pub struct UserInsert {
    name: String,
    password_hash: String,
}

impl UserInsert {
    pub closed spec fn spec_name(&self) -> Seq<char> {
        self.name@
    }

    pub closed spec fn spec_password_hash(&self) -> Seq<char> {
        self.password_hash@
    }

    pub fn new(name: String, password_hash: String) -> (u: UserInsert)
        ensures
            u.spec_name() == name@,
            u.spec_password_hash() == password_hash@,
    {
        UserInsert { name, password_hash }
    }

    /// Builds the row from a raw password: hashes it with a fresh salt and
    /// keeps the name unchanged.  Fails only when the hashing primitive
    /// fails.
    pub fn new_with_password(name: String, password: &[u8]) -> (r: Result<UserInsert, Error>)
        ensures
            r matches Ok(u) ==> u.spec_name() == name@ && u.spec_password_hash().len() > 8
                && u.spec_password_hash().subrange(0, 8) == "$scrypt$"@,
            r matches Err(e) ==> e is HashError,
    {
        match hash_password(password) {
            Ok(hash) => Ok(UserInsert::new(name, hash)),
            Err(e) => Err(e),
        }
    }

    pub fn name(&self) -> (r: &String)
        ensures
            r@ == self.spec_name(),
    {
        &self.name
    }

    pub fn password_hash(&self) -> (r: &String)
        ensures
            r@ == self.spec_password_hash(),
    {
        &self.password_hash
    }
}

/// One row of the `public_shares` table.  The data shape exists for the
/// excluded server component; no operation of this library touches it.
/// The creation timestamp is held as plain seconds since the Unix epoch,
/// set at insertion time and never updated.
pub struct PublicShare {
    id: String,
    file_path: String,
    created: i64,
}

impl PublicShare {
    pub closed spec fn spec_id(&self) -> Seq<char> {
        self.id@
    }

    pub closed spec fn spec_file_path(&self) -> Seq<char> {
        self.file_path@
    }

    pub closed spec fn spec_created(&self) -> i64 {
        self.created
    }

    pub fn new(id: String, file_path: String, created: i64) -> (s: PublicShare)
        ensures
            s.spec_id() == id@,
            s.spec_file_path() == file_path@,
            s.spec_created() == created,
    {
        PublicShare { id, file_path, created }
    }

    pub fn id(&self) -> (r: &String)
        ensures
            r@ == self.spec_id(),
    {
        &self.id
    }

    pub fn file_path(&self) -> (r: &String)
        ensures
            r@ == self.spec_file_path(),
    {
        &self.file_path
    }

    pub fn created(&self) -> (r: i64)
        ensures
            r == self.spec_created(),
    {
        self.created
    }
}

/// A `public_shares` row about to be inserted; the storage engine assigns
/// the creation timestamp.
pub struct PublicShareInsert {
    id: String,
    file_path: String,
}

impl PublicShareInsert {
    pub closed spec fn spec_id(&self) -> Seq<char> {
        self.id@
    }

    pub closed spec fn spec_file_path(&self) -> Seq<char> {
        self.file_path@
    }

    pub fn new(id: String, file_path: String) -> (s: PublicShareInsert)
        ensures
            s.spec_id() == id@,
            s.spec_file_path() == file_path@,
    {
        PublicShareInsert { id, file_path }
    }

    pub fn id(&self) -> (r: &String)
        ensures
            r@ == self.spec_id(),
    {
        &self.id
    }

    pub fn file_path(&self) -> (r: &String)
        ensures
            r@ == self.spec_file_path(),
    {
        &self.file_path
    }
}

} // verus!
