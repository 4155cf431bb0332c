//! Password hashing: a fresh random salt on every call and a memory-hard
//! key derivation, encoded as one self-contained string.

use crate::error::Error;
use scrypt::password_hash::rand_core::OsRng;
use scrypt::password_hash::{PasswordHasher, SaltString};
use scrypt::{Params, Scrypt};
use vstd::prelude::*;

verus! {

/// Derives a salted hash of `password` and encodes algorithm identifier,
/// cost parameters, salt and digest into one string.
///
/// A fresh cryptographically random salt is drawn on every call, so two
/// calls on the same password are free to (and in practice always do)
/// return different encodings; nothing here may promise more than what
/// holds of every outcome.  The cost parameters are fixed: an
/// administrative tool hashes one password per invocation, so a modest
/// work factor keeps the command interactive.
///
/// Relies on scrypt's `Scrypt.hash_password_customized` with a salt from
/// `SaltString::generate(OsRng)`: the encoding is the PHC string
/// `$scrypt$<params>$<salt>$<digest>`, so every successful result starts
/// with `$scrypt$` and continues past that prefix.
#[verifier::external_body]
pub fn hash_password(password: &[u8]) -> (r: Result<String, Error>)
    ensures
        r matches Ok(h) ==> h@.len() > 8 && h@.subrange(0, 8) == "$scrypt$"@,
        r matches Err(e) ==> e is HashError,
{
    let salt = SaltString::generate(&mut OsRng);
    let params = match Params::new(12, 8, 1, 32) {
        Ok(params) => params,
        Err(err) => return Err(Error::HashError(err.to_string())),
    };
    match Scrypt.hash_password_customized(password, None, None, params, &salt) {
        Ok(hash) => Ok(hash.to_string()),
        Err(err) => Err(Error::HashError(err.to_string())),
    }
}

} // verus!
