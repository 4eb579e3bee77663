//! Users of the site and how their passwords are stored, hashed by argon2.
use vstd::prelude::*;
use argon2::password_hash::rand_core::OsRng;
use argon2::password_hash::{PasswordHash, SaltString};
use argon2::{Argon2, PasswordHasher, PasswordVerifier};

verus! {

#[verifier::external_type_specification]
#[verifier::external_body]
pub struct ExSaltString(SaltString);

#[verifier::external_type_specification]
#[verifier::external_body]
pub struct ExArgon2<'a>(Argon2<'a>);

#[verifier::external_type_specification]
#[verifier::external_body]
pub struct ExPasswordHash<'a>(PasswordHash<'a>);

#[verifier::external_type_specification]
#[verifier::external_body]
pub struct ExHashError(argon2::password_hash::Error);

/// A post as the site's database stores it.
pub struct BlogPost {
    pub title: String,
    pub description: String,
    pub path: String,
}

/// The login and password that a user sends.
pub struct JsonUser {
    pub login: String,
    pub password: String,
}

/// A user as the database stores it: the hash of the password.
pub struct DatabaseUser {
    pub hash: String,
}

/// Why a user could not be stored.
#[derive(Clone, Copy, Debug)]
pub enum UserError {
    /// The password could not be hashed.
    HashFailed,
}

/// A hasher with its own random salt.
pub struct Password<'a> {
    salt: SaltString,
    argon2: Argon2<'a>,
}

/// Relies on `SaltString::generate` with the operating system's random
/// generator: a fresh random salt, of which nothing else is known.
#[verifier::external_body]
fn random_salt() -> SaltString {
    SaltString::generate(&mut OsRng)
}

/// Relies on `Argon2::default`: Argon2id, version 0x13, default parameters.
#[verifier::external_body]
fn default_argon2<'a>() -> Argon2<'a> {
    Argon2::default()
}

/// Relies on `PasswordHasher::hash_password` for `Argon2`, the hash written
/// out in the PHC string format; whether it succeeds depends on the inputs and
/// parameters, and the hash on the salt.
#[verifier::external_body]
fn argon2_hash(argon2: &Argon2, password: &[u8], salt: &SaltString) -> Result<String, argon2::password_hash::Error> {
    match argon2.hash_password(password, salt) {
        Ok(h) => Ok(h.to_string()),
        Err(e) => Err(e),
    }
}

/// Relies on `PasswordVerifier::verify_password` for `Argon2`: `Ok` where the
/// password matches the hash.
#[verifier::external_body]
fn argon2_verify(argon2: &Argon2, password: &[u8], hash: &PasswordHash) -> Result<(), argon2::password_hash::Error> {
    argon2.verify_password(password, hash)
}

impl<'a> Password<'a> {
    /// A hasher with a fresh random salt.
    pub fn new() -> (r: Password<'a>) {
        Password { salt: random_salt(), argon2: default_argon2() }
    }

    /// The PHC string of `password` hashed with this hasher's salt.
    pub fn hash_password(&self, password: &[u8]) -> Result<String, argon2::password_hash::Error> {
        argon2_hash(&self.argon2, password, &self.salt)
    }

    /// Whether `password` matches `hash`.
    pub fn verify_password(&self, password: &[u8], hash: PasswordHash) -> Result<(), argon2::password_hash::Error> {
        argon2_verify(&self.argon2, password, &hash)
    }
}

impl DatabaseUser {
    /// The stored user for an outcome of hashing the password: the hash, or
    /// `HashFailed`.
    pub fn from_hash(hashed: Result<String, argon2::password_hash::Error>) -> (r: Result<DatabaseUser, UserError>)
        ensures
            hashed is Ok <==> r is Ok,
            r matches Ok(u) ==> hashed matches Ok(h) && u.hash@ == h@,
            r matches Err(e) ==> e == UserError::HashFailed,
    {
        match hashed {
            Ok(hash) => Ok(DatabaseUser { hash }),
            Err(_) => Err(UserError::HashFailed),
        }
    }

    /// A user whose password is hashed with a fresh random salt; `HashFailed`
    /// where the hasher refuses it.
    pub fn generate(password: &[u8]) -> (r: Result<DatabaseUser, UserError>)
        ensures
            r matches Err(e) ==> e == UserError::HashFailed,
    {
        let hasher = Password::new();
        DatabaseUser::from_hash(hasher.hash_password(password))
    }
}

} // verus!
