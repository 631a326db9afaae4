//! Password hasher: one-way salted hashing and verification, built on the
//! Argon2 implementation of the `argon2` crate.

use vstd::prelude::*;
use vstd::string::StringSliceAdditionalSpecFns;
use crate::error::AppError;
use argon2::Argon2;
use argon2::password_hash::{PasswordHash, PasswordHasher, PasswordVerifier, SaltString};

verus! {

/// The error type of the PHC password-hash framework, opaque to the core.
#[verifier::external_type_specification]
#[verifier::external_body]
pub struct ExPasswordHashError(argon2::password_hash::Error);

/// Whether a stored hash string is a well-formed PHC string. The verdict of
/// `PasswordHash::new`, named; it depends on the characters alone.
pub uninterp spec fn phc_parses(hash: Seq<char>) -> bool;

/// Whether a password matches a stored hash string. The verdict of
/// `Argon2::verify_password`, named; verification re-derives the hash from
/// the password and the salt and parameters embedded in the string, so it
/// depends on the two arguments alone.
pub uninterp spec fn argon2_verifies(hash: Seq<char>, password: Seq<char>) -> bool;

/// Whether a password is small enough for the hasher, which rejects inputs
/// over 2^32 - 1 bytes.
pub open spec fn hashable(password: &str) -> bool {
    password.spec_bytes().len() <= 0xFFFFFFFF
}

/// Relies on `Argon2::hash_password` with a fresh random salt: on success
/// the encoded hash is a well-formed PHC string that verifies against the
/// password it was derived from. It succeeds for every password of at most
/// 2^32 - 1 bytes: the generated 16-byte salt and the default parameters and
/// output length all lie within the hasher's bounds, and the PHC rendering
/// of the result never fails.
#[verifier::external_body]
fn argon2_hash(password: &str) -> (r: Result<String, argon2::password_hash::Error>)
    ensures
        hashable(password) ==> r is Ok,
        r matches Ok(h) ==> phc_parses(h@) && argon2_verifies(h@, password@),
{
    let salt = SaltString::generate(&mut rand::thread_rng());
    Argon2::default().hash_password(password.as_bytes(), &salt).map(|h| h.to_string())
}

/// Relies on `PasswordHash::new` and `Argon2::verify_password`: parsing
/// succeeds exactly when the stored string is well-formed PHC text, and the
/// verification verdict is a deterministic function of hash and password.
#[verifier::external_body]
fn argon2_check(hash: &str, password: &str) -> (r: Result<
    bool,
    argon2::password_hash::Error,
>)
    ensures
        r is Ok <==> phc_parses(hash@),
        r matches Ok(b) ==> b == argon2_verifies(hash@, password@),
{
    let parsed = PasswordHash::new(hash)?;
    Ok(Argon2::default().verify_password(password.as_bytes(), &parsed).is_ok())
}

/// Hashes a password with a fresh random salt; it succeeds for every
/// password the hasher accepts (at most 2^32 - 1 bytes), and the returned
/// encoded hash verifies against `password`.
pub fn hash_password(password: &str) -> (r: Result<String, AppError>)
    ensures
        hashable(password) ==> r is Ok,
        r matches Ok(h) ==> phc_parses(h@) && argon2_verifies(h@, password@),
        r matches Err(e) ==> e is AuthError,
{
    match argon2_hash(password) {
        Ok(h) => Ok(h),
        Err(_) => Err(AppError::AuthError("security error while hashing".to_string())),
    }
}

/// Checks a password against a stored hash. Fails only when the stored hash
/// string is malformed (corrupted data, not user error); otherwise returns
/// the verification verdict.
pub fn check_password(hash: &str, password: &str) -> (r: Result<bool, AppError>)
    ensures
        r is Ok <==> phc_parses(hash@),
        r matches Ok(b) ==> b == argon2_verifies(hash@, password@),
        r matches Err(e) ==> e is AuthError,
{
    match argon2_check(hash, password) {
        Ok(b) => Ok(b),
        Err(_) => Err(AppError::AuthError("error while checking credentials".to_string())),
    }
}

} // verus!
