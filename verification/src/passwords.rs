//! Password hashing for the account store: Argon2 with its default
//! parameters, PHC strings, and the errors the service answers with.
use vstd::prelude::*;
use argon2::password_hash::rand_core::OsRng;
use argon2::password_hash::{PasswordHash, PasswordHasher, PasswordVerifier, SaltString};
use argon2::Argon2;
use crate::parse_error::concat_str;
use crate::server_types::AppError;

verus! {

/// What checking `password` against the PHC string `hash` with Argon2
/// gives: whether it matches, or the message of the failure to parse the
/// hash.
pub uninterp spec fn argon2_verdict(password: Seq<char>, hash: Seq<char>) -> Result<bool, Seq<char>>;

/// Hashes a password with Argon2 (default parameters) and a fresh random
/// salt (`SaltString::generate` with `OsRng`, `PasswordHasher::hash_password`),
/// as a PHC string; the error's message on failure. The salt is chance, so
/// the hash is not named; the contract claims only that the password
/// verifies against the hash made from it (verification recomputes Argon2
/// with the parameters and salt that the PHC string carries).
#[verifier::external_body]
fn argon2_hash(password: &str) -> (r: Result<String, String>)
    ensures
        match r {
            Ok(h) => argon2_verdict(password@, h@) == Ok::<bool, Seq<char>>(true),
            Err(_) => true,
        },
{
    let salt = SaltString::generate(&mut OsRng);
    Argon2::default().hash_password(password.as_bytes(), &salt).map(|h| h.to_string()).map_err(|e| e.to_string())
}

/// Checks a password against a PHC string with Argon2 (`PasswordHash::new`,
/// then `PasswordVerifier::verify_password`): whether it matches, or the
/// message of the failure to parse the hash. The outcome is named.
#[verifier::external_body]
fn argon2_check(password: &str, hash: &str) -> (r: Result<bool, String>)
    ensures
        match r {
            Ok(b) => argon2_verdict(password@, hash@) == Ok::<bool, Seq<char>>(b),
            Err(m) => argon2_verdict(password@, hash@) == Err::<bool, Seq<char>>(m@),
        },
{
    match PasswordHash::new(hash) {
        Err(e) => Err(e.to_string()),
        Ok(parsed) => Ok(Argon2::default().verify_password(password.as_bytes(), &parsed).is_ok()),
    }
}

/// Hash a password for storage. A hash that comes back verifies against the
/// password; a failure is an internal error.
pub fn hash_password(password: &str) -> (r: Result<String, AppError>)
    ensures
        r matches Ok(h) ==> argon2_verdict(password@, h@) == Ok::<bool, Seq<char>>(true),
        r matches Err(e) ==> (e matches AppError::Internal(m) && "Password hashing failed: "@.is_prefix_of(m@)),
{
    match argon2_hash(password) {
        Ok(h) => Ok(h),
        Err(m) => {
            let msg = concat_str("Password hashing failed: ", m.as_str());
            proof {
                reveal_strlit("Password hashing failed: ");
            }
            assert("Password hashing failed: "@.is_prefix_of(msg@));
            Err(AppError::Internal(msg))
        },
    }
}

/// Check a password against its stored hash: a stored hash that does not
/// parse is an internal error; a password that does not match is refused as
/// invalid credentials.
pub fn verify_password(password: &str, hash: &str) -> (r: Result<(), AppError>)
    ensures
        match argon2_verdict(password@, hash@) {
            Err(m) => r matches Err(AppError::Internal(s)) && s@ == "Invalid password hash: "@ + m,
            Ok(true) => r is Ok,
            Ok(false) => r matches Err(AppError::Unauthorized(s)) && s@ == "Invalid credentials"@,
        },
{
    match argon2_check(password, hash) {
        Err(m) => Err(AppError::Internal(concat_str("Invalid password hash: ", m.as_str()))),
        Ok(true) => Ok(()),
        Ok(false) => Err(AppError::Unauthorized(String::from_str("Invalid credentials"))),
    }
}

} // verus!
