use vstd::prelude::*;

use argon2::password_hash::rand_core::OsRng;
use argon2::password_hash::{PasswordHash, PasswordHasher, PasswordVerifier, Salt, SaltString};

verus! {

/// The PHC string that Argon2id with default parameters produces for
/// `password` under the B64 salt `salt`, or `None` when hashing fails.
pub uninterp spec fn argon2_phc(password: Seq<char>, salt: Seq<char>) -> Option<Seq<char>>;

/// Whether `stored` parses as a PHC string and recomputing its hash for
/// `password` with the parameters it embeds gives the hash it holds.
pub uninterp spec fn argon2_accepts(password: Seq<char>, stored: Seq<char>) -> bool;

/// Hashing failed inside the algorithm or its encoding.
#[derive(Clone, Copy, Debug, PartialEq, Eq, Structural)]
pub struct HashingFailure;

/// Relies on `SaltString::generate` over the operating system's random source:
/// a fresh B64 salt on every call, about which nothing else is promised.
#[verifier::external_body]
fn fresh_salt() -> (r: String) {
    SaltString::generate(&mut OsRng).as_str().to_string()
}

/// Relies on `Argon2::default().hash_password`, with the salt read by
/// `Salt::from_b64`: deterministic in the password and the salt.
#[verifier::external_body]
fn argon2_hash(password: &str, salt: &str) -> (r: Option<String>)
    ensures
        match r {
            Some(h) => argon2_phc(password@, salt@) == Some(h@),
            None => argon2_phc(password@, salt@) is None,
        },
{
    let salt = match Salt::from_b64(salt) {
        Ok(s) => s,
        Err(_) => return None,
    };
    match argon2::Argon2::default().hash_password(password.as_bytes(), salt) {
        Ok(h) => Some(h.to_string()),
        Err(_) => None,
    }
}

/// Relies on `PasswordHash::new` to parse the stored PHC string and on
/// `Argon2::default().verify_password` to recompute and compare the hash.
#[verifier::external_body]
fn argon2_verify(password: &str, stored: &str) -> (r: bool)
    ensures
        r == argon2_accepts(password@, stored@),
{
    match PasswordHash::new(stored) {
        Ok(parsed) => argon2::Argon2::default().verify_password(password.as_bytes(), &parsed).is_ok(),
        Err(_) => false,
    }
}

/// Hashes `password` under the given B64 salt.
pub fn hash_password_with_salt(password: &str, salt: &str) -> (r: Result<String, HashingFailure>)
    ensures
        match argon2_phc(password@, salt@) {
            Some(h) => r is Ok && r.unwrap()@ == h,
            None => r == Err::<String, HashingFailure>(HashingFailure),
        },
{
    match argon2_hash(password, salt) {
        Some(h) => Ok(h),
        None => Err(HashingFailure),
    }
}

/// Hashes `password` under a fresh random salt; the result embeds the
/// algorithm, its parameters and the salt.
pub fn hash_password(password: &str) -> (r: Result<String, HashingFailure>)
    ensures
        exists|salt: Seq<char>|
            match #[trigger] argon2_phc(password@, salt) {
                Some(h) => r is Ok && r.unwrap()@ == h,
                None => r == Err::<String, HashingFailure>(HashingFailure),
            },
{
    let salt = fresh_salt();
    let r = hash_password_with_salt(password, salt.as_str());
    assert(match argon2_phc(password@, salt@) {
        Some(h) => r is Ok && r.unwrap()@ == h,
        None => r == Err::<String, HashingFailure>(HashingFailure),
    });
    r
}

/// Whether `password` matches the stored hash. Fails closed: a stored value
/// that does not parse is a mismatch, not an error.
pub fn verify_password(password: &str, stored: &str) -> (r: bool)
    ensures
        r == argon2_accepts(password@, stored@),
{
    argon2_verify(password, stored)
}

} // verus!
