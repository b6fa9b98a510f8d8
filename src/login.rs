use vstd::prelude::*;

use crate::credential::{argon2_accepts, verify_password};
use crate::identity::{Identity, uuid_text};
use crate::token::{TOKEN_TTL_HOURS, TokenService, expiry_after, hs256_token};

verus! {

/// A user's stored credential, as the user store returns it.
#[derive(Clone, Debug, PartialEq, Eq)]
pub struct StoredCredential {
    pub user_id: Identity,
    pub password_hash: String,
}

/// What a successful login hands back: the user and a fresh access token.
#[derive(Clone, Debug, PartialEq, Eq)]
pub struct LoginResponse {
    pub user_id: Identity,
    pub access_token: String,
}

/// Why a login did not succeed.
#[derive(Clone, Copy, Debug, PartialEq, Eq, Structural)]
pub enum LoginError {
    /// No such user, or the password does not match; the two are not told apart.
    CredentialMismatch,
    /// The token could not be signed.
    SigningFailure,
}

/// Decides a login attempt: `record` is what the user store found for the
/// identifier given (if anything), `password` the password offered, `now` the
/// time of the attempt.
pub fn login(record: Option<&StoredCredential>, password: &str, tokens: &TokenService, now: u64) -> (r:
    Result<LoginResponse, LoginError>)
    requires
        expiry_after(now, TOKEN_TTL_HOURS) <= u64::MAX,
    ensures
        match record {
            None => r == Err::<LoginResponse, LoginError>(LoginError::CredentialMismatch),
            Some(c) => if !argon2_accepts(password@, c.password_hash@) {
                r == Err::<LoginResponse, LoginError>(LoginError::CredentialMismatch)
            } else {
                match hs256_token(
                    uuid_text(c.user_id.value),
                    expiry_after(now, TOKEN_TTL_HOURS) as u64,
                    tokens.secret@,
                ) {
                    Some(t) => r is Ok && r.unwrap().user_id == c.user_id
                        && r.unwrap().access_token@ == t,
                    None => r == Err::<LoginResponse, LoginError>(LoginError::SigningFailure),
                }
            },
        },
{
    let c = match record {
        Some(c) => c,
        None => return Err(LoginError::CredentialMismatch),
    };
    if !verify_password(password, c.password_hash.as_str()) {
        return Err(LoginError::CredentialMismatch);
    }
    match tokens.issue(c.user_id, now) {
        Ok(t) => Ok(LoginResponse { user_id: c.user_id, access_token: t }),
        Err(_) => Err(LoginError::SigningFailure),
    }
}

} // verus!
