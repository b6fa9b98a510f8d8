use vstd::prelude::*;

use crate::identity::{Identity, parsed_uuid, uuid_text};

verus! {

/// Seconds in one hour.
pub const SECONDS_PER_HOUR: u64 = 3600;

/// How long an issued token stays valid, in hours.
pub const TOKEN_TTL_HOURS: u32 = 24;

/// The HS256 token that signs the claims `{sub, exp}` with `secret`, or `None`
/// when the signer fails.
pub uninterp spec fn hs256_token(sub: Seq<char>, exp: u64, secret: Seq<char>) -> Option<Seq<char>>;

/// The claims `(exp, sub)` that `token` carries when its HS256 signature under
/// `secret` checks out and it holds a numeric expiry, else `None`.
pub uninterp spec fn hs256_claims(token: Seq<char>, secret: Seq<char>) -> Option<(u64, Option<Seq<char>>)>;

/// The claims read from a token whose signature checked out.
#[derive(Clone, Debug, PartialEq, Eq)]
pub struct TokenClaims {
    /// Expiry, in Unix seconds.
    pub exp: u64,
    /// Subject, when the token carries one as a string.
    pub sub: Option<String>,
}

impl TokenClaims {
    /// The claims as plain values: expiry and subject text.
    pub open spec fn view(self) -> (u64, Option<Seq<char>>) {
        (
            self.exp,
            match self.sub {
                Some(s) => Some(s@),
                None => None,
            },
        )
    }
}

/// Plain view of what a decoder handed back.
pub open spec fn claims_view(c: Option<TokenClaims>) -> Option<(u64, Option<Seq<char>>)> {
    match c {
        Some(c) => Some(c.view()),
        None => None,
    }
}

/// Why a token was not accepted.
#[derive(Clone, Copy, Debug, PartialEq, Eq, Structural)]
pub enum VerificationError {
    /// The token is not an HS256 token signed with this secret, or carries no expiry.
    InvalidSignature,
    /// The token's expiry is not after the time of the check.
    Expired,
    /// The token's subject is missing or is not an identity.
    MalformedSubject,
}

/// The signer failed to produce a token.
#[derive(Clone, Copy, Debug, PartialEq, Eq, Structural)]
pub struct SigningFailure;

/// Relies on `jsonwebtoken::encode` with an HS256 header and a key built by
/// `EncodingKey::from_secret`: the claims object `{sub, exp}` is signed as is.
#[verifier::external_body]
fn hs256_sign(sub: &str, exp: u64, secret: &str) -> (r: Option<String>)
    ensures
        match r {
            Some(t) => hs256_token(sub@, exp, secret@) == Some(t@),
            None => hs256_token(sub@, exp, secret@) is None,
        },
{
    let mut claims = serde_json::Map::new();
    claims.insert("sub".to_string(), serde_json::Value::from(sub));
    claims.insert("exp".to_string(), serde_json::Value::from(exp));
    let header = jsonwebtoken::Header::new(jsonwebtoken::Algorithm::HS256);
    let key = jsonwebtoken::EncodingKey::from_secret(secret.as_bytes());
    jsonwebtoken::encode(&header, &claims, &key).ok()
}

/// Relies on `jsonwebtoken::decode` with HS256 only and expiry left unchecked
/// (so that the outcome does not depend on the clock): it fails on any token
/// whose signature does not match or that lacks a numeric `exp`.
#[verifier::external_body]
fn hs256_decode(token: &str, secret: &str) -> (r: Option<TokenClaims>)
    ensures
        claims_view(r) == hs256_claims(token@, secret@),
{
    let key = jsonwebtoken::DecodingKey::from_secret(secret.as_bytes());
    let mut validation = jsonwebtoken::Validation::new(jsonwebtoken::Algorithm::HS256);
    validation.validate_exp = false;
    match jsonwebtoken::decode::<serde_json::Value>(token, &key, &validation) {
        Ok(data) => match data.claims.get("exp").and_then(|e| e.as_u64()) {
            Some(exp) => {
                let sub = data.claims.get("sub").and_then(|s| s.as_str()).map(|s| s.to_string());
                Some(TokenClaims { exp, sub })
            },
            None => None,
        },
        Err(_) => None,
    }
}

/// Expiry of a token issued at `now` that lives `ttl_hours` hours.
pub open spec fn expiry_after(now: u64, ttl_hours: u32) -> int {
    now + ttl_hours * 3600
}

/// The outcome of checking decoded claims at time `now`: undecodable tokens are
/// rejected first, then expired ones (expiry at or before `now`), then those
/// whose subject is not an identity.
pub open spec fn claims_verdict(claims: Option<(u64, Option<Seq<char>>)>, now: u64) -> Result<
    (Identity, u64),
    VerificationError,
> {
    match claims {
        None => Err(VerificationError::InvalidSignature),
        Some((exp, sub)) => if exp <= now {
            Err(VerificationError::Expired)
        } else {
            match sub {
                None => Err(VerificationError::MalformedSubject),
                Some(s) => match parsed_uuid(s) {
                    Some(v) => Ok((Identity { value: v }, exp)),
                    None => Err(VerificationError::MalformedSubject),
                },
            }
        },
    }
}

/// Checks claims that a decoder handed back (`None` when the signature did not
/// check out) at time `now`, and returns the identity and expiry they carry.
pub fn accept_claims(claims: Option<TokenClaims>, now: u64) -> (r: Result<
    (Identity, u64),
    VerificationError,
>)
    ensures
        r == claims_verdict(claims_view(claims), now),
{
    match claims {
        None => Err(VerificationError::InvalidSignature),
        Some(c) => {
            if c.exp <= now {
                Err(VerificationError::Expired)
            } else {
                match c.sub {
                    None => Err(VerificationError::MalformedSubject),
                    Some(s) => match Identity::parse(s.as_str()) {
                        Some(id) => Ok((id, c.exp)),
                        None => Err(VerificationError::MalformedSubject),
                    },
                }
            }
        },
    }
}

/// Verifies `token` against `secret` at time `now` (Unix seconds): the
/// signature first, then the expiry, then the subject.
pub fn verify_jwt(token: &str, secret: &str, now: u64) -> (r: Result<
    (Identity, u64),
    VerificationError,
>)
    ensures
        r == claims_verdict(hs256_claims(token@, secret@), now),
{
    accept_claims(hs256_decode(token, secret), now)
}

/// Issues a token for `identity` at time `now` that expires `ttl_hours` hours
/// later, signed with `secret`.
pub fn issue_jwt(identity: Identity, secret: &str, now: u64, ttl_hours: u32) -> (r: Result<
    String,
    SigningFailure,
>)
    requires
        expiry_after(now, ttl_hours) <= u64::MAX,
    ensures
        match hs256_token(uuid_text(identity.value), expiry_after(now, ttl_hours) as u64, secret@) {
            Some(t) => r is Ok && r.unwrap()@ == t,
            None => r == Err::<String, SigningFailure>(SigningFailure),
        },
{
    let exp = now + (ttl_hours as u64) * SECONDS_PER_HOUR;
    let sub = identity.to_text();
    match hs256_sign(sub.as_str(), exp, secret) {
        Some(t) => Ok(t),
        None => Err(SigningFailure),
    }
}

/// Issues and verifies identity tokens under one shared secret.
#[derive(Clone, Debug)]
pub struct TokenService {
    pub secret: String,
}

impl TokenService {
    pub fn new(secret: String) -> (r: TokenService)
        ensures
            r.secret@ == secret@,
    {
        TokenService { secret }
    }

    /// A token for `identity`, issued at `now`, valid for `TOKEN_TTL_HOURS` hours.
    pub fn issue(&self, identity: Identity, now: u64) -> (r: Result<String, SigningFailure>)
        requires
            expiry_after(now, TOKEN_TTL_HOURS) <= u64::MAX,
        ensures
            match hs256_token(
                uuid_text(identity.value),
                expiry_after(now, TOKEN_TTL_HOURS) as u64,
                self.secret@,
            ) {
                Some(t) => r is Ok && r.unwrap()@ == t,
                None => r == Err::<String, SigningFailure>(SigningFailure),
            },
    {
        issue_jwt(identity, self.secret.as_str(), now, TOKEN_TTL_HOURS)
    }

    /// The identity and expiry carried by `token`, checked at time `now`.
    pub fn verify(&self, token: &str, now: u64) -> (r: Result<(Identity, u64), VerificationError>)
        ensures
            r == claims_verdict(hs256_claims(token@, self.secret@), now),
    {
        verify_jwt(token, self.secret.as_str(), now)
    }
}

/// Claims that carry an identity's canonical text as subject and expiry
/// `exp` are accepted as that identity and expiry strictly before `exp`, and
/// rejected as expired from `exp` on.
pub proof fn lemma_identity_claims_verdict(identity: Identity, exp: u64, now: u64)
    ensures
        now < exp ==> claims_verdict(Some((exp, Some(uuid_text(identity.value)))), now) == Ok::<
            (Identity, u64),
            VerificationError,
        >((identity, exp)),
        now >= exp ==> claims_verdict(Some((exp, Some(uuid_text(identity.value)))), now) == Err::<
            (Identity, u64),
            VerificationError,
        >(VerificationError::Expired),
{
    crate::identity::lemma_uuid_text_round_trip(identity.value);
}

/// A token issued at `issued_at` with the standard lifetime expires exactly
/// `TOKEN_TTL_HOURS` hours (86400 seconds) later; claims it carries are
/// accepted before then and rejected as expired from then on.
pub proof fn lemma_issued_claims_lifetime(identity: Identity, issued_at: u64, now: u64)
    requires
        expiry_after(issued_at, TOKEN_TTL_HOURS) <= u64::MAX,
    ensures
        expiry_after(issued_at, TOKEN_TTL_HOURS) == issued_at + 86400,
        now < issued_at + 86400 ==> claims_verdict(
            Some(((issued_at + 86400) as u64, Some(uuid_text(identity.value)))),
            now,
        ) == Ok::<(Identity, u64), VerificationError>((identity, (issued_at + 86400) as u64)),
        now >= issued_at + 86400 ==> claims_verdict(
            Some(((issued_at + 86400) as u64, Some(uuid_text(identity.value)))),
            now,
        ) == Err::<(Identity, u64), VerificationError>(VerificationError::Expired),
{
    lemma_identity_claims_verdict(identity, (issued_at + 86400) as u64, now);
}

} // verus!
