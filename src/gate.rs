use vstd::prelude::*;

use crate::identity::Identity;
use crate::token::{TokenService, claims_verdict, hs256_claims};

verus! {

/// Why a protected request was turned away. Every kind is answered with
/// status 401; the kinds are kept apart only for diagnostics.
#[derive(Clone, Copy, Debug, PartialEq, Eq, Structural)]
pub enum GateRejection {
    /// The request carries no Authorization header.
    NoHeader,
    /// The header is not of the form `Bearer <token>`.
    MalformedHeader,
    /// The token did not verify, or names an identity other than the one the
    /// request targets.
    Unauthorized,
}

/// The authentication scheme that must open the Authorization header.
pub open spec fn bearer_scheme() -> Seq<char> {
    seq!['B', 'e', 'a', 'r', 'e', 'r', ' ']
}

/// Plain view of an optional header value.
pub open spec fn opt_str_view(s: Option<&str>) -> Option<Seq<char>> {
    match s {
        Some(t) => Some(t@),
        None => None,
    }
}

/// The outcome of the identity guard on an Authorization header (if any) for tokens
/// signed with `secret`, checked at time `now`.
pub open spec fn gate_verdict(header: Option<Seq<char>>, secret: Seq<char>, now: u64) -> Result<
    Identity,
    GateRejection,
> {
    match header {
        None => Err(GateRejection::NoHeader),
        Some(h) => if bearer_scheme().is_prefix_of(h) {
            match claims_verdict(hs256_claims(h.skip(bearer_scheme().len() as int), secret), now) {
                Ok((id, _)) => Ok(id),
                Err(_) => Err(GateRejection::Unauthorized),
            }
        } else {
            Err(GateRejection::MalformedHeader)
        },
    }
}

/// The guard's outcome when the request also names the identity it acts for.
pub open spec fn gate_verdict_for(
    header: Option<Seq<char>>,
    target: Identity,
    secret: Seq<char>,
    now: u64,
) -> Result<Identity, GateRejection> {
    match gate_verdict(header, secret, now) {
        Ok(id) => if id == target {
            Ok(id)
        } else {
            Err(GateRejection::Unauthorized)
        },
        Err(e) => Err(e),
    }
}

/// Relies on `str::strip_prefix`: the rest of `s` after `prefix`, when `s`
/// starts with it.
#[verifier::external_body]
fn strip_prefix<'a>(s: &'a str, prefix: &str) -> (r: Option<&'a str>)
    ensures
        match r {
            Some(rest) => s@ == prefix@ + rest@,
            None => !prefix@.is_prefix_of(s@),
        },
{
    s.strip_prefix(prefix)
}

impl GateRejection {
    /// The HTTP status every rejection is answered with.
    pub fn status_code(&self) -> (r: u16)
        ensures
            r == 401,
    {
        401
    }

    /// The message sent with the rejection.
    pub fn message(&self) -> (r: &'static str)
        ensures
            *self == GateRejection::NoHeader ==> r@ == "Missing Authorization header"@,
            *self == GateRejection::MalformedHeader ==> r@
                == "Invalid Authorization format, expected: Bearer <token>"@,
            *self == GateRejection::Unauthorized ==> r@ == "Invalid or expired token"@,
    {
        match self {
            GateRejection::NoHeader => "Missing Authorization header",
            GateRejection::MalformedHeader => "Invalid Authorization format, expected: Bearer <token>",
            GateRejection::Unauthorized => "Invalid or expired token",
        }
    }
}

/// The token in a `Bearer <token>` header value, or `None` when the value
/// does not open with the scheme.
pub fn bearer_token(header: &str) -> (r: Option<&str>)
    ensures
        bearer_scheme().is_prefix_of(header@) ==> r is Some && r.unwrap()@ == header@.skip(
            bearer_scheme().len() as int,
        ),
        !bearer_scheme().is_prefix_of(header@) ==> r is None,
{
    let scheme = "Bearer ";
    proof {
        reveal_strlit("Bearer ");
        assert(scheme@ =~= bearer_scheme());
    }
    let r = strip_prefix(header, scheme);
    proof {
        if let Some(rest) = r {
            assert(rest@ =~= header@.skip(7));
        }
    }
    r
}

/// Extracts and verifies the identity of a request from its Authorization
/// header at time `now`.
pub fn authenticate(header: Option<&str>, tokens: &TokenService, now: u64) -> (r: Result<
    Identity,
    GateRejection,
>)
    ensures
        r == gate_verdict(opt_str_view(header), tokens.secret@, now),
{
    let value = match header {
        Some(v) => v,
        None => return Err(GateRejection::NoHeader),
    };
    let token = match bearer_token(value) {
        Some(t) => t,
        None => return Err(GateRejection::MalformedHeader),
    };
    match tokens.verify(token, now) {
        Ok((id, _)) => Ok(id),
        Err(_) => Err(GateRejection::Unauthorized),
    }
}

/// Requires the verified identity to be the one a request acts for; a
/// mismatch is `Unauthorized`, never a substitution.
pub fn authorize_target(verified: Identity, target: Identity) -> (r: Result<Identity, GateRejection>)
    ensures
        verified == target ==> r == Ok::<Identity, GateRejection>(verified),
        verified != target ==> r == Err::<Identity, GateRejection>(GateRejection::Unauthorized),
{
    if verified == target {
        Ok(verified)
    } else {
        Err(GateRejection::Unauthorized)
    }
}

/// Authenticates a request that names the identity it acts for.
pub fn authenticate_for(header: Option<&str>, target: Identity, tokens: &TokenService, now: u64) -> (r:
    Result<Identity, GateRejection>)
    ensures
        r == gate_verdict_for(opt_str_view(header), target, tokens.secret@, now),
{
    match authenticate(header, tokens, now) {
        Ok(id) => authorize_target(id, target),
        Err(e) => Err(e),
    }
}

/// The identity guard turns away a request without an Authorization header, one whose
/// header does not open with `Bearer `, one whose token has expired (even when
/// its signature is good), and one authenticated as an identity other than the
/// one it targets; each of these rejections is answered with status 401.
pub proof fn lemma_gate_rejects(header: Option<Seq<char>>, target: Identity, secret: Seq<char>, now: u64)
    ensures
        header is None ==> gate_verdict_for(header, target, secret, now) == Err::<
            Identity,
            GateRejection,
        >(GateRejection::NoHeader),
        header matches Some(h) && !bearer_scheme().is_prefix_of(h) ==> gate_verdict_for(
            header,
            target,
            secret,
            now,
        ) == Err::<Identity, GateRejection>(GateRejection::MalformedHeader),
        match header {
            Some(h) => bearer_scheme().is_prefix_of(h) ==> match hs256_claims(
                h.skip(bearer_scheme().len() as int),
                secret,
            ) {
                Some((exp, _)) => exp <= now ==> gate_verdict_for(header, target, secret, now)
                    == Err::<Identity, GateRejection>(GateRejection::Unauthorized),
                None => true,
            },
            None => true,
        },
        gate_verdict(header, secret, now) matches Ok(id) && id != target ==> gate_verdict_for(
            header,
            target,
            secret,
            now,
        ) == Err::<Identity, GateRejection>(GateRejection::Unauthorized),
{
}

} // verus!
