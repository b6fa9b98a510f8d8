//! Authentication and budget-progress core of a personal-finance backend.
//!
//! - `calendar`: dates and the half-open month window used by aggregation.
//! - `identity`: user identities and their canonical text form.
//! - `credential`: password hashing and verification.
//! - `token`: signed, time-bounded identity tokens.
//! - `gate`: per-request identity extraction and ownership checks.
//! - `ledger`: transactions, budgets and budget-progress aggregation.
pub mod calendar;
pub mod credential;
pub mod gate;
pub mod identity;
pub mod ledger;
pub mod login;
pub mod text;
pub mod token;

pub use crate::token::verify_jwt;
