use financetracker::gate::{authenticate, authenticate_for, authorize_target, bearer_token, GateRejection};
use financetracker::identity::Identity;
use financetracker::token::TokenService;

const ID: Identity = Identity { value: 0x67e5_5044_10b1_426f_9247_bb68_0e5f_e0c8 };
const OTHER: Identity = Identity { value: 42 };
const NOW: u64 = 1_767_225_600;

fn service() -> TokenService {
    TokenService::new("gate_secret".to_string())
}

#[test]
fn missing_header_is_rejected() {
    let r = authenticate(None, &service(), NOW);
    assert_eq!(r, Err(GateRejection::NoHeader));
    assert_eq!(GateRejection::NoHeader.status_code(), 401);
    assert_eq!(GateRejection::NoHeader.message(), "Missing Authorization header");
}

#[test]
fn header_without_bearer_prefix_is_rejected() {
    let t = service().issue(ID, NOW).unwrap();
    assert_eq!(authenticate(Some(&t), &service(), NOW), Err(GateRejection::MalformedHeader));
    let basic = format!("Basic {}", t);
    assert_eq!(authenticate(Some(&basic), &service(), NOW), Err(GateRejection::MalformedHeader));
    let lower = format!("bearer {}", t);
    assert_eq!(authenticate(Some(&lower), &service(), NOW), Err(GateRejection::MalformedHeader));
    assert_eq!(GateRejection::MalformedHeader.status_code(), 401);
}

#[test]
fn expired_token_is_rejected() {
    let t = service().issue(ID, NOW).unwrap();
    let h = format!("Bearer {}", t);
    assert_eq!(authenticate(Some(&h), &service(), NOW + 86400), Err(GateRejection::Unauthorized));
    assert_eq!(GateRejection::Unauthorized.status_code(), 401);
    assert_eq!(GateRejection::Unauthorized.message(), "Invalid or expired token");
}

#[test]
fn valid_token_yields_identity() {
    let t = service().issue(ID, NOW).unwrap();
    let h = format!("Bearer {}", t);
    assert_eq!(authenticate(Some(&h), &service(), NOW + 10), Ok(ID));
}

#[test]
fn mismatched_target_is_rejected() {
    let t = service().issue(ID, NOW).unwrap();
    let h = format!("Bearer {}", t);
    assert_eq!(authenticate_for(Some(&h), OTHER, &service(), NOW), Err(GateRejection::Unauthorized));
    assert_eq!(authenticate_for(Some(&h), ID, &service(), NOW), Ok(ID));
    assert_eq!(authorize_target(ID, OTHER), Err(GateRejection::Unauthorized));
    assert_eq!(authorize_target(ID, ID), Ok(ID));
}

#[test]
fn token_signed_with_other_secret_is_rejected() {
    let t = TokenService::new("other".to_string()).issue(ID, NOW).unwrap();
    let h = format!("Bearer {}", t);
    assert_eq!(authenticate(Some(&h), &service(), NOW), Err(GateRejection::Unauthorized));
}

#[test]
fn bearer_token_strips_scheme() {
    assert_eq!(bearer_token("Bearer abc.def"), Some("abc.def"));
    assert_eq!(bearer_token("Bearer "), Some(""));
    assert_eq!(bearer_token("Bearerabc"), None);
    assert_eq!(bearer_token(""), None);
}
