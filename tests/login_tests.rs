use financetracker::credential::hash_password;
use financetracker::gate::{authenticate_for, GateRejection};
use financetracker::identity::Identity;
use financetracker::login::{login, LoginError, StoredCredential};
use financetracker::token::TokenService;

const NOW: u64 = 1_767_225_600;
const USER: Identity = Identity { value: 0x550e_8400_e29b_41d4_a716_4466_5544_0000 };

fn registered() -> StoredCredential {
    StoredCredential { user_id: USER, password_hash: hash_password("bestPassword").unwrap() }
}

fn tokens() -> TokenService {
    TokenService::new("login_secret".to_string())
}

#[test]
fn test_login_and_jwt() {
    let cred = registered();
    let resp = login(Some(&cred), "bestPassword", &tokens(), NOW).unwrap();
    assert_eq!(resp.user_id, USER);
    let (sub, exp) = tokens().verify(&resp.access_token, NOW).unwrap();
    assert_eq!(sub.to_text(), USER.to_text());
    assert!(exp > NOW);
}

#[test]
fn test_login_with_nonexistent_user() {
    let r = login(None, "wrongpassword", &tokens(), NOW);
    assert_eq!(r, Err(LoginError::CredentialMismatch));
}

#[test]
fn test_login_with_incorrect_password() {
    let cred = registered();
    let r = login(Some(&cred), "wrongpassword", &tokens(), NOW);
    assert_eq!(r, Err(LoginError::CredentialMismatch));
}

#[test]
fn test_access_protected_route_without_jwt() {
    let r = authenticate_for(None, Identity { value: 7 }, &tokens(), NOW);
    assert_eq!(r, Err(GateRejection::NoHeader));
    assert_eq!(r.unwrap_err().status_code(), 401);
}

#[test]
fn test_access_protected_route_with_wrong_jwt() {
    let cred = registered();
    let resp = login(Some(&cred), "bestPassword", &tokens(), NOW).unwrap();
    let header = format!("Bearer {}", resp.access_token);
    let different_user = Identity { value: 7 };
    let r = authenticate_for(Some(&header), different_user, &tokens(), NOW);
    assert_eq!(r, Err(GateRejection::Unauthorized));
}

#[test]
fn test_access_protected_route_with_valid_jwt() {
    let cred = registered();
    let resp = login(Some(&cred), "bestPassword", &tokens(), NOW).unwrap();
    let header = format!("Bearer {}", resp.access_token);
    let r = authenticate_for(Some(&header), resp.user_id, &tokens(), NOW);
    assert_eq!(r, Ok(USER));
}
