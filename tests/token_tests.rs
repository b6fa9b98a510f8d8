use financetracker::identity::Identity;
use financetracker::token::{
    accept_claims, issue_jwt, verify_jwt, TokenClaims, TokenService, VerificationError,
};

const ID: Identity = Identity { value: 0x67e5_5044_10b1_426f_9247_bb68_0e5f_e0c8 };
const NOW: u64 = 1_767_225_600;

#[test]
fn issued_token_verifies_until_expiry() {
    let tokens = TokenService::new("test_secret".to_string());
    let t = tokens.issue(ID, NOW).unwrap();
    assert_eq!(tokens.verify(&t, NOW), Ok((ID, NOW + 86400)));
    assert_eq!(tokens.verify(&t, NOW + 86399), Ok((ID, NOW + 86400)));
    assert_eq!(tokens.verify(&t, NOW + 86400), Err(VerificationError::Expired));
    assert_eq!(tokens.verify(&t, NOW + 90000), Err(VerificationError::Expired));
}

#[test]
fn issuing_is_deterministic_for_a_fixed_time() {
    let a = issue_jwt(ID, "s", NOW, 24).unwrap();
    let b = issue_jwt(ID, "s", NOW, 24).unwrap();
    assert_eq!(a, b);
    assert_eq!(a.split('.').count(), 3);
}

#[test]
fn ttl_sets_expiry() {
    let t = issue_jwt(ID, "s", NOW, 1).unwrap();
    assert_eq!(verify_jwt(&t, "s", NOW), Ok((ID, NOW + 3600)));
}

#[test]
fn tampered_signature_is_rejected() {
    let t = issue_jwt(ID, "s", NOW, 24).unwrap();
    let sig_start = t.rfind('.').unwrap() + 1;
    for i in sig_start..t.len() {
        let mut bytes = t.clone().into_bytes();
        bytes[i] = if bytes[i] == b'A' { b'B' } else { b'A' };
        let tampered = String::from_utf8(bytes).unwrap();
        assert_eq!(verify_jwt(&tampered, "s", NOW), Err(VerificationError::InvalidSignature));
    }
}

#[test]
fn wrong_secret_is_rejected() {
    let t = issue_jwt(ID, "s", NOW, 24).unwrap();
    assert_eq!(verify_jwt(&t, "other", NOW), Err(VerificationError::InvalidSignature));
}

#[test]
fn garbage_token_is_rejected() {
    assert_eq!(verify_jwt("abc", "s", NOW), Err(VerificationError::InvalidSignature));
    assert_eq!(verify_jwt("", "s", NOW), Err(VerificationError::InvalidSignature));
}

#[test]
fn claims_verdicts() {
    let sub = Some(ID.to_text());
    assert_eq!(
        accept_claims(Some(TokenClaims { exp: NOW + 1, sub: sub.clone() }), NOW),
        Ok((ID, NOW + 1))
    );
    assert_eq!(
        accept_claims(Some(TokenClaims { exp: NOW, sub: sub.clone() }), NOW),
        Err(VerificationError::Expired)
    );
    assert_eq!(
        accept_claims(Some(TokenClaims { exp: NOW + 1, sub: Some("nobody".to_string()) }), NOW),
        Err(VerificationError::MalformedSubject)
    );
    assert_eq!(
        accept_claims(Some(TokenClaims { exp: NOW + 1, sub: None }), NOW),
        Err(VerificationError::MalformedSubject)
    );
    assert_eq!(accept_claims(None, NOW), Err(VerificationError::InvalidSignature));
}

#[test]
fn expired_check_comes_before_subject_check() {
    assert_eq!(
        accept_claims(Some(TokenClaims { exp: NOW - 1, sub: None }), NOW),
        Err(VerificationError::Expired)
    );
}
