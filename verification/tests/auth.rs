use recipe_server::authjwt::{
    make_jwt_token, validate_bearer, JwtKeys, Registration, AuthBody, CLAIM_LIFETIME_SECONDS,
};
use recipe_server::error::AuthError;

const NOW: u64 = 1_700_000_000;

fn keys() -> JwtKeys {
    JwtKeys::new(b"a very secret signing key")
}

fn registration(code: &str) -> Registration {
    Registration {
        full_name: "First Last".to_string(),
        email: "firstlast@example.com".to_string(),
        access_code: code.to_string(),
    }
}

#[test]
fn issue_with_correct_code_validates_within_window() {
    let keys = keys();
    let reg_key = "openinvite".to_string();
    let body = make_jwt_token(&keys, &reg_key, &registration("openinvite"), NOW).unwrap();
    assert_eq!(body.token_type, "Bearer");
    let header = format!("Bearer {}", body.access_token);
    let claims = validate_bearer(&keys, &header, NOW).unwrap();
    assert_eq!(claims.iss, "recipe-server.po8.org");
    assert_eq!(claims.sub, "First Last <firstlast@example.com>");
    assert_eq!(claims.exp, NOW + CLAIM_LIFETIME_SECONDS);
    // still accepted at the last second of the window
    assert!(validate_bearer(&keys, &header, NOW + CLAIM_LIFETIME_SECONDS - 1).is_ok());
}

#[test]
fn issued_token_rejected_after_expiry() {
    let keys = keys();
    let reg_key = "openinvite".to_string();
    let body = make_jwt_token(&keys, &reg_key, &registration("openinvite"), NOW).unwrap();
    let header = format!("Bearer {}", body.access_token);
    let exp = NOW + CLAIM_LIFETIME_SECONDS;
    let err = validate_bearer(&keys, &header, exp + 1).unwrap_err();
    assert!(matches!(err, AuthError::Registration));
    assert!(validate_bearer(&keys, &header, exp).is_err());
}

#[test]
fn issue_with_wrong_code_fails_registration() {
    let keys = keys();
    let reg_key = "openinvite".to_string();
    let err = make_jwt_token(&keys, &reg_key, &registration("letmein"), NOW).unwrap_err();
    assert!(matches!(err, AuthError::Registration));
    // independent of the other fields
    let other = Registration {
        full_name: String::new(),
        email: "someone@example.org".to_string(),
        access_code: "OPENINVITE".to_string(),
    };
    let err = make_jwt_token(&keys, &reg_key, &other, NOW).unwrap_err();
    assert!(matches!(err, AuthError::Registration));
}

#[test]
fn malformed_header_fails_invalid_token() {
    let keys = keys();
    for header in ["", "Bearer", "bearer x", "Token abc", "Beare r x"] {
        let err = validate_bearer(&keys, &header.to_string(), NOW).unwrap_err();
        assert!(matches!(err, AuthError::InvalidToken), "header {:?}", header);
    }
}

#[test]
fn tampered_token_is_rejected() {
    let keys = keys();
    let reg_key = "openinvite".to_string();
    let body = make_jwt_token(&keys, &reg_key, &registration("openinvite"), NOW).unwrap();
    let mut token = body.access_token.clone();
    // flip the last character of the signature
    let last = token.pop().unwrap();
    token.push(if last == 'A' { 'B' } else { 'A' });
    let header = format!("Bearer {}", token);
    let err = validate_bearer(&keys, &header, NOW).unwrap_err();
    assert!(matches!(err, AuthError::Registration));
}

#[test]
fn token_signed_with_other_key_is_rejected() {
    let keys = keys();
    let other_keys = JwtKeys::new(b"a different secret");
    let reg_key = "openinvite".to_string();
    let body = make_jwt_token(&keys, &reg_key, &registration("openinvite"), NOW).unwrap();
    let header = format!("Bearer {}", body.access_token);
    let err = validate_bearer(&other_keys, &header, NOW).unwrap_err();
    assert!(matches!(err, AuthError::Registration));
}

#[test]
fn garbage_token_is_rejected() {
    let keys = keys();
    let err = validate_bearer(&keys, &"Bearer not.a.jwt".to_string(), NOW).unwrap_err();
    assert!(matches!(err, AuthError::Registration));
}

#[test]
fn auth_body_uses_bearer_scheme() {
    let body = AuthBody::new("token-value".to_string());
    assert_eq!(body.access_token, "token-value");
    assert_eq!(body.token_type, "Bearer");
}

#[test]
fn auth_error_statuses_and_messages() {
    assert_eq!(AuthError::InvalidToken.status(), 401);
    assert_eq!(AuthError::Registration.status(), 401);
    assert_eq!(AuthError::TokenCreation.status(), 500);
    assert_eq!(AuthError::InvalidToken.message(), "Invalid credentials");
    assert_eq!(AuthError::Registration.message(), "Invalid credentials");
    assert_eq!(AuthError::TokenCreation.message(), "Token creation error");
    // the two 401 rejections must be indistinguishable to the client
    assert_eq!(AuthError::InvalidToken.status(), AuthError::Registration.status());
    assert_eq!(AuthError::InvalidToken.message(), AuthError::Registration.message());
}
