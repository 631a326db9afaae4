use auth_core::auth::AuthService;
use auth_core::error::AppError;
use auth_core::model::{CreateUserRequest, Role};
use auth_core::store::MemoryRepository;
use auth_core::users::UserService;

fn store_with_user(username: &str, email: Option<&str>, password: &str) -> MemoryRepository {
    let mut users = UserService::new(MemoryRepository::new());
    let created = users.create_user(CreateUserRequest {
        username: username.to_string(),
        email: email.map(|e| e.to_string()),
        password: password.to_string(),
    });
    assert!(created.is_ok());
    users.repository
}

fn auth_with_user(username: &str, email: Option<&str>, password: &str) -> AuthService {
    AuthService::new(store_with_user(username, email, password), "secret".to_string())
}

#[test]
fn test_login_returns_tokens() {
    // Register exactly alice/Secret123, then log in with that pair.
    let mut auth = auth_with_user("alice", None, "Secret123");
    let (user, access_token, refresh_token) =
        auth.authenticate("alice", "Secret123").expect("login should succeed");
    assert_eq!(user.username, "alice");
    assert_eq!(user.role, Role::User);
    assert!(!access_token.is_empty());
    assert!(!refresh_token.is_empty());
    // Refresh tokens are hyphenated UUID text.
    assert_eq!(refresh_token.len(), 36);
}

#[test]
fn test_login_failure_does_not_reveal_usernames() {
    let mut auth = auth_with_user("alice", None, "Secret123");
    let wrong_password = auth.authenticate("alice", "wrong").unwrap_err();
    let unknown_user = auth.authenticate("nobody", "Secret123").unwrap_err();
    // Both failures carry the same shape and the same message, so a caller
    // cannot probe which usernames exist.
    match (&wrong_password, &unknown_user) {
        (AppError::AuthError(a), AppError::AuthError(b)) => assert_eq!(a, b),
        _ => panic!("both failures must be authentication errors"),
    }
}

#[test]
fn test_hash_verify_round_trip() {
    let auth = AuthService::new(MemoryRepository::new(), "secret".to_string());
    let hash = auth.hash_password("Secret123").expect("hashing should succeed");
    assert!(auth.verify_password(&hash, "Secret123").is_ok());
    assert!(auth.verify_password(&hash, "Secret124").is_err());
    assert!(auth.verify_password(&hash, "").is_err());
    // A corrupted stored hash is rejected too.
    assert!(auth.verify_password("not-a-phc-string", "Secret123").is_err());
}

#[test]
fn test_access_token_round_trip() {
    let auth = auth_with_user("alice", None, "Secret123");
    let user = auth.repository.get_by_username("alice").unwrap();
    let token = auth.generate_access_token(&user).expect("token should be issued");
    let claims = auth.decode_token(&token).expect("token should decode");
    assert_eq!(claims.sub, "alice");
    assert_eq!(claims.role, Role::User);
    assert_eq!(claims.user_id, user.id);
    assert!(!claims.is_admin());

    // A different secret must not accept the token, and the error does not
    // say which check failed.
    let other = AuthService::new(MemoryRepository::new(), "other-secret".to_string());
    match other.decode_token(&token) {
        Err(AppError::AuthError(m)) => assert_eq!(m, "invalid token"),
        _ => panic!("a foreign-signed token must be an authentication error"),
    }
}

#[test]
fn test_expired_access_token_rejected() {
    let auth = auth_with_user("alice", None, "Secret123");
    let user = auth.repository.get_by_username("alice").unwrap();
    // Claims whose expiry passed long ago fail the decode-time check.
    let stale = auth.generate_access_token_at(&user, 1000).expect("token should be issued");
    assert!(auth.decode_token(&stale).is_err());
}

#[test]
fn test_rotation_issues_new_pair() {
    let mut auth = auth_with_user("alice", None, "Secret123");
    let (_, _, refresh_token) = auth.authenticate("alice", "Secret123").unwrap();
    let response = auth.refresh_access_token(&refresh_token).expect("rotation should succeed");
    assert!(!response.access_token.is_empty());
    assert!(!response.refresh_token.is_empty());
    assert_ne!(response.refresh_token, refresh_token);
    assert_eq!(response.expires_in, 900);
    assert_eq!(response.token_type, "Bearer");
}

#[test]
fn test_second_rotation_fails_already_used() {
    let mut auth = auth_with_user("alice", None, "Secret123");
    let (_, _, refresh_token) = auth.authenticate("alice", "Secret123").unwrap();
    auth.refresh_access_token(&refresh_token).expect("first rotation should succeed");
    let err = auth.refresh_access_token(&refresh_token).unwrap_err();
    match err {
        AppError::AuthError(m) => assert_eq!(m, "token already used"),
        _ => panic!("a spent token must be an authentication error"),
    }
}

#[test]
fn test_rotation_of_unknown_token_fails() {
    let mut auth = auth_with_user("alice", None, "Secret123");
    let err = auth.refresh_access_token("no-such-token").unwrap_err();
    match err {
        AppError::AuthError(m) => assert_eq!(m, "invalid token"),
        _ => panic!("an unknown token must be an authentication error"),
    }
}

#[test]
fn test_expired_refresh_token_fails() {
    let mut auth = auth_with_user("alice", None, "Secret123");
    let now: i64 = 1_700_000_000;
    auth.authenticate_at("alice", "Secret123", now, "refresh-tok-1").unwrap();
    // 7 days and one second later the stored record has expired.
    let err = auth.refresh_access_token_at("refresh-tok-1", now + 604801, "refresh-tok-2")
        .unwrap_err();
    match err {
        AppError::AuthError(m) => assert_eq!(m, "token expired"),
        _ => panic!("an expired token must be an authentication error"),
    }
}

#[test]
fn test_reset_token_expires_and_applies_nothing() {
    let mut auth = auth_with_user("alice", Some("alice@example.com"), "Secret123");
    let now: i64 = 1_700_000_000;
    let token = auth.initiate_password_reset_at("alice@example.com", "reset-tok", now)
        .unwrap()
        .expect("a token must be minted for a known email");
    // One hour and one second later the consume attempt fails as expired...
    let err = auth.reset_password_at(&token, "NewSecret456", now + 3601).unwrap_err();
    match err {
        AppError::AuthError(m) => assert_eq!(m, "token expired"),
        _ => panic!("an expired token must be an authentication error"),
    }
    // ...and the password change was never applied.
    assert!(auth.authenticate("alice", "Secret123").is_ok());
    assert!(auth.authenticate("alice", "NewSecret456").is_err());
}

#[test]
fn test_reset_token_is_single_use() {
    let mut auth = auth_with_user("alice", Some("alice@example.com"), "Secret123");
    let now: i64 = 1_700_000_000;
    let token = auth.initiate_password_reset_at("alice@example.com", "reset-tok", now)
        .unwrap()
        .unwrap();
    auth.reset_password_at(&token, "NewSecret456", now + 10).expect("first use must succeed");
    let err = auth.reset_password_at(&token, "ThirdSecret789", now + 20).unwrap_err();
    match err {
        AppError::AuthError(m) => assert_eq!(m, "token already used"),
        _ => panic!("a spent token must be an authentication error"),
    }
    assert!(auth.authenticate("alice", "NewSecret456").is_ok());
}

#[test]
fn test_reset_password_revokes_refresh_tokens() {
    let mut auth = auth_with_user("alice", Some("alice@example.com"), "Secret123");
    let (_, _, refresh_token) = auth.authenticate("alice", "Secret123").unwrap();
    let reset_token = auth.initiate_password_reset("alice@example.com")
        .unwrap()
        .expect("a token must be minted for a known email");
    auth.reset_password(&reset_token, "NewSecret456").expect("reset should succeed");
    // The refresh token issued before the reset is gone for good.
    let err = auth.refresh_access_token(&refresh_token).unwrap_err();
    match err {
        AppError::AuthError(m) => assert_eq!(m, "invalid token"),
        _ => panic!("a revoked token must be an authentication error"),
    }
    assert!(auth.authenticate("alice", "NewSecret456").is_ok());
    assert!(auth.authenticate("alice", "Secret123").is_err());
}

#[test]
fn test_weak_reset_password_rejected() {
    let mut auth = auth_with_user("alice", Some("alice@example.com"), "Secret123");
    let token = auth.initiate_password_reset("alice@example.com").unwrap().unwrap();
    match auth.reset_password(&token, "short") {
        Err(AppError::Validation(_)) => {},
        _ => panic!("a weak password must be a validation error"),
    }
}

#[test]
fn test_forgot_password_shape_hides_existence() {
    let mut auth = auth_with_user("alice", Some("alice@example.com"), "Secret123");
    // A known and an unknown address both come back without an error; only
    // the minted token differs, and that is never shown to the caller.
    let known = auth.initiate_password_reset("alice@example.com").unwrap();
    let unknown = auth.initiate_password_reset("nobody@example.com").unwrap();
    assert!(known.is_some());
    assert!(unknown.is_none());
    // A malformed address is the one rejected shape.
    assert!(auth.initiate_password_reset("not-an-email-at-all").is_err());
}

#[test]
fn test_email_verification_flow() {
    let mut auth = auth_with_user("alice", Some("alice@example.com"), "Secret123");
    let user = auth.repository.get_by_username("alice").unwrap();
    assert!(!user.email_verified);
    let token = auth.initiate_email_verification(user.id)
        .unwrap()
        .expect("an unverified user with an email gets a token");
    auth.verify_email(&token).expect("verification should succeed");
    let user = auth.repository.get_by_username("alice").unwrap();
    assert!(user.email_verified);
    // The token is single-use.
    let err = auth.verify_email(&token).unwrap_err();
    match err {
        AppError::AuthError(m) => assert_eq!(m, "token already used"),
        _ => panic!("a spent token must be an authentication error"),
    }
    // A verified user gets no further token.
    assert!(auth.initiate_email_verification(user.id).unwrap().is_none());
}

#[test]
fn test_expired_verification_token_applies_nothing() {
    let mut auth = auth_with_user("alice", Some("alice@example.com"), "Secret123");
    let user = auth.repository.get_by_username("alice").unwrap();
    let now: i64 = 1_700_000_000;
    let token = auth.initiate_email_verification_at(user.id, "verify-tok", now).unwrap().unwrap();
    // 24 hours and one second later the consume attempt fails as expired...
    let err = auth.verify_email_at(&token, now + 86401).unwrap_err();
    match err {
        AppError::AuthError(m) => assert_eq!(m, "token expired"),
        _ => panic!("an expired token must be an authentication error"),
    }
    // ...and the flag was never flipped.
    let user = auth.repository.get_by_username("alice").unwrap();
    assert!(!user.email_verified);
}

#[test]
fn test_change_password_checks_current_and_revokes() {
    let mut auth = auth_with_user("alice", None, "Secret123");
    let (user, _, refresh_token) = auth.authenticate("alice", "Secret123").unwrap();
    match auth.change_password(user.id, "wrong-current", "NewSecret456") {
        Err(AppError::Validation(_)) => {},
        _ => panic!("a wrong current password must be a validation error"),
    }
    auth.change_password(user.id, "Secret123", "NewSecret456").expect("change should succeed");
    assert!(auth.authenticate("alice", "NewSecret456").is_ok());
    assert!(auth.refresh_access_token(&refresh_token).is_err());
}

#[test]
fn test_logout_all_revokes_every_session() {
    let mut auth = auth_with_user("alice", None, "Secret123");
    let (user, _, first) = auth.authenticate("alice", "Secret123").unwrap();
    let (_, _, second) = auth.authenticate("alice", "Secret123").unwrap();
    auth.logout_all_sessions(user.id).unwrap();
    assert!(auth.refresh_access_token(&first).is_err());
    assert!(auth.refresh_access_token(&second).is_err());
}

#[test]
fn test_is_valid_email_shape() {
    let auth = AuthService::new(MemoryRepository::new(), "secret".to_string());
    assert!(auth.is_valid_email("a@b"));
    assert!(!auth.is_valid_email(""));
    assert!(!auth.is_valid_email("plainaddress"));
}

#[test]
fn test_password_strength_boundary() {
    let auth = AuthService::new(MemoryRepository::new(), "secret".to_string());
    assert!(auth.validate_password_strength("12345678").is_ok());
    assert!(auth.validate_password_strength("1234567").is_err());
}

#[test]
fn test_rotation_at_exact_expiry_still_succeeds() {
    let mut auth = auth_with_user("alice", None, "Secret123");
    let now: i64 = 1_700_000_000;
    auth.authenticate_at("alice", "Secret123", now, "refresh-tok-1").unwrap();
    // The boundary instant itself is still within the token's life.
    assert!(auth.refresh_access_token_at("refresh-tok-1", now + 604800, "refresh-tok-2").is_ok());
}

#[test]
fn test_duplicate_token_string_is_a_storage_fault() {
    let mut auth = auth_with_user("alice", None, "Secret123");
    let now: i64 = 1_700_000_000;
    auth.authenticate_at("alice", "Secret123", now, "refresh-tok-1").unwrap();
    let err = auth.authenticate_at("alice", "Secret123", now, "refresh-tok-1").unwrap_err();
    assert!(matches!(err, AppError::Database(_)));
}
