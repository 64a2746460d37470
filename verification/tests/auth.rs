use citinet_hub::auth::{
    extract_bearer_token, generate_token, generate_token_at, hash_password, init_jwt_secret,
    is_expired, validate_token, validate_token_at, verify_password, AuthError,
};

const SECRET: &str = "test-secret-for-unit-tests-only";

#[test]
fn test_password_hashing() {
    let password = "test_password_123";
    let hash = hash_password(password).unwrap();
    assert!(verify_password(password, &hash).unwrap());
    assert!(!verify_password("wrong_password", &hash).unwrap());
}

#[test]
fn test_token_generation_and_validation() {
    let token = generate_token(SECRET, "user123", "testuser", false).unwrap();
    let claims = validate_token(SECRET, &token.token).unwrap();

    assert_eq!(claims.sub, "user123");
    assert_eq!(claims.username, "testuser");
    assert!(!claims.is_admin);
}

#[test]
fn test_bearer_token_extraction() {
    assert_eq!(extract_bearer_token("Bearer abc123"), Some("abc123"));
    assert_eq!(extract_bearer_token("abc123"), None);
    assert_eq!(extract_bearer_token(""), None);
}

#[test]
fn bearer_prefix_is_exact() {
    assert_eq!(extract_bearer_token("Bearer "), Some(""));
    assert_eq!(extract_bearer_token("bearer abc"), None);
    assert_eq!(extract_bearer_token("Bearer"), None);
    assert_eq!(extract_bearer_token(" Bearer abc"), None);
    assert_eq!(extract_bearer_token("Bearer t\u{00e9}st"), Some("t\u{00e9}st"));
}

#[test]
fn malformed_hash_is_an_error_not_a_mismatch() {
    assert_eq!(verify_password("secret", "not-a-bcrypt-hash"), Err(AuthError::MalformedHash));
}

#[test]
fn known_hash_verifies() {
    let hash = hash_password("hunter2").unwrap();
    assert_ne!(hash, "hunter2");
    assert!(hash.starts_with("$2"));
    assert_eq!(verify_password("hunter2", &hash), Ok(true));
}

#[test]
fn mismatch_against_a_made_hash_is_no_error() {
    let hash = hash_password("hunter2").unwrap();
    assert_eq!(verify_password("hunter3", &hash), Ok(false));
    assert_eq!(verify_password("", &hash), Ok(false));
}

#[test]
fn token_is_owed_for_every_time_that_can_be_written() {
    assert!(generate_token_at(SECRET, "u1", "alice", false, 0, 0).is_ok());
    assert!(generate_token_at(SECRET, "", "", false, -1_000_000, 999_999_999).is_ok());
    assert_eq!(generate_token_at(SECRET, "u1", "alice", false, i64::MAX, 0).err(), Some(AuthError::TokenCreation));
    assert_eq!(
        generate_token_at(SECRET, "u1", "alice", false, i64::MAX - 604_800, 0).err(),
        Some(AuthError::TokenCreation)
    );
    assert_eq!(generate_token_at("", "u1", "alice", false, 0, 2_000_000_000).err(), Some(AuthError::TokenCreation));
    assert!(generate_token_at("", "u1", "alice", false, 1_700_000_000, 0).is_ok());
}

#[test]
fn token_expires_seven_days_after_issue() {
    let now = 1_700_000_000i64;
    let token = generate_token_at(SECRET, "u1", "alice", true, now, 0).unwrap();
    assert_eq!(token.expires_at, "2023-11-21T22:13:20+00:00");
    assert_ne!(token.token, "u1");
    assert_eq!(token.token.split('.').count(), 3);

    let claims = validate_token_at(SECRET, &token.token, now + 10).unwrap();
    assert_eq!(claims.sub, "u1");
    assert_eq!(claims.username, "alice");
    assert!(claims.is_admin);
    assert_eq!(claims.iat, now);
    assert_eq!(claims.exp, now + 604_800);
}

#[test]
fn token_is_valid_until_expiry_and_leeway() {
    let now = 1_700_000_000i64;
    let token = generate_token_at(SECRET, "u1", "alice", false, now, 0).unwrap();
    let exp = now + 604_800;
    assert!(validate_token_at(SECRET, &token.token, exp).is_ok());
    assert!(validate_token_at(SECRET, &token.token, exp + 60).is_ok());
    assert_eq!(
        validate_token_at(SECRET, &token.token, exp + 61).err(),
        Some(AuthError::InvalidToken)
    );
}

#[test]
fn tampered_and_foreign_tokens_fail_alike() {
    let now = 1_700_000_000i64;
    let token = generate_token_at(SECRET, "u1", "alice", false, now, 0).unwrap();

    let mut tampered = token.token.clone();
    let last = tampered.pop().unwrap();
    tampered.push(if last == 'A' { 'B' } else { 'A' });
    assert_eq!(validate_token_at(SECRET, &tampered, now).err(), Some(AuthError::InvalidToken));

    assert_eq!(
        validate_token_at("another-secret", &token.token, now).err(),
        Some(AuthError::InvalidToken)
    );
    assert_eq!(validate_token_at(SECRET, "a.b.c", now).err(), Some(AuthError::InvalidToken));
    assert_eq!(validate_token_at(SECRET, "", now).err(), Some(AuthError::InvalidToken));
}

#[test]
fn expiry_rule() {
    assert!(!is_expired(100, 100));
    assert!(!is_expired(100, 160));
    assert!(is_expired(100, 161));
    assert!(is_expired(-1, 0));
    assert!(!is_expired(i64::MAX, i64::MAX));
    assert!(!is_expired(0, i64::MIN));
}

#[test]
fn token_cannot_be_issued_at_the_end_of_time() {
    assert_eq!(
        generate_token_at(SECRET, "u", "n", false, i64::MAX, 0).err(),
        Some(AuthError::TokenCreation)
    );
    assert_eq!(
        generate_token_at(SECRET, "u", "n", false, i64::MAX - 604_800, 0).err(),
        Some(AuthError::TokenCreation)
    );
}

#[test]
fn stored_secret_is_reused() {
    let s = init_jwt_secret(Some("abc".to_string())).unwrap();
    assert_eq!(s.value, "abc");
    assert!(!s.newly_generated);
}

#[test]
fn new_secret_is_sixty_four_hex_digits() {
    let a = init_jwt_secret(None).unwrap();
    assert!(a.newly_generated);
    assert_eq!(a.value.len(), 64);
    assert!(a.value.chars().all(|c| c.is_ascii_hexdigit() && !c.is_ascii_uppercase()));
    let b = init_jwt_secret(None).unwrap();
    assert_ne!(a.value, b.value);
}
