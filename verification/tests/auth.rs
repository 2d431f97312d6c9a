use anchor::auth::{
    check_access_at, ct_eq_str, is_public, login_at, logout_cookie, mint_session, mint_session_at,
    session_cookie, session_valid_at, unauthorized_response, verify_session, verify_session_at,
    Access, AuthConfig, LoginError, VerifyError, COOKIE_NAME, SESSION_TTL_SECS,
};

fn test_auth() -> AuthConfig {
    AuthConfig {
        username: "admin".into(),
        password: "secret".into(),
        session_secret: b"test-session-secret-bytes!!".to_vec(),
        cookie_secure: false,
    }
}

#[test]
fn mint_and_verify_roundtrip() {
    let auth = test_auth();
    let tok = mint_session(&auth, "admin").unwrap();
    assert_eq!(verify_session(&auth, &tok).unwrap(), "admin");
}

#[test]
fn rejects_tampered_token() {
    let auth = test_auth();
    let tok = mint_session(&auth, "admin").unwrap();
    let bad = format!("{tok}x");
    assert!(verify_session(&auth, &bad).is_err());
}

#[test]
fn password_compare_constant_ish() {
    assert!(ct_eq_str("abc", "abc"));
    assert!(!ct_eq_str("abc", "abd"));
    assert!(!ct_eq_str("abc", "ab"));
}

#[test]
fn public_paths() {
    assert!(is_public("/healthz"));
    assert!(is_public("/login"));
    assert!(is_public("/static/style.css"));
    assert!(!is_public("/"));
    assert!(!is_public("/api/repos"));
    assert!(!is_public("/ws/terminal/x/cursor"));
}

#[test]
fn middleware_rejects_api_without_cookie() {
    let auth = test_auth();
    let r = check_access_at(&auth, "/api/repos", None, Some("application/json"), 1_000);
    assert_eq!(r, Access::Unauthorized);
}

#[test]
fn middleware_allows_valid_session() {
    let auth = test_auth();
    let tok = mint_session(&auth, "admin").unwrap();
    let cookie = format!("{COOKIE_NAME}={tok}");
    let now = anchor::auth::now_secs();
    let r = check_access_at(&auth, "/api/repos", Some(&cookie), None, now);
    assert_eq!(r, Access::Allow);
}

#[test]
fn token_layout_is_payload_and_hex_signature() {
    let auth = test_auth();
    let tok = mint_session_at(&auth, "admin", 100).unwrap();
    let exp = 100 + SESSION_TTL_SECS;
    let prefix = format!("admin|{exp}|");
    assert!(tok.starts_with(&prefix));
    let sig = &tok[prefix.len()..];
    assert_eq!(sig.len(), 64);
    assert!(sig.chars().all(|c| c.is_ascii_hexdigit() && !c.is_ascii_uppercase()));
}

#[test]
fn expired_token_is_refused() {
    let auth = test_auth();
    let tok = mint_session_at(&auth, "admin", 100).unwrap();
    let exp = 100 + SESSION_TTL_SECS;
    assert_eq!(verify_session_at(&auth, &tok, exp).unwrap(), "admin");
    assert_eq!(verify_session_at(&auth, &tok, exp + 1), Err(VerifyError::Expired));
}

#[test]
fn token_for_other_user_is_refused() {
    let auth = test_auth();
    let tok = mint_session_at(&auth, "mallory", 100).unwrap();
    assert_eq!(verify_session_at(&auth, &tok, 200), Err(VerifyError::UserMismatch));
}

#[test]
fn token_from_other_secret_is_refused() {
    let auth = test_auth();
    let mut other = test_auth();
    other.session_secret = b"another-secret".to_vec();
    let tok = mint_session_at(&other, "admin", 100).unwrap();
    assert_eq!(verify_session_at(&auth, &tok, 200), Err(VerifyError::BadSignature));
    assert_eq!(verify_session_at(&auth, "no-dot-here", 200), Err(VerifyError::BadToken));
}

#[test]
fn session_cookie_among_others_is_found() {
    let auth = test_auth();
    let tok = mint_session_at(&auth, "admin", 100).unwrap();
    let header = format!("theme=dark; {COOKIE_NAME}={tok}; other=1");
    assert!(session_valid_at(&auth, Some(&header), 200));
    assert!(!session_valid_at(&auth, Some("theme=dark"), 200));
    assert!(!session_valid_at(&auth, None, 200));
}

#[test]
fn browsers_are_sent_to_login_but_api_gets_401() {
    assert_eq!(unauthorized_response(Some("text/html,application/xhtml+xml"), "/"), Access::RedirectToLogin);
    assert_eq!(unauthorized_response(Some("text/html"), "/api/repos"), Access::Unauthorized);
    assert_eq!(unauthorized_response(Some("text/html"), "/ws/terminal/x/cursor"), Access::Unauthorized);
    assert_eq!(unauthorized_response(None, "/"), Access::Unauthorized);
}

#[test]
fn login_checks_both_credentials() {
    let auth = test_auth();
    assert_eq!(login_at(&auth, "admin", "wrong", 100), Err(LoginError::InvalidCredentials));
    assert_eq!(login_at(&auth, "root", "secret", 100), Err(LoginError::InvalidCredentials));
    let tok = login_at(&auth, "admin", "secret", 100).unwrap();
    assert_eq!(verify_session_at(&auth, &tok, 100).unwrap(), "admin");
    assert_eq!(login_at(&auth, "admin", "secret", u64::MAX), Err(LoginError::ClockOutOfRange));
}

#[test]
fn cookies_carry_expected_attributes() {
    let mut auth = test_auth();
    let c = session_cookie(&auth, "tok");
    assert_eq!(c, "anchor_session=tok; HttpOnly; SameSite=Lax; Path=/; Max-Age=1209600");
    auth.cookie_secure = true;
    let c = session_cookie(&auth, "tok");
    assert!(c.contains("; Secure"));
    let out = logout_cookie(&auth);
    assert!(out.starts_with("anchor_session=;"));
    assert!(out.contains("Max-Age=0"));
}

#[test]
fn mint_refuses_an_expiry_past_u64() {
    let auth = test_auth();
    assert_eq!(mint_session_at(&auth, "admin", u64::MAX).unwrap_err(), "clock out of range");
    assert!(mint_session_at(&auth, "admin", u64::MAX - 1_209_600).is_ok());
}
