use authgate::auth::{
    access_token_from_refresh, extract_token_from_auth, extract_token_from_cookies, is_token_expired,
    refresh_access_token, should_require_token_verification, AuthConfig, AuthError,
};
use authgate::guard::{authorize_at, guard_step, GuardOutcome, GuardStep};
use authgate::token::{issue_at, verify_at, Claims, TokenError, REFRESH_TOKEN_TTL};

const NOW: u64 = 1_700_000_000;

fn config() -> AuthConfig {
    AuthConfig { access_secret: b"access".to_vec(), access_ttl: 300, refresh_secret: b"refresh".to_vec() }
}

#[test]
fn public_paths_skip_the_guard() {
    assert!(!should_require_token_verification("/auth"));
    assert!(!should_require_token_verification("/auth/login"));
    assert!(!should_require_token_verification("/authors"));
    assert!(should_require_token_verification("/secure"));
    assert!(should_require_token_verification("/"));
    assert!(should_require_token_verification(""));
    assert!(matches!(authorize_at(&config(), "/auth/login", None, None, NOW), GuardOutcome::Public));
}

#[test]
fn no_tokens_on_protected_path_is_rejected() {
    match authorize_at(&config(), "/secure", None, None, NOW) {
        GuardOutcome::Rejected(e) => assert_eq!(e, AuthError::MissingAccessToken),
        _ => panic!("expected a rejection"),
    }
}

#[test]
fn valid_access_token_is_kept() {
    let cfg = config();
    let access = issue_at(&cfg.access_secret, 42, "alice", 300, NOW);
    match authorize_at(&cfg, "/secure", Some(&access), None, NOW + 10) {
        GuardOutcome::Authorized { claims, token, renewed } => {
            assert_eq!(claims.uid, 42);
            assert_eq!(claims.username, "alice");
            assert_eq!(token, access);
            assert!(!renewed);
        }
        _ => panic!("expected authorization"),
    }
}

#[test]
fn expired_access_with_valid_refresh_is_renewed() {
    let cfg = config();
    let access = issue_at(&cfg.access_secret, 42, "alice", 300, NOW);
    let refresh = issue_at(&cfg.refresh_secret, 42, "alice", REFRESH_TOKEN_TTL, NOW);
    let later = NOW + 400;
    match authorize_at(&cfg, "/secure", Some(&access), Some(&refresh), later) {
        GuardOutcome::Authorized { claims, token, renewed } => {
            assert!(renewed);
            assert_ne!(token, access);
            assert_eq!(claims.uid, 42);
            assert_eq!(claims.exp, later + 300);
            let decoded = verify_at(&cfg.access_secret, &token, later).unwrap();
            assert_eq!(decoded.uid, 42);
            assert_eq!(decoded.username, "alice");
            assert_eq!(decoded.exp, later + 300);
        }
        _ => panic!("expected renewal"),
    }
}

#[test]
fn expired_access_and_expired_refresh_is_rejected() {
    let cfg = config();
    let access = issue_at(&cfg.access_secret, 42, "alice", 300, NOW);
    let refresh = issue_at(&cfg.refresh_secret, 42, "alice", 100, NOW);
    match authorize_at(&cfg, "/secure", Some(&access), Some(&refresh), NOW + 400) {
        GuardOutcome::Rejected(e) => assert_eq!(e, AuthError::ExpiredRefreshToken),
        _ => panic!("expected a rejection"),
    }
}

#[test]
fn expired_access_without_refresh_is_rejected() {
    let cfg = config();
    let access = issue_at(&cfg.access_secret, 42, "alice", 300, NOW);
    match authorize_at(&cfg, "/secure", Some(&access), None, NOW + 400) {
        GuardOutcome::Rejected(e) => assert_eq!(e, AuthError::MissingRefreshToken),
        _ => panic!("expected a rejection"),
    }
}

#[test]
fn refresh_token_cannot_serve_as_access_token() {
    let cfg = config();
    let refresh = issue_at(&cfg.refresh_secret, 42, "alice", REFRESH_TOKEN_TTL, NOW);
    match authorize_at(&cfg, "/secure", Some(&refresh), Some(&refresh), NOW) {
        GuardOutcome::Rejected(e) => assert_eq!(e, AuthError::InvalidAccessToken),
        _ => panic!("expected a rejection"),
    }
}

#[test]
fn access_token_cannot_serve_as_refresh_token() {
    let cfg = config();
    let access = issue_at(&cfg.access_secret, 42, "alice", 300, NOW);
    match authorize_at(&cfg, "/secure", Some(&access), Some(&access), NOW + 400) {
        GuardOutcome::Rejected(e) => assert_eq!(e, AuthError::InvalidRefreshToken),
        _ => panic!("expected a rejection"),
    }
}

#[test]
fn guard_step_transitions() {
    let c = || Claims::new("x".to_string(), 1, 5);
    assert!(matches!(guard_step(false, None, None), GuardStep::Public));
    assert!(matches!(guard_step(true, None, Some(Ok(c()))), GuardStep::Rejected(AuthError::MissingAccessToken)));
    assert!(matches!(
        guard_step(true, Some(Err(TokenError::BadSignature)), Some(Ok(c()))),
        GuardStep::Rejected(AuthError::InvalidAccessToken)
    ));
    assert!(matches!(guard_step(true, Some(Ok(c())), None), GuardStep::Authorized(_)));
    assert!(matches!(guard_step(true, Some(Err(TokenError::Expired)), Some(Ok(c()))), GuardStep::Renew(_)));
    assert!(matches!(
        guard_step(true, Some(Err(TokenError::Expired)), Some(Err(TokenError::Expired))),
        GuardStep::Rejected(AuthError::ExpiredRefreshToken)
    ));
}

#[test]
fn token_cookie_is_found() {
    let cookies = Some(vec![("a".to_string(), "1".to_string()), ("token".to_string(), "t".to_string())]);
    assert_eq!(extract_token_from_cookies(&cookies), Some("t".to_string()));
    assert_eq!(extract_token_from_cookies(&None), None);
    assert_eq!(extract_token_from_cookies(&Some(vec![])), None);
}

#[test]
fn authorization_value_splits_into_pairs() {
    let pairs = extract_token_from_auth("Bearer token=abc;refresh=def=ghi;lone");
    assert_eq!(
        pairs,
        vec![
            ("token".to_string(), "abc".to_string()),
            ("refresh".to_string(), "def".to_string()),
            ("lone".to_string(), "".to_string()),
        ]
    );
    assert_eq!(extract_token_from_auth(""), vec![("".to_string(), "".to_string())]);
    assert_eq!(extract_token_from_auth("Bearer Bearer x=1"), vec![("x".to_string(), "1".to_string())]);
}

#[test]
fn refresh_cookie_mints_access_token() {
    let cfg = config();
    let refresh = issue_at(&cfg.refresh_secret, 9, "dan", REFRESH_TOKEN_TTL, NOW);
    let cookies = Some(vec![("refresh".to_string(), refresh.clone())]);
    let minted = refresh_access_token(&cfg, &cookies, NOW).unwrap();
    assert_eq!(verify_at(&cfg.access_secret, &minted, NOW).unwrap().uid, 9);
    assert_eq!(access_token_from_refresh(&cfg, &refresh, NOW), Some(minted));
    assert_eq!(refresh_access_token(&cfg, &None, NOW), Err(AuthError::MissingRefreshToken));
    let bad = Some(vec![("refresh".to_string(), "junk".to_string())]);
    assert_eq!(refresh_access_token(&cfg, &bad, NOW), Err(AuthError::InvalidRefreshToken));
    assert_eq!(access_token_from_refresh(&cfg, "junk", NOW), None);
}

#[test]
fn expiry_check_distinguishes_expired_from_invalid() {
    let token = issue_at(b"k", 1, "u", 10, NOW);
    assert!(!is_token_expired(b"k", &token, NOW));
    assert!(is_token_expired(b"k", &token, NOW + 10));
    assert!(!is_token_expired(b"other", &token, NOW + 10));
}

#[test]
fn refusal_reasons() {
    assert_eq!(AuthError::MissingAccessToken.message(), "Could not extract access token");
    assert_eq!(AuthError::ExpiredRefreshToken.message(), "Could not verify access token");
}
