use std::sync::mpsc::channel;

use authgate::auth::AuthConfig;
use authgate::connection::{handle_request, handle_request_at, set_renewed_token, substitute_token, Handling};
use authgate::response::{not_found_response, unauthorized_response};
use authgate::router::{RouteReply, Router};
use authgate::token::{issue_at, verify_at, REFRESH_TOKEN_TTL};

const NOW: u64 = 1_700_000_000;

fn config() -> AuthConfig {
    AuthConfig { access_secret: b"access".to_vec(), access_ttl: 600, refresh_secret: b"refresh".to_vec() }
}

#[test]
fn public_path_without_cookies_is_routed_to_not_found() {
    match handle_request_at(&config(), "GET /auth HTTP/1.1\r\nHost: x\r\n\r\n", NOW) {
        Handling::Route(r) => {
            assert_eq!(r.method, "GET");
            assert_eq!(r.path, "/auth");
            assert!(r.identity.is_none());
            assert!(r.renewed_token.is_none());
            let (tx, _rx) = channel();
            let router = Router::new(tx);
            match router.route(&r.method, &r.path, None, r.body) {
                RouteReply::Reply(reply) => {
                    assert!(reply.starts_with("HTTP/1.1 404"));
                    assert_eq!(reply, not_found_response());
                }
                _ => panic!("expected a reply"),
            }
        }
        Handling::Respond(_) => panic!("a public path is never refused"),
    }
}

#[test]
fn valid_access_cookie_is_authorized_unchanged() {
    let cfg = config();
    let access = issue_at(&cfg.access_secret, 42, "alice", 600, NOW);
    let req = format!("GET /secure HTTP/1.1\r\nCookie: token={}\r\n\r\n", access);
    match handle_request_at(&cfg, &req, NOW + 5) {
        Handling::Route(r) => {
            assert_eq!(r.identity.as_ref().map(|c| c.uid), Some(42));
            assert!(r.renewed_token.is_none());
            assert_eq!(r.cookies, vec![("token".to_string(), access)]);
        }
        Handling::Respond(_) => panic!("expected routing"),
    }
}

#[test]
fn expired_access_cookie_is_renewed_from_refresh_cookie() {
    let cfg = config();
    let access = issue_at(&cfg.access_secret, 42, "alice", 600, NOW);
    let refresh = issue_at(&cfg.refresh_secret, 42, "alice", REFRESH_TOKEN_TTL, NOW);
    let req = format!("GET /secure HTTP/1.1\r\nCookie: token={}; refresh={}\r\n\r\n", access, refresh);
    let later = NOW + 601;
    match handle_request_at(&cfg, &req, later) {
        Handling::Route(r) => {
            let fresh = r.renewed_token.clone().expect("a renewed token");
            assert_ne!(fresh, access);
            assert_eq!(verify_at(&cfg.access_secret, &fresh, later).unwrap().uid, 42);
            assert_eq!(r.identity.as_ref().map(|c| c.uid), Some(42));
            assert_eq!(
                r.cookies,
                vec![("token".to_string(), fresh.clone()), ("refresh".to_string(), refresh)]
            );
        }
        Handling::Respond(_) => panic!("expected routing"),
    }
}

#[test]
fn expired_access_and_refresh_cookies_get_401() {
    let cfg = config();
    let access = issue_at(&cfg.access_secret, 42, "alice", 600, NOW);
    let refresh = issue_at(&cfg.refresh_secret, 42, "alice", 100, NOW);
    let req = format!("GET /secure HTTP/1.1\r\nCookie: token={}; refresh={}\r\n\r\n", access, refresh);
    match handle_request_at(&cfg, &req, NOW + 601) {
        Handling::Respond(reply) => {
            assert!(reply.starts_with("HTTP/1.1 401"));
            assert_eq!(reply, unauthorized_response("Could not verify access token"));
        }
        Handling::Route(_) => panic!("routing must not run"),
    }
}

#[test]
fn protected_path_without_credentials_gets_401() {
    match handle_request_at(&config(), "GET /secure HTTP/1.1\r\n\r\n", NOW) {
        Handling::Respond(reply) => {
            assert_eq!(reply, unauthorized_response("Could not extract access token"));
        }
        Handling::Route(_) => panic!("routing must not run"),
    }
}

#[test]
fn malformed_request_is_framed_with_defaults_and_guarded() {
    match handle_request_at(&config(), "not a real http request", NOW) {
        Handling::Respond(reply) => assert!(reply.starts_with("HTTP/1.1 401")),
        Handling::Route(_) => panic!("the default path is protected"),
    }
}

#[test]
fn options_request_gets_preflight_answer() {
    match handle_request_at(&config(), "OPTIONS /secure HTTP/1.1\r\n\r\n", NOW) {
        Handling::Respond(reply) => {
            assert_eq!(
                reply,
                "HTTP/1.1 200 OK\r\nAccess-Control-Allow-Origin: *\r\nAccess-Control-Allow-Methods: GET, POST, PUT, DELETE, PATCH, OPTIONS\r\nAccess-Control-Allow-Headers: Content-Type, Authorization, Cookie\r\nContent-Length: 0\r\n\r\n"
            );
        }
        Handling::Route(_) => panic!("preflight is never routed"),
    }
}

#[test]
fn bearer_header_is_a_fallback_credential() {
    let cfg = config();
    let access = issue_at(&cfg.access_secret, 5, "erin", 600, NOW);
    let req = format!("GET /secure HTTP/1.1\r\nauthorization: Bearer {}\r\n\r\n", access);
    match handle_request_at(&cfg, &req, NOW) {
        Handling::Route(r) => assert_eq!(r.identity.map(|c| c.uid), Some(5)),
        Handling::Respond(_) => panic!("expected routing"),
    }
    let req = format!("GET /secure HTTP/1.1\r\nauthorization: Bearer token={}\r\n\r\n", access);
    match handle_request_at(&cfg, &req, NOW) {
        Handling::Route(r) => assert_eq!(r.identity.map(|c| c.uid), Some(5)),
        Handling::Respond(_) => panic!("expected routing"),
    }
}

#[test]
fn clock_based_handling_routes_public_paths() {
    assert!(matches!(handle_request(&config(), "POST /auth/login HTTP/1.1\r\n\r\n{}"), Handling::Route(_)));
}

#[test]
fn renewed_token_is_set_on_the_reply() {
    let reply = "HTTP/1.1 200 OK\r\nContent-Length: 2\r\n\r\nhi".to_string();
    assert_eq!(
        set_renewed_token(reply, "abc"),
        "HTTP/1.1 200 OK\r\nSet-Cookie: token=abc\r\nContent-Length: 2\r\n\r\nhi"
    );
    assert_eq!(set_renewed_token("no line".to_string(), "abc"), "no line");
}

#[test]
fn only_token_cookies_are_substituted() {
    let cookies = vec![
        ("token".to_string(), "old".to_string()),
        ("refresh".to_string(), "r".to_string()),
        ("token".to_string(), "old2".to_string()),
    ];
    assert_eq!(
        substitute_token(cookies, "new"),
        vec![
            ("token".to_string(), "new".to_string()),
            ("refresh".to_string(), "r".to_string()),
            ("token".to_string(), "new".to_string()),
        ]
    );
}
