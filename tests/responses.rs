use std::sync::mpsc::channel;

use authgate::response::{
    generate_http_response, generate_options_response, initial_sse_response, not_found_response,
    something_went_wrong, unauthorized_response,
};
use authgate::router::{test_api, AnotherRouter, AuthRouter, RouteReply, Router, TestRouter};

const CORS: &str = "Access-Control-Allow-Origin: http://localhost:8080\r\nAccess-Control-Allow-Methods: GET, POST, PUT, PATCH, DELETE\r\nAccess-Control-Allow-Credentials: true\r\nAccess-Control-Allow-Headers: *\r\n\r\n";

#[test]
fn handler_reply_has_status_length_and_body() {
    assert_eq!(
        generate_http_response(200, "\"hi\""),
        format!("HTTP/1.1 200 OK\r\nContent-Length: 4\r\n{}\"hi\"", CORS)
    );
    assert_eq!(
        generate_http_response(500, "{}"),
        format!("HTTP/1.1 500 Internal Server Error\r\nContent-Length: 2\r\n{}{{}}", CORS)
    );
    assert!(generate_http_response(418, "").starts_with("HTTP/1.1 418 Unknown status\r\nContent-Length: 0\r\n"));
}

#[test]
fn content_length_counts_bytes() {
    let r = generate_http_response(403, "é");
    assert!(r.starts_with("HTTP/1.1 403 Access Denied\r\nContent-Length: 2\r\n"));
    let long = "x".repeat(1234);
    assert!(generate_http_response(200, &long).contains("Content-Length: 1234\r\n"));
}

#[test]
fn fixed_answers() {
    assert_eq!(
        not_found_response(),
        "HTTP/1.1 404 Unknown status\r\nContent-Length: 25\r\nAccess-Control-Allow-Origin: *\r\nAccess-Control-Allow-Credentials: true\r\nAccess-Control-Allow-Headers: *\r\n\r\nThis route does not exist"
    );
    assert_eq!(
        unauthorized_response("nope"),
        "HTTP/1.1 401 Unauthorized\r\nContent-Length: 4\r\nAccess-Control-Allow-Origin: *\r\nAccess-Control-Allow-Headers: *\r\n\r\nnope"
    );
    assert_eq!(
        something_went_wrong("boom".to_string()),
        "HTTP/1.1 500 Internal Server Error\r\nContent-Length: 4\r\nAccess-Control-Allow-Origin: *\r\nAccess-Control-Allow-Headers: *\r\n\r\nboom"
    );
    assert_eq!(
        generate_options_response(),
        "HTTP/1.1 204 No Content\r\nAccess-Control-Allow-Origin: http://localhost:8080\r\nAccess-Control-Allow-Methods: GET, POST, PUT, PATCH, DELETE\r\nAccess-Control-Allow-Headers: content-type, Authorization, withCredentials, Cookie\r\nAccess-Control-Max-Age: 86400\r\nContent-Length: 0\r\n\r\n"
    );
    assert!(initial_sse_response().contains("Content-Type: text/event-stream\r\n"));
}

#[test]
fn test_api_answers_and_sends_late_copy() {
    let (tx, rx) = channel();
    let reply = test_api(tx);
    assert_eq!(reply, format!("HTTP/1.1 200 OK\r\nContent-Length: 12\r\n{}\"This works\"", CORS));
    assert_eq!(rx.try_recv().unwrap(), reply);
}

#[test]
fn sub_routers_match_exact_routes() {
    let (tx, _rx) = channel();
    let t = TestRouter::new(tx.clone());
    assert!(t.route("GET", "/test", None, String::new()).starts_with("HTTP/1.1 200"));
    assert!(t.route("POST", "/test/create", None, String::new()).starts_with("HTTP/1.1 200"));
    assert_eq!(t.route("GET", "/test/create", None, String::new()), not_found_response());
    assert_eq!(t.route("GET", "/other", None, String::new()), not_found_response());
    let a = AnotherRouter::new(tx.clone());
    assert!(a.route("GET", "/another", None, String::new()).starts_with("HTTP/1.1 200"));
    assert_eq!(a.route("PUT", "/another", None, String::new()), not_found_response());
    let auth = AuthRouter::new(tx);
    assert!(matches!(auth.route("POST", "/auth/login", None), RouteReply::Login));
    assert!(matches!(auth.route("POST", "/auth/register", None), RouteReply::Register));
    assert!(matches!(auth.route("GET", "/auth/login", None), RouteReply::Reply(_)));
}

#[test]
fn app_router_dispatches_on_first_segment() {
    let (tx, _rx) = channel();
    let r = Router::new(tx);
    let reply = |m: &str, p: &str| match r.route(m, p, None, String::new()) {
        RouteReply::Reply(s) => s,
        RouteReply::Login => "login".to_string(),
        RouteReply::Register => "register".to_string(),
    };
    assert!(reply("GET", "/test").starts_with("HTTP/1.1 200"));
    assert!(reply("GET", "/another").starts_with("HTTP/1.1 200"));
    assert_eq!(reply("POST", "/auth/login"), "login");
    assert_eq!(reply("POST", "/auth/register"), "register");
    assert_eq!(reply("GET", "/"), not_found_response());
    assert_eq!(reply("GET", "/nothing"), not_found_response());
    assert_eq!(reply("GET", "//test//"), not_found_response());
}
