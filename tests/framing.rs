use authgate::connection::header_complete;
use authgate::request::extract_request;

#[test]
fn request_line_headers_cookies_and_body() {
    let r = extract_request(
        "POST /auth/login HTTP/1.1\r\nHost: x\r\nauthorization: Bearer abc\r\nCookie: token=t1; refresh=r1\r\n\r\n{\"a\":1}\r\nsecond",
    );
    assert_eq!(r.method, "POST");
    assert_eq!(r.path, "/auth/login");
    assert_eq!(r.authorization.as_deref(), Some("Bearer abc"));
    assert_eq!(
        r.cookies,
        Some(vec![("token".to_string(), "t1".to_string()), ("refresh".to_string(), "r1".to_string())])
    );
    assert_eq!(r.body, "{\"a\":1}\nsecond");
}

#[test]
fn malformed_request_line_takes_defaults() {
    let r = extract_request("not a real http request");
    assert_eq!(r.method, "GET");
    assert_eq!(r.path, "/");
    assert_eq!(r.body, "");
    assert_eq!(r.authorization, None);
    assert_eq!(r.cookies, None);
}

#[test]
fn single_word_request_line_takes_defaults() {
    let r = extract_request("DELETE\r\n\r\n");
    assert_eq!(r.method, "GET");
    assert_eq!(r.path, "/");
}

#[test]
fn empty_request_takes_defaults() {
    let r = extract_request("");
    assert_eq!(r.method, "GET");
    assert_eq!(r.path, "/");
    assert_eq!(r.body, "");
}

#[test]
fn cookie_value_keeps_text_after_first_equals() {
    let r = extract_request("GET / HTTP/1.1\r\nCookie:  a=b=c ;broken; ; d= \r\n\r\n");
    assert_eq!(
        r.cookies,
        Some(vec![("a".to_string(), "b=c".to_string()), ("d".to_string(), "".to_string())])
    );
}

#[test]
fn cookie_header_without_pairs_gives_none() {
    let r = extract_request("GET / HTTP/1.1\r\nCookie: nothing; here\r\n\r\n");
    assert_eq!(r.cookies, None);
}

#[test]
fn last_duplicate_header_wins() {
    let r = extract_request(
        "GET / HTTP/1.1\r\nauthorization: first\r\nauthorization: second\r\nCookie: a=1\r\nCookie: b=2\r\n\r\n",
    );
    assert_eq!(r.authorization.as_deref(), Some("second"));
    assert_eq!(r.cookies, Some(vec![("b".to_string(), "2".to_string())]));
}

#[test]
fn header_names_are_case_sensitive() {
    let r = extract_request("GET / HTTP/1.1\r\nAUTHORIZATION: x\r\ncookie: a=1\r\n\r\n");
    assert_eq!(r.authorization, None);
    assert_eq!(r.cookies, None);
}

#[test]
fn headers_after_the_blank_line_are_body() {
    let r = extract_request("GET / HTTP/1.1\r\n\r\nCookie: a=1\r\nauthorization: z");
    assert_eq!(r.cookies, None);
    assert_eq!(r.authorization, None);
    assert_eq!(r.body, "Cookie: a=1\nauthorization: z");
}

#[test]
fn words_split_on_any_white_space() {
    let r = extract_request("  PUT\t /x/y  HTTP/1.1\r\n\r\n");
    assert_eq!(r.method, "PUT");
    assert_eq!(r.path, "/x/y");
}

#[test]
fn header_block_end_is_detected() {
    assert!(header_complete(b"GET / HTTP/1.1\r\n\r\n"));
    assert!(header_complete(b"\r\n\r\nbody"));
    assert!(!header_complete(b"GET / HTTP/1.1\r\n"));
    assert!(!header_complete(b"\r\n\r"));
    assert!(!header_complete(b""));
}

#[test]
fn unknown_verb_or_relative_path_is_malformed() {
    let r = extract_request("FETCH /x HTTP/1.1\r\n\r\n");
    assert_eq!((r.method.as_str(), r.path.as_str()), ("GET", "/"));
    let r = extract_request("POST x HTTP/1.1\r\n\r\n");
    assert_eq!((r.method.as_str(), r.path.as_str()), ("GET", "/"));
    let r = extract_request("HEAD /h\r\n\r\n");
    assert_eq!((r.method.as_str(), r.path.as_str()), ("HEAD", "/h"));
}
