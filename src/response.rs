//! HTTP/1.1 response texts.
use vstd::prelude::*;
use vstd::utf8::encode_utf8;

verus! {

pub open spec fn digit_char(d: nat) -> char {
    if d == 0 {
        '0'
    } else if d == 1 {
        '1'
    } else if d == 2 {
        '2'
    } else if d == 3 {
        '3'
    } else if d == 4 {
        '4'
    } else if d == 5 {
        '5'
    } else if d == 6 {
        '6'
    } else if d == 7 {
        '7'
    } else if d == 8 {
        '8'
    } else {
        '9'
    }
}

/// The decimal digits of `n`, without leading zeros.
pub open spec fn decimal(n: nat) -> Seq<char>
    decreases n,
{
    if n < 10 {
        seq![digit_char(n)]
    } else {
        decimal(n / 10).push(digit_char(n % 10))
    }
}

/// Length of the UTF-8 encoding of `s`, in bytes.
pub open spec fn byte_len(s: Seq<char>) -> nat {
    encode_utf8(s).len()
}

fn digit_str(d: usize) -> (r: &'static str)
    requires
        d < 10,
    ensures
        r@ == seq![digit_char(d as nat)],
{
    proof {
        reveal_strlit("0");
        reveal_strlit("1");
        reveal_strlit("2");
        reveal_strlit("3");
        reveal_strlit("4");
        reveal_strlit("5");
        reveal_strlit("6");
        reveal_strlit("7");
        reveal_strlit("8");
        reveal_strlit("9");
    }
    let r = match d {
        0 => "0",
        1 => "1",
        2 => "2",
        3 => "3",
        4 => "4",
        5 => "5",
        6 => "6",
        7 => "7",
        8 => "8",
        _ => "9",
    };
    proof {
        assert(r@ =~= seq![digit_char(d as nat)]);
    }
    r
}

fn append_decimal(out: &mut String, n: usize)
    ensures
        final(out)@ == old(out)@ + decimal(n as nat),
    decreases n,
{
    if n >= 10 {
        append_decimal(out, n / 10);
    }
    out.append(digit_str(n % 10));
    proof {
        if n >= 10 {
            assert(old(out)@ + decimal((n / 10) as nat) + seq![digit_char((n % 10) as nat)]
                =~= old(out)@ + decimal(n as nat));
        } else {
            assert(decimal(n as nat) == seq![digit_char(n as nat)]);
        }
    }
}

pub open spec fn status_text(code: u16) -> Seq<char> {
    if code == 200 {
        "OK"@
    } else if code == 401 {
        "Unauthorized"@
    } else if code == 403 {
        "Access Denied"@
    } else if code == 500 {
        "Internal Server Error"@
    } else {
        "Unknown status"@
    }
}

fn http_status_text(status_code: u16) -> (r: &'static str)
    ensures
        r@ == status_text(status_code),
{
    match status_code {
        200 => "OK",
        401 => "Unauthorized",
        403 => "Access Denied",
        500 => "Internal Server Error",
        _ => "Unknown status",
    }
}

/// `HTTP/1.1 <code> <reason>` and the start of the length header.
pub open spec fn status_head(code: u16) -> Seq<char> {
    "HTTP/1.1 "@ + decimal(code as nat) + " "@ + status_text(code) + "\r\nContent-Length: "@
}

/// A response: `head`, the body's length in bytes, the remaining headers
/// `tail` (ending in the blank line), then the body.
pub open spec fn framed(head: Seq<char>, tail: Seq<char>, body: Seq<char>) -> Seq<char> {
    head + decimal(byte_len(body)) + tail + body
}

fn status_line(status_code: u16) -> (r: String)
    ensures
        r@ == status_head(status_code),
{
    let mut s = "HTTP/1.1 ".to_owned();
    append_decimal(&mut s, status_code as usize);
    s.append(" ");
    s.append(http_status_text(status_code));
    s.append("\r\nContent-Length: ");
    s
}

fn finish(head: String, tail: &str, body: &str) -> (r: String)
    ensures
        r@ == framed(head@, tail@, body@),
{
    let mut out = head;
    let n = body.as_bytes().len();
    append_decimal(&mut out, n);
    out.append(tail);
    out.append(body);
    out
}

/// The CORS headers of a handler's reply.
pub open spec fn reply_tail() -> Seq<char> {
    "\r\nAccess-Control-Allow-Origin: http://localhost:8080\r\nAccess-Control-Allow-Methods: GET, POST, PUT, PATCH, DELETE\r\nAccess-Control-Allow-Credentials: true\r\nAccess-Control-Allow-Headers: *\r\n\r\n"@
}

/// A handler's reply with status `status_code` and the serialized `payload` as body.
pub fn generate_http_response(status_code: u16, payload: &str) -> (r: String)
    ensures
        r@ == framed(status_head(status_code), reply_tail(), payload@),
{
    finish(
        status_line(status_code),
        "\r\nAccess-Control-Allow-Origin: http://localhost:8080\r\nAccess-Control-Allow-Methods: GET, POST, PUT, PATCH, DELETE\r\nAccess-Control-Allow-Credentials: true\r\nAccess-Control-Allow-Headers: *\r\n\r\n",
        payload,
    )
}

pub open spec fn options_head() -> Seq<char> {
    "HTTP/1.1 204 No Content\r\nAccess-Control-Allow-Origin: http://localhost:8080\r\nAccess-Control-Allow-Methods: GET, POST, PUT, PATCH, DELETE\r\nAccess-Control-Allow-Headers: content-type, Authorization, withCredentials, Cookie\r\nAccess-Control-Max-Age: 86400\r\nContent-Length: "@
}

/// A `204 No Content` answer with the CORS headers of a handler's reply.
pub fn generate_options_response() -> (r: String)
    ensures
        r@ == framed(options_head(), "\r\n\r\n"@, ""@),
{
    finish(
        "HTTP/1.1 204 No Content\r\nAccess-Control-Allow-Origin: http://localhost:8080\r\nAccess-Control-Allow-Methods: GET, POST, PUT, PATCH, DELETE\r\nAccess-Control-Allow-Headers: content-type, Authorization, withCredentials, Cookie\r\nAccess-Control-Max-Age: 86400\r\nContent-Length: ".to_owned(),
        "\r\n\r\n",
        "",
    )
}

pub open spec fn not_found_tail() -> Seq<char> {
    "\r\nAccess-Control-Allow-Origin: *\r\nAccess-Control-Allow-Credentials: true\r\nAccess-Control-Allow-Headers: *\r\n\r\n"@
}

/// The 404 answer for a path that no route matches.
pub fn not_found_response() -> (r: String)
    ensures
        r@ == framed(status_head(404), not_found_tail(), "This route does not exist"@),
{
    finish(
        status_line(404),
        "\r\nAccess-Control-Allow-Origin: *\r\nAccess-Control-Allow-Credentials: true\r\nAccess-Control-Allow-Headers: *\r\n\r\n",
        "This route does not exist",
    )
}

pub open spec fn error_tail() -> Seq<char> {
    "\r\nAccess-Control-Allow-Origin: *\r\nAccess-Control-Allow-Headers: *\r\n\r\n"@
}

/// The 401 answer, with `message` as body.
pub fn unauthorized_response(message: &str) -> (r: String)
    ensures
        r@ == framed(status_head(401), error_tail(), message@),
{
    finish(
        status_line(401),
        "\r\nAccess-Control-Allow-Origin: *\r\nAccess-Control-Allow-Headers: *\r\n\r\n",
        message,
    )
}

/// The 500 answer, with the cause `message` as body.
pub fn something_went_wrong(message: String) -> (r: String)
    ensures
        r@ == framed(status_head(500), error_tail(), message@),
{
    finish(
        status_line(500),
        "\r\nAccess-Control-Allow-Origin: *\r\nAccess-Control-Allow-Headers: *\r\n\r\n",
        message.as_str(),
    )
}

pub open spec fn sse_head() -> Seq<char> {
    "HTTP/1.1 200 OK\r\nContent-Type: text/event-stream\r\nConnection: keep-alive\r\nAccess-Control-Allow-Origin: *\r\nAccess-Control-Allow-Headers: *\r\n\r\n"@
}

/// The opening of an event stream; events follow on the open connection.
pub fn initial_sse_response() -> (r: String)
    ensures
        r@ == sse_head(),
{
    "HTTP/1.1 200 OK\r\nContent-Type: text/event-stream\r\nConnection: keep-alive\r\nAccess-Control-Allow-Origin: *\r\nAccess-Control-Allow-Headers: *\r\n\r\n".to_owned()
}

pub open spec fn preflight() -> Seq<char> {
    "HTTP/1.1 200 OK\r\nAccess-Control-Allow-Origin: *\r\nAccess-Control-Allow-Methods: GET, POST, PUT, DELETE, PATCH, OPTIONS\r\nAccess-Control-Allow-Headers: Content-Type, Authorization, Cookie\r\nContent-Length: 0\r\n\r\n"@
}

/// The fixed answer to an `OPTIONS` request.
pub fn options_preflight_response() -> (r: String)
    ensures
        r@ == preflight(),
{
    "HTTP/1.1 200 OK\r\nAccess-Control-Allow-Origin: *\r\nAccess-Control-Allow-Methods: GET, POST, PUT, DELETE, PATCH, OPTIONS\r\nAccess-Control-Allow-Headers: Content-Type, Authorization, Cookie\r\nContent-Length: 0\r\n\r\n".to_owned()
}

} // verus!
