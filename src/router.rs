//! Dispatch of routed requests to handlers.
use vstd::prelude::*;
use std::sync::mpsc::Sender;
use crate::request::starts_with;
use crate::response::{
    framed, generate_http_response, not_found_response, not_found_tail, reply_tail, status_head,
};
use crate::text::{chars_of, find_char, find_in, text_eq};

verus! {

#[verifier::external_type_specification]
#[verifier::external_body]
#[verifier::reject_recursive_types(T)]
pub struct ExSender<T>(std::sync::mpsc::Sender<T>);

pub assume_specification<T>[ <std::sync::mpsc::Sender<T> as Clone>::clone ](
    s: &std::sync::mpsc::Sender<T>,
) -> std::sync::mpsc::Sender<T>;

/// The JSON text of a string, as serde_json writes it.
pub uninterp spec fn json_quoted(s: Seq<char>) -> Seq<char>;

/// Relies on serde_json::to_string on a string slice: the JSON string literal
/// of `s`. Serializing a `str` cannot fail.
#[verifier::external_body]
fn json_string(s: &str) -> (r: String)
    ensures
        r@ == json_quoted(s@),
{
    serde_json::to_string(s).unwrap_or_default()
}

/// Relies on std::sync::mpsc::Sender::send: hands `message` to the connection's
/// late-message stream; false when its receiver is gone.
#[verifier::external_body]
fn send_late(sender: &Sender<String>, message: String) -> (r: bool) {
    sender.send(message).is_ok()
}

pub open spec fn not_found() -> Seq<char> {
    framed(status_head(404), not_found_tail(), "This route does not exist"@)
}

pub open spec fn test_reply() -> Seq<char> {
    framed(status_head(200), reply_tail(), json_quoted("This works"@))
}

/// Answers with a fixed payload, and sends the same answer again on the
/// connection's late-message stream.
pub fn test_api(sender: Sender<String>) -> (r: String)
    ensures
        r@ == test_reply(),
{
    let payload = json_string("This works");
    let formatted_response = generate_http_response(200, payload.as_str());
    let _ = send_late(&sender, formatted_response.clone());
    formatted_response
}

/// The answer of a router whose paths start with `base` and that serves
/// `GET base` and `POST base/create`.
pub open spec fn sub_route(base: Seq<char>, create: Seq<char>, method: Seq<char>, path: Seq<char>) -> Seq<char> {
    if !starts_with(path, base) {
        not_found()
    } else if (method == "GET"@ && path == base) || (method == "POST"@ && path == create) {
        test_reply()
    } else {
        not_found()
    }
}

fn sub_route_exec(
    sender: &Sender<String>,
    base: &str,
    create: &str,
    method: &str,
    path: &str,
) -> (r: String)
    ensures
        r@ == sub_route(base@, create@, method@, path@),
{
    let p = chars_of(path);
    let b = chars_of(base);
    if !crate::text::has_prefix(&p, 0, p.len(), &b) {
        proof {
            assert(p@.subrange(0, p@.len() as int) =~= p@);
        }
        return not_found_response();
    }
    proof {
        assert(p@.subrange(0, p@.len() as int) =~= p@);
    }
    if (text_eq(method, "GET") && text_eq(path, base)) || (text_eq(method, "POST") && text_eq(path, create)) {
        test_api(sender.clone())
    } else {
        not_found_response()
    }
}

pub struct TestRouter {
    sender: Sender<String>,
}

impl TestRouter {
    pub fn new(sender: Sender<String>) -> Self {
        TestRouter { sender }
    }

    pub fn route(
        &self,
        method: &str,
        path: &str,
        _authorization_header: Option<&str>,
        _body: String,
    ) -> (r: String)
        ensures
            r@ == sub_route("/test"@, "/test/create"@, method@, path@),
    {
        sub_route_exec(&self.sender, "/test", "/test/create", method, path)
    }
}

pub struct AnotherRouter {
    sender: Sender<String>,
}

impl AnotherRouter {
    pub fn new(sender: Sender<String>) -> Self {
        AnotherRouter { sender }
    }

    pub fn route(
        &self,
        method: &str,
        path: &str,
        _authorization_header: Option<&str>,
        _body: String,
    ) -> (r: String)
        ensures
            r@ == sub_route("/another"@, "/another/create"@, method@, path@),
    {
        sub_route_exec(&self.sender, "/another", "/another/create", method, path)
    }
}

/// Where a request goes after routing. Account handlers reach the user store,
/// so the caller runs them.
pub enum RouteReply {
    /// The answer is ready.
    Reply(String),
    /// `POST /auth/login`.
    Login,
    /// `POST /auth/register`.
    Register,
}

pub enum ReplyModel {
    Reply(Seq<char>),
    Login,
    Register,
}

impl View for RouteReply {
    type V = ReplyModel;

    open spec fn view(&self) -> ReplyModel {
        match self {
            RouteReply::Reply(s) => ReplyModel::Reply(s@),
            RouteReply::Login => ReplyModel::Login,
            RouteReply::Register => ReplyModel::Register,
        }
    }
}

pub open spec fn auth_route(method: Seq<char>, path: Seq<char>) -> ReplyModel {
    if !starts_with(path, "/auth"@) {
        ReplyModel::Reply(not_found())
    } else if method == "POST"@ && path == "/auth/login"@ {
        ReplyModel::Login
    } else if method == "POST"@ && path == "/auth/register"@ {
        ReplyModel::Register
    } else {
        ReplyModel::Reply(not_found())
    }
}

pub struct AuthRouter {
    sender: Sender<String>,
}

impl AuthRouter {
    pub fn new(sender: Sender<String>) -> Self {
        AuthRouter { sender }
    }

    /// The account routes: login and registration.
    pub fn route(
        &self,
        method: &str,
        path: &str,
        _authorization_header: Option<&str>,
    ) -> (r: RouteReply)
        ensures
            r@ == auth_route(method@, path@),
    {
        let p = chars_of(path);
        let b = chars_of("/auth");
        let public = crate::text::has_prefix(&p, 0, p.len(), &b);
        proof {
            assert(p@.subrange(0, p@.len() as int) =~= p@);
        }
        if !public {
            return RouteReply::Reply(not_found_response());
        }
        if text_eq(method, "POST") && text_eq(path, "/auth/login") {
            RouteReply::Login
        } else if text_eq(method, "POST") && text_eq(path, "/auth/register") {
            RouteReply::Register
        } else {
            RouteReply::Reply(not_found_response())
        }
    }
}

pub open spec fn trim_slash_start(s: Seq<char>) -> Seq<char>
    decreases s.len(),
{
    if s.len() > 0 && s[0] == '/' {
        trim_slash_start(s.drop_first())
    } else {
        s
    }
}

pub open spec fn trim_slash_end(s: Seq<char>) -> Seq<char>
    decreases s.len(),
{
    if s.len() > 0 && s.last() == '/' {
        trim_slash_end(s.drop_last())
    } else {
        s
    }
}

/// The first segment of a path, slashes at either end ignored.
pub open spec fn first_segment(path: Seq<char>) -> Seq<char> {
    let t = trim_slash_end(trim_slash_start(path));
    t.subrange(0, find_char(t, '/') as int)
}

fn path_prefix(path: &str) -> (r: String)
    ensures
        r@ == first_segment(path@),
{
    let chars = chars_of(path);
    let n = chars.len();
    let mut a: usize = 0;
    proof {
        assert(chars@.subrange(0, n as int) =~= chars@);
    }
    while a < n && chars[a] == '/'
        invariant
            a <= n == chars@.len(),
            chars@ == path@,
            trim_slash_start(path@) == trim_slash_start(chars@.subrange(a as int, n as int)),
        decreases n - a,
    {
        proof {
            assert(chars@.subrange(a as int, n as int).drop_first() =~= chars@.subrange(a + 1, n as int));
        }
        a += 1;
    }
    let mut b: usize = n;
    while b > a && chars[b - 1] == '/'
        invariant
            a <= b <= n == chars@.len(),
            chars@ == path@,
            trim_slash_start(path@) == chars@.subrange(a as int, n as int),
            trim_slash_end(chars@.subrange(a as int, n as int)) == trim_slash_end(
                chars@.subrange(a as int, b as int),
            ),
        decreases b - a,
    {
        proof {
            assert(chars@.subrange(a as int, b as int).drop_last() =~= chars@.subrange(a as int, b - 1));
        }
        b -= 1;
    }
    let e = find_in(&chars, a, b, '/');
    proof {
        let t = chars@.subrange(a as int, b as int);
        assert(t.subrange(0, (e - a) as int) =~= chars@.subrange(a as int, e as int));
    }
    path.substring_char(a, e).to_owned()
}

/// Where the application routes a request, by the first segment of its path.
pub open spec fn app_route(method: Seq<char>, path: Seq<char>) -> ReplyModel {
    let prefix = first_segment(path);
    if prefix == "test"@ {
        ReplyModel::Reply(sub_route("/test"@, "/test/create"@, method, path))
    } else if prefix == "another"@ {
        ReplyModel::Reply(sub_route("/another"@, "/another/create"@, method, path))
    } else if prefix == "auth"@ {
        auth_route(method, path)
    } else {
        ReplyModel::Reply(not_found())
    }
}

/// The application's router.
pub struct Router {
    sender: Sender<String>,
    test_router: TestRouter,
    another_router: AnotherRouter,
    auth_router: AuthRouter,
}

impl Router {
    pub fn new(sender: Sender<String>) -> Self {
        let test_router = TestRouter::new(sender.clone());
        let another_router = AnotherRouter::new(sender.clone());
        let auth_router = AuthRouter::new(sender.clone());
        Router { sender, test_router, another_router, auth_router }
    }

    /// Routes a request by the first segment of its path.
    pub fn route(
        &self,
        method: &str,
        path: &str,
        authorization_header: Option<&str>,
        body: String,
    ) -> (r: RouteReply)
        ensures
            r@ == app_route(method@, path@),
    {
        let prefix = path_prefix(path);
        if text_eq(prefix.as_str(), "test") {
            RouteReply::Reply(self.test_router.route(method, path, authorization_header, body))
        } else if text_eq(prefix.as_str(), "another") {
            RouteReply::Reply(self.another_router.route(method, path, authorization_header, body))
        } else if text_eq(prefix.as_str(), "auth") {
            self.auth_router.route(method, path, authorization_header)
        } else {
            RouteReply::Reply(not_found_response())
        }
    }
}

} // verus!
