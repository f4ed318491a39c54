//! What a connection does with its request: framing, the preflight shortcut,
//! the guard, and what is handed to routing.
use vstd::prelude::*;
use crate::auth::{
    access_token_of, auth_error_message, bearer_token, extract_token_from_auth, find_named,
    refresh_token_of, session_of, AuthConfig,
};
use crate::guard::{authorize_at, guard, GuardOutcome, OutcomeModel};
use crate::request::{
    authorization_of, body_of, cookies_of, extract_request, method_of, opt_string_view,
    pairs_view, path_of, PairsModel,
};
use crate::response::{
    error_tail, framed, options_preflight_response, preflight, status_head,
    unauthorized_response,
};
use crate::text::{chars_of, find_char, find_in, text_eq};
use crate::token::{Claims, ClaimsModel};

verus! {

/// A request that passed the guard, as handed to routing.
pub struct Routed {
    pub method: String,
    pub path: String,
    pub authorization: Option<String>,
    pub body: String,
    /// The request's credentials, with a renewed access token in place of the old one.
    pub cookies: Vec<(String, String)>,
    /// The caller's claims; none on a public path.
    pub identity: Option<Claims>,
    /// The access token minted for this request, to be set on the reply.
    pub renewed_token: Option<String>,
}

/// What a connection does with its request.
pub enum Handling {
    /// Write this answer and close: a preflight answer or a refusal.
    Respond(String),
    Route(Routed),
}

pub struct RoutedModel {
    pub method: Seq<char>,
    pub path: Seq<char>,
    pub authorization: Option<Seq<char>>,
    pub body: Seq<char>,
    pub cookies: PairsModel,
    pub identity: Option<ClaimsModel>,
    pub renewed_token: Option<Seq<char>>,
}

pub enum HandlingModel {
    Respond(Seq<char>),
    Route(RoutedModel),
}

impl View for Handling {
    type V = HandlingModel;

    open spec fn view(&self) -> HandlingModel {
        match self {
            Handling::Respond(s) => HandlingModel::Respond(s@),
            Handling::Route(r) => HandlingModel::Route(
                RoutedModel {
                    method: r.method@,
                    path: r.path@,
                    authorization: opt_string_view(r.authorization),
                    body: r.body@,
                    cookies: pairs_view(r.cookies@),
                    identity: match r.identity {
                        Some(c) => Some(c@),
                        None => None,
                    },
                    renewed_token: opt_string_view(r.renewed_token),
                },
            ),
        }
    }
}

/// `cs` with the value of every `token` pair replaced by `tok`.
pub open spec fn with_token(cs: PairsModel, tok: Seq<char>) -> PairsModel {
    cs.map_values(
        |p: (Seq<char>, Seq<char>)|
            if p.0 == "token"@ {
                (p.0, tok)
            } else {
                p
            },
    )
}

/// Puts `token` in place of the value of every `token` pair.
pub fn substitute_token(cookies: Vec<(String, String)>, token: &str) -> (r: Vec<(String, String)>)
    ensures
        pairs_view(r@) == with_token(pairs_view(cookies@), token@),
{
    let mut out: Vec<(String, String)> = Vec::new();
    let mut i: usize = 0;
    while i < cookies.len()
        invariant
            i <= cookies@.len(),
            out@.len() == i,
            forall|t: int|
                0 <= t < i ==> (#[trigger] out@[t].0@, out@[t].1@) == with_token(
                    pairs_view(cookies@),
                    token@,
                )[t],
        decreases cookies@.len() - i,
    {
        let name = cookies[i].0.clone();
        let value = if text_eq(name.as_str(), "token") {
            token.to_owned()
        } else {
            cookies[i].1.clone()
        };
        out.push((name, value));
        i += 1;
    }
    proof {
        assert(pairs_view(out@) =~= with_token(pairs_view(cookies@), token@));
    }
    out
}

fn copy_pairs(v: &Vec<(String, String)>) -> (r: Vec<(String, String)>)
    ensures
        pairs_view(r@) == pairs_view(v@),
{
    let mut out: Vec<(String, String)> = Vec::new();
    let mut i: usize = 0;
    while i < v.len()
        invariant
            i <= v@.len(),
            out@.len() == i,
            forall|t: int| 0 <= t < i ==> (#[trigger] out@[t].0@, out@[t].1@) == (v@[t].0@, v@[t].1@),
        decreases v@.len() - i,
    {
        out.push((v[i].0.clone(), v[i].1.clone()));
        i += 1;
    }
    proof {
        assert(pairs_view(out@) =~= pairs_view(v@));
    }
    out
}

/// How a connection handles the request text `s` at time `now`.
pub open spec fn handling(
    access_secret: Seq<u8>,
    access_ttl: u64,
    refresh_secret: Seq<u8>,
    s: Seq<char>,
    now: u64,
) -> HandlingModel {
    let cookies = cookies_of(s);
    let auth = authorization_of(s);
    let session = session_of(cookies, auth);
    if method_of(s) == "OPTIONS"@ {
        HandlingModel::Respond(preflight())
    } else {
        match guard(
            access_secret,
            access_ttl,
            refresh_secret,
            path_of(s),
            access_token_of(cookies, auth),
            refresh_token_of(cookies, auth),
            now,
        ) {
            OutcomeModel::Rejected(e) => HandlingModel::Respond(
                framed(status_head(401), error_tail(), auth_error_message(e)),
            ),
            OutcomeModel::Public => HandlingModel::Route(
                RoutedModel {
                    method: method_of(s),
                    path: path_of(s),
                    authorization: auth,
                    body: body_of(s),
                    cookies: session,
                    identity: None,
                    renewed_token: None,
                },
            ),
            OutcomeModel::Authorized(c, tok, renewed) => HandlingModel::Route(
                RoutedModel {
                    method: method_of(s),
                    path: path_of(s),
                    authorization: auth,
                    body: body_of(s),
                    cookies: if renewed {
                        with_token(session, tok)
                    } else {
                        session
                    },
                    identity: Some(c),
                    renewed_token: if renewed {
                        Some(tok)
                    } else {
                        None
                    },
                },
            ),
        }
    }
}

/// Handles the request text `request` at time `now`: an `OPTIONS` request gets
/// the preflight answer, a request that the guard refuses gets a 401, and any
/// other is handed to routing with its credentials.
pub fn handle_request_at(config: &AuthConfig, request: &str, now: u64) -> (r: Handling)
    ensures
        r@ == handling(config.access_secret@, config.access_ttl, config.refresh_secret@, request@, now),
{
    let req = extract_request(request);
    let session = match &req.cookies {
        Some(cs) => copy_pairs(cs),
        None => match &req.authorization {
            Some(a) => extract_token_from_auth(a.as_str()),
            None => extract_token_from_auth(""),
        },
    };
    proof {
        reveal_strlit("");
        assert(""@ =~= Seq::<char>::empty());
    }
    if text_eq(req.method.as_str(), "OPTIONS") {
        return Handling::Respond(options_preflight_response());
    }
    let access = match find_named(&session, "token") {
        Some(t) => Some(t),
        None => match (&req.cookies, &req.authorization) {
            (None, Some(a)) => bearer_token(a.as_str()),
            _ => None,
        },
    };
    let refresh = find_named(&session, "refresh");
    let access_ref: Option<&str> = match &access {
        Some(t) => Some(t.as_str()),
        None => None,
    };
    let refresh_ref: Option<&str> = match &refresh {
        Some(t) => Some(t.as_str()),
        None => None,
    };
    let outcome = authorize_at(config, req.path.as_str(), access_ref, refresh_ref, now);
    match outcome {
        GuardOutcome::Rejected(e) => Handling::Respond(unauthorized_response(e.message())),
        GuardOutcome::Public => Handling::Route(
            Routed {
                method: req.method,
                path: req.path,
                authorization: req.authorization,
                body: req.body,
                cookies: session,
                identity: None,
                renewed_token: None,
            },
        ),
        GuardOutcome::Authorized { claims, token, renewed } => {
            if renewed {
                let cookies = substitute_token(session, token.as_str());
                Handling::Route(
                    Routed {
                        method: req.method,
                        path: req.path,
                        authorization: req.authorization,
                        body: req.body,
                        cookies,
                        identity: Some(claims),
                        renewed_token: Some(token),
                    },
                )
            } else {
                Handling::Route(
                    Routed {
                        method: req.method,
                        path: req.path,
                        authorization: req.authorization,
                        body: req.body,
                        cookies: session,
                        identity: Some(claims),
                        renewed_token: None,
                    },
                )
            }
        },
    }
}

/// Handles the request text `request`, reading the clock for the time.
pub fn handle_request(config: &AuthConfig, request: &str) -> (r: Handling)
    ensures
        exists|now: u64|
            r@ == handling(config.access_secret@, config.access_ttl, config.refresh_secret@, request@, now),
{
    handle_request_at(config, request, crate::token::unix_now())
}

/// `reply` with a `Set-Cookie` header for the renewed access token `tok`
/// after its status line.
pub open spec fn with_cookie_header(reply: Seq<char>, tok: Seq<char>) -> Seq<char> {
    let k = find_char(reply, '\n') as int;
    if k < reply.len() {
        reply.subrange(0, k + 1) + "Set-Cookie: token="@ + tok + "\r\n"@ + reply.subrange(
            k + 1,
            reply.len() as int,
        )
    } else {
        reply
    }
}

/// Surfaces a renewed access token to the client on the reply.
pub fn set_renewed_token(reply: String, token: &str) -> (r: String)
    ensures
        r@ == with_cookie_header(reply@, token@),
{
    let chars = chars_of(reply.as_str());
    let n = chars.len();
    let k = find_in(&chars, 0, n, '\n');
    proof {
        assert(chars@.subrange(0, n as int) =~= chars@);
    }
    if k >= n {
        return reply;
    }
    let mut out = reply.as_str().substring_char(0, k + 1).to_owned();
    out.append("Set-Cookie: token=");
    out.append(token);
    out.append("\r\n");
    out.append(reply.as_str().substring_char(k + 1, n));
    out
}

/// Whether `buffer` holds the blank line that ends a header block.
pub open spec fn has_header_end(buffer: Seq<u8>) -> bool {
    exists|i: int|
        0 <= i && i + 4 <= buffer.len() && #[trigger] buffer.subrange(i, i + 4) == seq![
            13u8,
            10u8,
            13u8,
            10u8,
        ]
}

/// Whether enough of a request has been read to frame it.
pub fn header_complete(buffer: &[u8]) -> (r: bool)
    ensures
        r == has_header_end(buffer@),
{
    let n = buffer.len();
    if n < 4 {
        proof {
            assert forall|i: int| 0 <= i && i + 4 <= buffer@.len() implies #[trigger] buffer@.subrange(
                i,
                i + 4,
            ) != seq![13u8, 10u8, 13u8, 10u8] by {}
        }
        return false;
    }
    let mut i: usize = 0;
    while i < n - 3
        invariant
            n == buffer@.len(),
            n >= 4,
            i <= n - 3,
            forall|j: int|
                0 <= j < i ==> #[trigger] buffer@.subrange(j, j + 4) != seq![
                    13u8,
                    10u8,
                    13u8,
                    10u8,
                ],
        decreases n - i,
    {
        if buffer[i] == 13 && buffer[i + 1] == 10 && buffer[i + 2] == 13 && buffer[i + 3] == 10 {
            proof {
                assert(buffer@.subrange(i as int, i + 4) =~= seq![13u8, 10u8, 13u8, 10u8]);
            }
            return true;
        }
        proof {
            let w = buffer@.subrange(i as int, i + 4);
            if w == seq![13u8, 10u8, 13u8, 10u8] {
                assert(w[0] == buffer@[i as int]);
                assert(w[1] == buffer@[i + 1]);
                assert(w[2] == buffer@[i + 2]);
                assert(w[3] == buffer@[i + 3]);
                assert(false);
            }
        }
        i += 1;
    }
    false
}

} // verus!
