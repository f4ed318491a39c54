//! The access/refresh token lifecycle guard and its helpers.
use vstd::prelude::*;
use crate::request::{pairs_view, starts_with, PairsModel};
use crate::text::{
    chars_of, find_char, find_in, has_prefix, pieces, ranges_within, slices,
    split_ranges, Sep,
};
use crate::token::{
    expiry, issue, issue_at, jwt_claims, jwt_encoded, result_claims_view, verdict, verify,
    verify_at, Claims, ClaimsModel, TokenError, REFRESH_TOKEN_TTL,
};

verus! {

/// Secrets and lifetimes of the two kinds of token. Refresh tokens live for
/// `REFRESH_TOKEN_TTL` seconds.
pub struct AuthConfig {
    pub access_secret: Vec<u8>,
    /// Lifetime of an access token, in seconds.
    pub access_ttl: u64,
    pub refresh_secret: Vec<u8>,
}

/// Why a request to a protected path is refused.
#[derive(Debug, Clone, Copy, PartialEq, Eq, Structural)]
pub enum AuthError {
    MissingAccessToken,
    InvalidAccessToken,
    MissingRefreshToken,
    InvalidRefreshToken,
    ExpiredRefreshToken,
}

impl AuthError {
    /// The reason given to the client.
    pub fn message(&self) -> (r: &'static str)
        ensures
            r@ == auth_error_message(*self),
    {
        match self {
            AuthError::MissingAccessToken => "Could not extract access token",
            _ => "Could not verify access token",
        }
    }
}

pub open spec fn auth_error_message(e: AuthError) -> Seq<char> {
    match e {
        AuthError::MissingAccessToken => "Could not extract access token"@,
        _ => "Could not verify access token"@,
    }
}

/// Paths under `/auth` are public; every other path needs a token.
pub open spec fn is_protected(path: Seq<char>) -> bool {
    !starts_with(path, "/auth"@)
}

pub fn should_require_token_verification(url: &str) -> (r: bool)
    ensures
        r == is_protected(url@),
{
    let chars = chars_of(url);
    let public_prefix = chars_of("/auth");
    let public = has_prefix(&chars, 0, chars.len(), &public_prefix);
    proof {
        assert(chars@.subrange(0, chars@.len() as int) =~= chars@);
    }
    !public
}

/// The value of the first pair named `name`.
pub open spec fn first_named(cs: PairsModel, name: Seq<char>) -> Option<Seq<char>>
    decreases cs.len(),
{
    if cs.len() == 0 {
        None
    } else if cs[0].0 == name {
        Some(cs[0].1)
    } else {
        first_named(cs.drop_first(), name)
    }
}

fn same_text(a: &String, b: &str) -> (r: bool)
    ensures
        r == (a@ == b@),
{
    let b = b.to_owned();
    a.eq(&b)
}

pub(crate) fn find_named(cs: &Vec<(String, String)>, name: &str) -> (r: Option<String>)
    ensures
        match r {
            Some(v) => first_named(pairs_view(cs@), name@) == Some(v@),
            None => first_named(pairs_view(cs@), name@) is None,
        },
{
    let ghost all = pairs_view(cs@);
    let mut i: usize = 0;
    proof {
        assert(all.subrange(0, all.len() as int) =~= all);
    }
    while i < cs.len()
        invariant
            i <= cs@.len(),
            all == pairs_view(cs@),
            first_named(all, name@) == first_named(all.subrange(i as int, all.len() as int), name@),
        decreases cs@.len() - i,
    {
        let ghost rest = all.subrange(i as int, all.len() as int);
        proof {
            assert(rest[0] == (cs@[i as int].0@, cs@[i as int].1@));
        }
        if same_text(&cs[i].0, name) {
            return Some(cs[i].1.clone());
        }
        proof {
            assert(rest.drop_first() =~= all.subrange(i + 1, all.len() as int));
        }
        i += 1;
    }
    None
}

pub open spec fn opt_view(o: Option<String>) -> Option<Seq<char>> {
    match o {
        Some(s) => Some(s@),
        None => None,
    }
}

/// The value of the first cookie named `token`.
pub fn extract_token_from_cookies(cookies: &Option<Vec<(String, String)>>) -> (r: Option<String>)
    ensures
        opt_view(r) == match cookies {
            Some(cs) => first_named(pairs_view(cs@), "token"@),
            None => None,
        },
{
    match cookies {
        Some(cs) => find_named(cs, "token"),
        None => None,
    }
}

/// `s` with every leading `Bearer ` removed.
pub open spec fn strip_bearer(s: Seq<char>) -> Seq<char>
    decreases s.len(),
{
    if "Bearer "@.len() > 0 && starts_with(s, "Bearer "@) {
        strip_bearer(s.subrange("Bearer "@.len() as int, s.len() as int))
    } else {
        s
    }
}

/// A segment of an authorization value as a pair: the text before the first
/// `=`, and the text between it and the next `=` (empty when there is none).
pub open spec fn auth_pair(seg: Seq<char>) -> (Seq<char>, Seq<char>) {
    let k = find_char(seg, '=');
    let name = seg.subrange(0, k as int);
    if k < seg.len() {
        let rest = seg.subrange((k + 1) as int, seg.len() as int);
        (name, rest.subrange(0, find_char(rest, '=') as int))
    } else {
        (name, Seq::empty())
    }
}

/// The credential pairs of an authorization value: `;`-separated segments
/// after the `Bearer ` prefix.
pub open spec fn auth_pairs(h: Seq<char>) -> PairsModel {
    pieces(strip_bearer(h), Sep::Semicolon).map_values(|seg: Seq<char>| auth_pair(seg))
}

pub fn extract_token_from_auth(auth_header: &str) -> (r: Vec<(String, String)>)
    ensures
        pairs_view(r@) == auth_pairs(auth_header@),
{
    let chars = chars_of(auth_header);
    let pre = chars_of("Bearer ");
    let n = chars.len();
    let mut i: usize = 0;
    proof {
        assert(chars@.subrange(0, n as int) =~= chars@);
    }
    while pre.len() > 0 && has_prefix(&chars, i, n, &pre)
        invariant
            i <= n == chars@.len(),
            chars@ == auth_header@,
            pre@ == "Bearer "@,
            strip_bearer(chars@) == strip_bearer(chars@.subrange(i as int, n as int)),
        decreases n - i,
    {
        proof {
            let s = chars@.subrange(i as int, n as int);
            assert(s.subrange(0, pre@.len() as int) =~= chars@.subrange(i as int, i + pre@.len()));
            assert(starts_with(s, "Bearer "@));
            assert(s.subrange(pre@.len() as int, s.len() as int) =~= chars@.subrange(
                i + pre@.len(),
                n as int,
            ));
        }
        i += pre.len();
    }
    proof {
        let s = chars@.subrange(i as int, n as int);
        if pre@.len() <= s.len() {
            assert(s.subrange(0, pre@.len() as int) =~= chars@.subrange(i as int, i + pre@.len()));
        }
        assert(strip_bearer(s) == s);
    }
    let segs = split_ranges(&chars, i, n, Sep::Semicolon);
    let ghost all = slices(chars@, segs@);
    let mut out: Vec<(String, String)> = Vec::new();
    let mut k: usize = 0;
    while k < segs.len()
        invariant
            i <= n == chars@.len(),
            chars@ == auth_header@,
            k <= segs@.len(),
            all == slices(chars@, segs@),
            all == pieces(strip_bearer(auth_header@), Sep::Semicolon),
            ranges_within(segs@, i as int, n as int),
            out@.len() == k,
            forall|t: int| 0 <= t < k ==> (#[trigger] out@[t].0@, out@[t].1@) == auth_pair(all[t]),
        decreases segs@.len() - k,
    {
        let (a, b) = segs[k];
        proof {
            assert(i <= segs@[k as int].0 <= segs@[k as int].1 <= n);
        }
        let e = find_in(&chars, a, b, '=');
        let ghost seg = chars@.subrange(a as int, b as int);
        let name = auth_header.substring_char(a, e).to_owned();
        let value = if e < b {
            let e2 = find_in(&chars, e + 1, b, '=');
            proof {
                let rest = seg.subrange(e - a + 1, seg.len() as int);
                assert(rest =~= chars@.subrange(e + 1, b as int));
                assert(rest.subrange(0, (e2 - e - 1) as int) =~= chars@.subrange(e + 1, e2 as int));
            }
            auth_header.substring_char(e + 1, e2).to_owned()
        } else {
            String::new()
        };
        proof {
            assert(seg.subrange(0, (e - a) as int) =~= chars@.subrange(a as int, e as int));
            assert(all[k as int] == seg);
            if e >= b {
                assert(value@ =~= Seq::<char>::empty());
            }
        }
        out.push((name, value));
        k += 1;
    }
    proof {
        assert(pairs_view(out@) =~= auth_pairs(auth_header@));
    }
    out
}

/// The token after `Bearer ` in an authorization value.
pub open spec fn bearer_of(h: Seq<char>) -> Option<Seq<char>> {
    if starts_with(h, "Bearer "@) {
        Some(h.subrange("Bearer "@.len() as int, h.len() as int))
    } else {
        None
    }
}

/// The credentials of a request: its cookies, or else the pairs of its
/// authorization value.
pub open spec fn session_of(cookies: Option<PairsModel>, auth: Option<Seq<char>>) -> PairsModel {
    match cookies {
        Some(cs) => cs,
        None => auth_pairs(
            match auth {
                Some(a) => a,
                None => Seq::empty(),
            },
        ),
    }
}

/// The access token: the `token` credential, or, where the request has no
/// cookies, the bearer token of its authorization value.
pub open spec fn access_token_of(cookies: Option<PairsModel>, auth: Option<Seq<char>>) -> Option<
    Seq<char>,
> {
    match first_named(session_of(cookies, auth), "token"@) {
        Some(t) => Some(t),
        None => match (cookies, auth) {
            (None, Some(a)) => bearer_of(a),
            _ => None,
        },
    }
}

/// The refresh token: the `refresh` credential.
pub open spec fn refresh_token_of(cookies: Option<PairsModel>, auth: Option<Seq<char>>) -> Option<
    Seq<char>,
> {
    first_named(session_of(cookies, auth), "refresh"@)
}

/// The bearer token of an authorization value.
pub fn bearer_token(auth_header: &str) -> (r: Option<String>)
    ensures
        opt_view(r) == bearer_of(auth_header@),
{
    let chars = chars_of(auth_header);
    let pre = chars_of("Bearer ");
    let n = chars.len();
    if has_prefix(&chars, 0, n, &pre) {
        Some(auth_header.substring_char(pre.len(), n).to_owned())
    } else {
        None
    }
}

/// Whether `token` is correctly signed under `secret` but expired at `now`.
pub fn is_token_expired(secret: &[u8], token: &str, now: u64) -> (r: bool)
    ensures
        r == (verdict(jwt_claims(secret@, token@), now) == Err::<ClaimsModel, TokenError>(
            TokenError::Expired,
        )),
{
    match verify_at(secret, token, now) {
        Err(TokenError::Expired) => true,
        _ => false,
    }
}

/// Signs a new access token for `(username, uid)`, reading the clock.
pub fn generate_token(config: &AuthConfig, uid: i32, username: &str) -> (r: String)
    ensures
        exists|now: u64|
            r@ == jwt_encoded(config.access_secret@, username@, uid, expiry(now, config.access_ttl))
                && jwt_claims(config.access_secret@, r@) == Some(
                (username@, uid, expiry(now, config.access_ttl)),
            ),
{
    issue(config.access_secret.as_slice(), uid, username, config.access_ttl)
}

/// Signs a new refresh token for `(username, uid)`, reading the clock.
pub fn generate_refresh_token(config: &AuthConfig, username: &str, uid: i32) -> (r: String)
    ensures
        exists|now: u64|
            r@ == jwt_encoded(config.refresh_secret@, username@, uid, expiry(now, REFRESH_TOKEN_TTL))
                && jwt_claims(config.refresh_secret@, r@) == Some(
                (username@, uid, expiry(now, REFRESH_TOKEN_TTL)),
            ),
{
    issue(config.refresh_secret.as_slice(), uid, username, REFRESH_TOKEN_TTL)
}

/// Checks an access token against the clock.
pub fn verify_token(config: &AuthConfig, token: &str) -> (r: Result<Claims, TokenError>)
    ensures
        exists|now: u64|
            result_claims_view(&r) == verdict(jwt_claims(config.access_secret@, token@), now),
{
    verify(config.access_secret.as_slice(), token)
}

/// Checks a refresh token against the clock.
pub fn verify_refresh_token(config: &AuthConfig, token: &str) -> (r: Result<Claims, TokenError>)
    ensures
        exists|now: u64|
            result_claims_view(&r) == verdict(jwt_claims(config.refresh_secret@, token@), now),
{
    verify(config.refresh_secret.as_slice(), token)
}

/// The access token minted at `now` from what a refresh token verifies to.
pub open spec fn renewal(config_access: Seq<u8>, ttl: u64, refresh: ClaimsModel, now: u64) -> (
    ClaimsModel,
    Seq<char>,
) {
    let e = expiry(now, ttl);
    ((refresh.0, refresh.1, e), jwt_encoded(config_access, refresh.0, refresh.1, e))
}

/// A new access token for the subject of a refresh token valid at `now`.
pub fn access_token_from_refresh(config: &AuthConfig, refresh_token: &str, now: u64) -> (r: Option<
    String,
>)
    ensures
        match verdict(jwt_claims(config.refresh_secret@, refresh_token@), now) {
            Ok(c) => r is Some && r->0@ == renewal(config.access_secret@, config.access_ttl, c, now).1,
            Err(_) => r is None,
        },
{
    match verify_at(config.refresh_secret.as_slice(), refresh_token, now) {
        Ok(c) => Some(
            issue_at(config.access_secret.as_slice(), c.uid, c.username.as_str(), config.access_ttl, now),
        ),
        Err(_) => None,
    }
}

/// The refusal for a refresh token that does not verify.
pub open spec fn refresh_failure(e: TokenError) -> AuthError {
    match e {
        TokenError::BadSignature => AuthError::InvalidRefreshToken,
        TokenError::Expired => AuthError::ExpiredRefreshToken,
    }
}

/// A new access token from the `refresh` cookie, valid at `now`.
pub fn refresh_access_token(config: &AuthConfig, cookies: &Option<Vec<(String, String)>>, now: u64) -> (r:
    Result<String, AuthError>)
    ensures
        match (match cookies {
            Some(cs) => first_named(pairs_view(cs@), "refresh"@),
            None => None,
        }) {
            None => r == Err::<String, AuthError>(AuthError::MissingRefreshToken),
            Some(t) => match verdict(jwt_claims(config.refresh_secret@, t), now) {
                Ok(c) => r is Ok && r->Ok_0@ == renewal(config.access_secret@, config.access_ttl, c, now).1,
                Err(e) => r == Err::<String, AuthError>(refresh_failure(e)),
            },
        },
{
    let refresh = match cookies {
        Some(cs) => find_named(cs, "refresh"),
        None => None,
    };
    match refresh {
        None => Err(AuthError::MissingRefreshToken),
        Some(t) => match verify_at(config.refresh_secret.as_slice(), t.as_str(), now) {
            Ok(c) => Ok(
                issue_at(config.access_secret.as_slice(), c.uid, c.username.as_str(), config.access_ttl, now),
            ),
            Err(TokenError::BadSignature) => Err(AuthError::InvalidRefreshToken),
            Err(TokenError::Expired) => Err(AuthError::ExpiredRefreshToken),
        },
    }
}

} // verus!
