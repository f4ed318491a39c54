//! Signed access and refresh tokens (HS256 JWTs) and their verification.
use vstd::prelude::*;

verus! {

/// Lifetime of a refresh token in seconds: seven days.
pub const REFRESH_TOKEN_TTL: u64 = 604800;

/// The signed payload of a token.
pub struct Claims {
    pub username: String,
    pub uid: i32,
    /// Absolute expiry, seconds since the Unix epoch.
    pub exp: u64,
}

/// Mathematical form of claims: (username, uid, exp).
pub type ClaimsModel = (Seq<char>, i32, u64);

impl View for Claims {
    type V = ClaimsModel;

    open spec fn view(&self) -> ClaimsModel {
        (self.username@, self.uid, self.exp)
    }
}

impl Claims {
    pub fn new(username: String, uid: i32, exp: u64) -> (r: Claims)
        ensures
            r@ == (username@, uid, exp),
    {
        Claims { username, uid, exp }
    }
}

/// Why a token was not accepted.
#[derive(Debug, Clone, Copy, PartialEq, Eq, Structural)]
pub enum TokenError {
    /// Structurally invalid, signed with another secret, or another algorithm.
    BadSignature,
    /// Correctly signed, but its expiry has passed.
    Expired,
}

/// The compact token that jsonwebtoken produces for these claims under this secret.
pub uninterp spec fn jwt_encoded(secret: Seq<u8>, username: Seq<char>, uid: i32, exp: u64) -> Seq<char>;

/// The claims that jsonwebtoken recovers from a token under this secret, if its
/// HS256 signature is valid and its payload holds the three claims.
pub uninterp spec fn jwt_claims(secret: Seq<u8>, token: Seq<char>) -> Option<ClaimsModel>;

/// Relies on jsonwebtoken::encode with an HS256 header and an HMAC key made by
/// EncodingKey::from_secret: it cannot fail for that key family and a JSON
/// object payload, and jsonwebtoken::decode under the same secret gives the
/// claims back.
#[verifier::external_body]
fn encode_hs256(secret: &[u8], username: &str, uid: i32, exp: u64) -> (r: String)
    ensures
        r@ == jwt_encoded(secret@, username@, uid, exp),
        jwt_claims(secret@, r@) == Some((username@, uid, exp)),
{
    let mut payload = serde_json::Map::new();
    payload.insert("username".to_string(), serde_json::Value::from(username));
    payload.insert("uid".to_string(), serde_json::Value::from(uid));
    payload.insert("exp".to_string(), serde_json::Value::from(exp));
    let header = jsonwebtoken::Header::new(jsonwebtoken::Algorithm::HS256);
    let key = jsonwebtoken::EncodingKey::from_secret(secret);
    jsonwebtoken::encode(&header, &payload, &key).unwrap_or_default()
}

/// Relies on jsonwebtoken::decode with HS256 as the only accepted algorithm and
/// expiry left to the caller: the claims of a correctly signed token, none otherwise.
#[verifier::external_body]
fn decode_hs256(secret: &[u8], token: &str) -> (r: Option<Claims>)
    ensures
        jwt_claims(secret@, token@) == option_claims_view(&r),
{
    let mut validation = jsonwebtoken::Validation::new(jsonwebtoken::Algorithm::HS256);
    validation.validate_exp = false;
    let key = jsonwebtoken::DecodingKey::from_secret(secret);
    let c = jsonwebtoken::decode::<serde_json::Map<String, serde_json::Value>>(token, &key, &validation).ok()?.claims;
    let uid = i32::try_from(c.get("uid")?.as_i64()?).ok()?;
    let exp = c.get("exp")?.as_u64()?;
    Some(Claims { username: c.get("username")?.as_str()?.to_string(), uid, exp })
}

/// Relies on std::time::SystemTime::now: whole seconds since the Unix epoch
/// (zero for a clock set before it). Nothing is promised of the value.
#[verifier::external_body]
pub(crate) fn unix_now() -> u64 {
    std::time::SystemTime::now().duration_since(std::time::UNIX_EPOCH).map(|d| d.as_secs()).unwrap_or(0)
}

pub open spec fn option_claims_view(c: &Option<Claims>) -> Option<ClaimsModel> {
    match c {
        Some(c) => Some(c@),
        None => None,
    }
}

pub open spec fn result_claims_view(r: &Result<Claims, TokenError>) -> Result<ClaimsModel, TokenError> {
    match r {
        Ok(c) => Ok(c@),
        Err(e) => Err(*e),
    }
}

/// `now + ttl`, held at the largest timestamp.
pub open spec fn expiry(now: u64, ttl: u64) -> u64 {
    if now + ttl > u64::MAX {
        u64::MAX
    } else {
        (now + ttl) as u64
    }
}

/// The verdict on decoded claims at time `now`: a token is expired from its
/// expiry second on.
pub open spec fn verdict(decoded: Option<ClaimsModel>, now: u64) -> Result<ClaimsModel, TokenError> {
    match decoded {
        None => Err(TokenError::BadSignature),
        Some(c) => if now >= c.2 {
            Err(TokenError::Expired)
        } else {
            Ok(c)
        },
    }
}

/// Judges the outcome of decoding at time `now`.
pub fn check_claims(decoded: Option<Claims>, now: u64) -> (r: Result<Claims, TokenError>)
    ensures
        result_claims_view(&r) == verdict(option_claims_view(&decoded), now),
{
    match decoded {
        None => Err(TokenError::BadSignature),
        Some(c) => if now >= c.exp {
            Err(TokenError::Expired)
        } else {
            Ok(c)
        },
    }
}

/// Signs `(username, uid, now + ttl)` with `secret`. The token verifies under
/// the same secret to exactly these claims at every time before its expiry,
/// and is reported expired from then on (at once when `ttl` is zero).
pub fn issue_at(secret: &[u8], uid: i32, username: &str, ttl: u64, now: u64) -> (r: String)
    ensures
        r@ == jwt_encoded(secret@, username@, uid, expiry(now, ttl)),
        jwt_claims(secret@, r@) == Some((username@, uid, expiry(now, ttl))),
        forall|t: u64|
            t < expiry(now, ttl) ==> verdict(jwt_claims(secret@, r@), t) == Ok::<ClaimsModel, TokenError>(
                (username@, uid, expiry(now, ttl)),
            ),
        forall|t: u64| t >= expiry(now, ttl) ==> verdict(jwt_claims(secret@, r@), t) == Err::<ClaimsModel, TokenError>(TokenError::Expired),
{
    let exp = now.saturating_add(ttl);
    encode_hs256(secret, username, uid, exp)
}

/// Checks the signature of `token` under `secret` and its expiry against `now`.
pub fn verify_at(secret: &[u8], token: &str, now: u64) -> (r: Result<Claims, TokenError>)
    ensures
        result_claims_view(&r) == verdict(jwt_claims(secret@, token@), now),
{
    check_claims(decode_hs256(secret, token), now)
}

/// Signs `(username, uid, now + ttl)` with `secret`, reading the clock for `now`.
pub fn issue(secret: &[u8], uid: i32, username: &str, ttl: u64) -> (r: String)
    ensures
        exists|now: u64|
            r@ == jwt_encoded(secret@, username@, uid, expiry(now, ttl)) && jwt_claims(secret@, r@)
                == Some((username@, uid, expiry(now, ttl))),
{
    issue_at(secret, uid, username, ttl, unix_now())
}

/// Checks `token` under `secret` against the clock. A bad signature is reported
/// whatever the time; otherwise the claims are those that the token carries.
pub fn verify(secret: &[u8], token: &str) -> (r: Result<Claims, TokenError>)
    ensures
        exists|now: u64| result_claims_view(&r) == verdict(jwt_claims(secret@, token@), now),
        r == Err::<Claims, TokenError>(TokenError::BadSignature) <==> jwt_claims(secret@, token@) is None,
{
    verify_at(secret, token, unix_now())
}

/// A token that does not decode under a secret is refused as a bad
/// signature at every time, never as expired.
pub proof fn lemma_undecodable_is_bad_signature(secret: Seq<u8>, token: Seq<char>, now: u64)
    requires
        jwt_claims(secret, token) is None,
    ensures
        verdict(jwt_claims(secret, token), now) == Err::<ClaimsModel, TokenError>(
            TokenError::BadSignature,
        ),
{
}

} // verus!
