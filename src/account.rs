//! Account decisions around the user store: logging in and registering.
use vstd::prelude::*;
use crate::auth::{generate_refresh_token, generate_token, AuthConfig};
use crate::token::{expiry, jwt_claims, jwt_encoded, REFRESH_TOKEN_TTL};

verus! {

/// A signed-in user, as answered to the client.
pub struct User {
    pub id: i32,
    pub username: String,
    pub access_token: String,
}

impl User {
    pub fn new(id: i32, username: String, access_token: String) -> (r: User)
        ensures
            r.id == id,
            r.username@ == username@,
            r.access_token@ == access_token@,
    {
        User { id, username, access_token }
    }
}

/// An account as the user store holds it.
pub struct StoredUser {
    pub id: i32,
    pub username: String,
    pub password_hash: String,
}

/// Why a login fails.
#[derive(Debug, Clone, Copy, PartialEq, Eq, Structural)]
pub enum LoginError {
    UnknownUser,
    /// The password does not match, or the stored hash is malformed.
    WrongPassword,
}

/// What bcrypt says of `password` against the stored `hash`: whether it
/// matches, or none for a malformed hash.
pub uninterp spec fn bcrypt_verdict(password: Seq<char>, hash: Seq<char>) -> Option<bool>;

/// Relies on bcrypt::verify: rehashes `password` with the cost and salt that
/// `hash` carries and compares; an error for a malformed hash.
#[verifier::external_body]
fn password_matches(password: &str, hash: &str) -> (r: Option<bool>)
    ensures
        r == bcrypt_verdict(password@, hash@),
{
    bcrypt::verify(password, hash).ok()
}

/// Relies on bcrypt::hash at bcrypt::DEFAULT_COST: a fresh random salt on each
/// call, so that bcrypt::verify of the same password against the result
/// succeeds; an error only if the system's random source fails.
#[verifier::external_body]
fn hash_password(password: &str) -> (r: Option<String>)
    ensures
        match r {
            Some(h) => bcrypt_verdict(password@, h@) == Some(true),
            None => true,
        },
{
    bcrypt::hash(password, bcrypt::DEFAULT_COST).ok()
}

/// An access token for `(username, uid)` issued at some time.
pub open spec fn access_token_for(config: &AuthConfig, username: Seq<char>, uid: i32, token: Seq<char>) -> bool {
    exists|now: u64|
        token == jwt_encoded(config.access_secret@, username, uid, expiry(now, config.access_ttl))
            && jwt_claims(config.access_secret@, token) == Some(
            (username, uid, expiry(now, config.access_ttl)),
        )
}

/// Decides a login from the account found under the given name, if any, and
/// bcrypt's verdict on the password against its stored hash: the user with a
/// fresh access token when the password matches.
pub fn accept_login(config: &AuthConfig, record: Option<StoredUser>, verdict: Option<bool>) -> (r:
    Result<User, LoginError>)
    ensures
        match record {
            None => r == Err::<User, LoginError>(LoginError::UnknownUser),
            Some(u) => if verdict == Some(true) {
                r matches Ok(user) && user.id == u.id && user.username@ == u.username@
                    && access_token_for(config, u.username@, u.id, user.access_token@)
            } else {
                r == Err::<User, LoginError>(LoginError::WrongPassword)
            },
        },
{
    match record {
        None => Err(LoginError::UnknownUser),
        Some(u) => match verdict {
            Some(true) => {
                let access_token = generate_token(config, u.id, u.username.as_str());
                Ok(User::new(u.id, u.username, access_token))
            },
            _ => Err(LoginError::WrongPassword),
        },
    }
}

/// Logs in with `password` against the account found under the given name, if any.
pub fn login_user(config: &AuthConfig, record: Option<StoredUser>, password: &str) -> (r: Result<
    User,
    LoginError,
>)
    ensures
        match record {
            None => r == Err::<User, LoginError>(LoginError::UnknownUser),
            Some(u) => if bcrypt_verdict(password@, u.password_hash@) == Some(true) {
                r matches Ok(user) && user.id == u.id && user.username@ == u.username@
                    && access_token_for(config, u.username@, u.id, user.access_token@)
            } else {
                r == Err::<User, LoginError>(LoginError::WrongPassword)
            },
        },
{
    let verdict = match &record {
        Some(u) => password_matches(password, u.password_hash.as_str()),
        None => None,
    };
    accept_login(config, record, verdict)
}

/// The hash to store for a new account's password; none if hashing failed.
/// A stored hash always verifies against the password it was made from.
pub fn registration_hash(password: &str) -> (r: Option<String>)
    ensures
        match r {
            Some(h) => bcrypt_verdict(password@, h@) == Some(true),
            None => true,
        },
{
    hash_password(password)
}

/// The user answered after an account was stored under `id`, and the refresh
/// token to store with it.
pub fn registered_user(config: &AuthConfig, id: i32, username: &str) -> (r: (User, String))
    ensures
        r.0.id == id,
        r.0.username@ == username@,
        access_token_for(config, username@, id, r.0.access_token@),
        exists|now: u64|
            r.1@ == jwt_encoded(config.refresh_secret@, username@, id, expiry(now, REFRESH_TOKEN_TTL))
                && jwt_claims(config.refresh_secret@, r.1@) == Some(
                (username@, id, expiry(now, REFRESH_TOKEN_TTL)),
            ),
{
    let access_token = generate_token(config, id, username);
    let refresh_token = generate_refresh_token(config, username, id);
    (User::new(id, username.to_owned(), access_token), refresh_token)
}

} // verus!
