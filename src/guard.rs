//! The per-request token lifecycle: bypass, accept, renew from a refresh token, or refuse.
use vstd::prelude::*;
use crate::auth::{is_protected, renewal, should_require_token_verification, AuthConfig, AuthError};
use crate::token::{
    expiry, issue_at, jwt_claims, jwt_encoded, verdict, verify_at, Claims, ClaimsModel,
    TokenError,
};

verus! {

/// What the guard does with the verification results of a request's tokens.
pub enum GuardStep {
    /// The path is public: no token is looked at.
    Public,
    /// The access token is valid; these are its claims.
    Authorized(Claims),
    /// The access token has expired and the refresh token, with these claims, is valid.
    Renew(Claims),
    Rejected(AuthError),
}

pub enum StepModel {
    Public,
    Authorized(ClaimsModel),
    Renew(ClaimsModel),
    Rejected(AuthError),
}

impl View for GuardStep {
    type V = StepModel;

    open spec fn view(&self) -> StepModel {
        match self {
            GuardStep::Public => StepModel::Public,
            GuardStep::Authorized(c) => StepModel::Authorized(c@),
            GuardStep::Renew(c) => StepModel::Renew(c@),
            GuardStep::Rejected(e) => StepModel::Rejected(*e),
        }
    }
}

pub type VerdictModel = Option<Result<ClaimsModel, TokenError>>;

pub open spec fn verdict_view(v: &Option<Result<Claims, TokenError>>) -> VerdictModel {
    match v {
        None => None,
        Some(Ok(c)) => Some(Ok(c@)),
        Some(Err(e)) => Some(Err(*e)),
    }
}

/// The guard's transitions. `access` and `refresh` are the verdicts on the two
/// tokens, `None` where the request carries no such token.
pub open spec fn decide(protected: bool, access: VerdictModel, refresh: VerdictModel) -> StepModel {
    if !protected {
        StepModel::Public
    } else {
        match access {
            None => StepModel::Rejected(AuthError::MissingAccessToken),
            Some(Err(TokenError::BadSignature)) => StepModel::Rejected(AuthError::InvalidAccessToken),
            Some(Ok(c)) => StepModel::Authorized(c),
            Some(Err(TokenError::Expired)) => match refresh {
                None => StepModel::Rejected(AuthError::MissingRefreshToken),
                Some(Err(TokenError::BadSignature)) => StepModel::Rejected(
                    AuthError::InvalidRefreshToken,
                ),
                Some(Err(TokenError::Expired)) => StepModel::Rejected(
                    AuthError::ExpiredRefreshToken,
                ),
                Some(Ok(c)) => StepModel::Renew(c),
            },
        }
    }
}

/// One step of the guard, from the verdicts on the request's tokens.
pub fn guard_step(
    protected: bool,
    access: Option<Result<Claims, TokenError>>,
    refresh: Option<Result<Claims, TokenError>>,
) -> (r: GuardStep)
    ensures
        r@ == decide(protected, verdict_view(&access), verdict_view(&refresh)),
{
    if !protected {
        return GuardStep::Public;
    }
    match access {
        None => GuardStep::Rejected(AuthError::MissingAccessToken),
        Some(Err(TokenError::BadSignature)) => GuardStep::Rejected(AuthError::InvalidAccessToken),
        Some(Ok(c)) => GuardStep::Authorized(c),
        Some(Err(TokenError::Expired)) => match refresh {
            None => GuardStep::Rejected(AuthError::MissingRefreshToken),
            Some(Err(TokenError::BadSignature)) => GuardStep::Rejected(AuthError::InvalidRefreshToken),
            Some(Err(TokenError::Expired)) => GuardStep::Rejected(AuthError::ExpiredRefreshToken),
            Some(Ok(c)) => GuardStep::Renew(c),
        },
    }
}

/// The end of the guard for one request.
pub enum GuardOutcome {
    /// Public path: routed without an identity.
    Public,
    /// Routed as the subject of `claims`, whose access token is `token`;
    /// `renewed` when that token was minted here from the refresh token.
    Authorized { claims: Claims, token: String, renewed: bool },
    /// Answered with 401; routing never runs.
    Rejected(AuthError),
}

pub enum OutcomeModel {
    Public,
    Authorized(ClaimsModel, Seq<char>, bool),
    Rejected(AuthError),
}

impl View for GuardOutcome {
    type V = OutcomeModel;

    open spec fn view(&self) -> OutcomeModel {
        match self {
            GuardOutcome::Public => OutcomeModel::Public,
            GuardOutcome::Authorized { claims, token, renewed } => OutcomeModel::Authorized(
                claims@,
                token@,
                *renewed,
            ),
            GuardOutcome::Rejected(e) => OutcomeModel::Rejected(*e),
        }
    }
}

pub open spec fn token_verdict(secret: Seq<u8>, token: Option<Seq<char>>, now: u64) -> VerdictModel {
    match token {
        None => None,
        Some(t) => Some(verdict(jwt_claims(secret, t), now)),
    }
}

pub open spec fn opt_str_view(o: Option<&str>) -> Option<Seq<char>> {
    match o {
        Some(s) => Some(s@),
        None => None,
    }
}

/// The guard's outcome at time `now` for a request to `path` that carries these tokens.
pub open spec fn guard(
    access_secret: Seq<u8>,
    access_ttl: u64,
    refresh_secret: Seq<u8>,
    path: Seq<char>,
    access: Option<Seq<char>>,
    refresh: Option<Seq<char>>,
    now: u64,
) -> OutcomeModel {
    match decide(
        is_protected(path),
        token_verdict(access_secret, access, now),
        token_verdict(refresh_secret, refresh, now),
    ) {
        StepModel::Public => OutcomeModel::Public,
        StepModel::Rejected(e) => OutcomeModel::Rejected(e),
        StepModel::Authorized(c) => OutcomeModel::Authorized(
            c,
            match access {
                Some(t) => t,
                None => Seq::empty(),
            },
            false,
        ),
        StepModel::Renew(c) => OutcomeModel::Authorized(
            renewal(access_secret, access_ttl, c, now).0,
            renewal(access_secret, access_ttl, c, now).1,
            true,
        ),
    }
}

/// Runs the guard at time `now`. A renewed access token verifies to the
/// identity that the request is routed as, and (for a positive lifetime) is
/// never the expired token that it replaces.
pub fn authorize_at(
    config: &AuthConfig,
    path: &str,
    access_token: Option<&str>,
    refresh_token: Option<&str>,
    now: u64,
) -> (r: GuardOutcome)
    ensures
        r@ == guard(
            config.access_secret@,
            config.access_ttl,
            config.refresh_secret@,
            path@,
            opt_str_view(access_token),
            opt_str_view(refresh_token),
            now,
        ),
        match r {
            GuardOutcome::Authorized { claims, token, renewed: true } => {
                &&& jwt_claims(config.access_secret@, token@) == Some(claims@)
                &&& (config.access_ttl > 0 && now < u64::MAX ==> match access_token {
                    Some(old) => token@ != old@,
                    None => true,
                })
            },
            _ => true,
        },
{
    let protected = should_require_token_verification(path);
    if !protected {
        return GuardOutcome::Public;
    }
    let access = match access_token {
        Some(t) => Some(verify_at(config.access_secret.as_slice(), t, now)),
        None => None,
    };
    let expired = match &access {
        Some(Err(TokenError::Expired)) => true,
        _ => false,
    };
    let refresh = if expired {
        match refresh_token {
            Some(t) => Some(verify_at(config.refresh_secret.as_slice(), t, now)),
            None => None,
        }
    } else {
        None
    };
    let ghost access_v = verdict_view(&access);
    match guard_step(protected, access, refresh) {
        GuardStep::Public => GuardOutcome::Public,
        GuardStep::Rejected(e) => GuardOutcome::Rejected(e),
        GuardStep::Authorized(c) => {
            let token = match access_token {
                Some(t) => t.to_owned(),
                None => String::new(),
            };
            GuardOutcome::Authorized { claims: c, token, renewed: false }
        },
        GuardStep::Renew(c) => {
            let token = issue_at(
                config.access_secret.as_slice(),
                c.uid,
                c.username.as_str(),
                config.access_ttl,
                now,
            );
            let exp = now.saturating_add(config.access_ttl);
            proof {
                if config.access_ttl > 0 && now < u64::MAX {
                    assert(expiry(now, config.access_ttl) > now);
                    if let Some(old) = access_token {
                        if token@ == old@ {
                            assert(access_v == Some(Err::<ClaimsModel, TokenError>(TokenError::Expired)));
                            assert(false);
                        }
                    }
                }
            }
            GuardOutcome::Authorized { claims: Claims::new(c.username, c.uid, exp), token, renewed: true }
        },
    }
}

/// A request to a protected path that carries neither an access token nor a
/// refresh token is refused, whatever the secrets and the time.
pub proof fn lemma_no_credentials_rejected(
    access_secret: Seq<u8>,
    access_ttl: u64,
    refresh_secret: Seq<u8>,
    path: Seq<char>,
    now: u64,
)
    requires
        is_protected(path),
    ensures
        guard(access_secret, access_ttl, refresh_secret, path, None, None, now) is Rejected,
{
}

/// On a protected path, an expired access token and a refresh token valid at
/// `now` give an authorized outcome with a newly minted access token for the
/// refresh token's subject, expiring `access_ttl` seconds after `now`.
pub proof fn lemma_expired_access_renewed(
    access_secret: Seq<u8>,
    access_ttl: u64,
    refresh_secret: Seq<u8>,
    path: Seq<char>,
    access: Seq<char>,
    refresh: Seq<char>,
    now: u64,
)
    requires
        is_protected(path),
        verdict(jwt_claims(access_secret, access), now) == Err::<ClaimsModel, TokenError>(
            TokenError::Expired,
        ),
        verdict(jwt_claims(refresh_secret, refresh), now) is Ok,
    ensures
        ({
            let subject = verdict(jwt_claims(refresh_secret, refresh), now)->Ok_0;
            let e = expiry(now, access_ttl);
            guard(access_secret, access_ttl, refresh_secret, path, Some(access), Some(refresh), now)
                == OutcomeModel::Authorized(
                (subject.0, subject.1, e),
                jwt_encoded(access_secret, subject.0, subject.1, e),
                true,
            )
        }),
{
}

} // verus!
