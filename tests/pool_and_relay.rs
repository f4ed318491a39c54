use authgate::account::{accept_login, login_user, registered_user, LoginError, StoredUser};
use authgate::auth::AuthConfig;
use authgate::pool::{Message, WorkQueue};
use authgate::relay::{relay_step, RelayAction, RelayEvent, RelayState};
use authgate::token::verify;

#[test]
fn queue_hands_out_jobs_in_order_then_terminations() {
    let mut q: WorkQueue<u32> = WorkQueue::new();
    for j in 0..5 {
        q.submit(j);
    }
    q.shutdown(3);
    assert_eq!(q.len(), 8);
    let mut jobs = vec![];
    let mut stops = 0;
    while let Some(m) = q.next() {
        match m {
            Message::NewJob(j) => {
                assert_eq!(stops, 0);
                jobs.push(j);
            }
            Message::Terminate => stops += 1,
        }
    }
    assert_eq!(jobs, vec![0, 1, 2, 3, 4]);
    assert_eq!(stops, 3);
    assert!(q.next().is_none());
}

#[test]
fn relay_writes_flushes_and_stops() {
    let (s, a) = relay_step(RelayState::Receiving, RelayEvent::Message("m1".to_string()));
    assert_eq!(s, RelayState::Writing);
    assert!(matches!(a, RelayAction::Write(ref m) if m == "m1"));
    let (s, a) = relay_step(s, RelayEvent::Written);
    assert_eq!(s, RelayState::Flushing);
    assert!(matches!(a, RelayAction::Flush));
    let (s, a) = relay_step(s, RelayEvent::Flushed);
    assert_eq!(s, RelayState::Receiving);
    assert!(matches!(a, RelayAction::Receive));
    let (s, a) = relay_step(s, RelayEvent::ChannelClosed);
    assert_eq!(s, RelayState::Closed);
    assert!(matches!(a, RelayAction::Stop));
}

#[test]
fn relay_shuts_down_on_failure() {
    let (s, a) = relay_step(RelayState::Writing, RelayEvent::WriteFailed);
    assert_eq!(s, RelayState::Closed);
    assert!(matches!(a, RelayAction::Shutdown));
    let (s, a) = relay_step(RelayState::Flushing, RelayEvent::FlushFailed);
    assert_eq!(s, RelayState::Closed);
    assert!(matches!(a, RelayAction::Shutdown));
    let (s, a) = relay_step(RelayState::Closed, RelayEvent::Message("late".to_string()));
    assert_eq!(s, RelayState::Closed);
    assert!(matches!(a, RelayAction::Stop));
}

fn config() -> AuthConfig {
    AuthConfig { access_secret: b"access".to_vec(), access_ttl: 600, refresh_secret: b"refresh".to_vec() }
}

#[test]
fn login_of_unknown_user_fails() {
    assert_eq!(login_user(&config(), None, "pw").err(), Some(LoginError::UnknownUser));
}

#[test]
fn login_against_malformed_hash_fails() {
    let rec = StoredUser { id: 1, username: "u".to_string(), password_hash: "plain".to_string() };
    assert_eq!(login_user(&config(), Some(rec), "plain").err(), Some(LoginError::WrongPassword));
}

#[test]
fn registration_issues_both_tokens() {
    let cfg = config();
    let (user, refresh) = registered_user(&cfg, 77, "frank");
    assert_eq!(user.id, 77);
    assert_eq!(user.username, "frank");
    assert_eq!(verify(&cfg.access_secret, &user.access_token).unwrap().uid, 77);
    assert_eq!(verify(&cfg.refresh_secret, &refresh).unwrap().username, "frank");
    assert!(verify(&cfg.access_secret, &refresh).is_err());
}

const PASSWORD_HASH: &str = "$2a$04$UuTkLRZZ6QofpDOlMz32MuuxEHA43WOemOYHPz6.SjsVsyO1tDU96";

fn stored() -> StoredUser {
    StoredUser { id: 11, username: "gina".to_string(), password_hash: PASSWORD_HASH.to_string() }
}

#[test]
fn login_with_matching_password_gives_user_and_token() {
    let cfg = config();
    let user = login_user(&cfg, Some(stored()), "password").unwrap();
    assert_eq!(user.id, 11);
    assert_eq!(user.username, "gina");
    let claims = verify(&cfg.access_secret, &user.access_token).unwrap();
    assert_eq!((claims.uid, claims.username.as_str()), (11, "gina"));
}

#[test]
fn login_with_wrong_password_fails() {
    assert_eq!(login_user(&config(), Some(stored()), "passw0rd").err(), Some(LoginError::WrongPassword));
}

#[test]
fn accept_login_follows_the_verdict() {
    let cfg = config();
    assert_eq!(accept_login(&cfg, Some(stored()), Some(true)).unwrap().id, 11);
    assert_eq!(accept_login(&cfg, Some(stored()), Some(false)).err(), Some(LoginError::WrongPassword));
    assert_eq!(accept_login(&cfg, Some(stored()), None).err(), Some(LoginError::WrongPassword));
    assert_eq!(accept_login(&cfg, None, Some(true)).err(), Some(LoginError::UnknownUser));
}
