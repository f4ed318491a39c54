use authgate::token::{check_claims, issue, issue_at, verify, verify_at, Claims, TokenError};

const NOW: u64 = 1_700_000_000;

#[test]
fn issued_token_verifies_to_its_claims_before_expiry() {
    let token = issue_at(b"access-secret", 42, "alice", 60, NOW);
    for t in [NOW, NOW + 1, NOW + 59] {
        let claims = verify_at(b"access-secret", &token, t).expect("valid before expiry");
        assert_eq!(claims.username, "alice");
        assert_eq!(claims.uid, 42);
        assert_eq!(claims.exp, NOW + 60);
    }
}

#[test]
fn token_is_expired_from_its_expiry_on() {
    let token = issue_at(b"access-secret", 7, "bob", 60, NOW);
    assert_eq!(verify_at(b"access-secret", &token, NOW + 60).err(), Some(TokenError::Expired));
    assert_eq!(verify_at(b"access-secret", &token, NOW + 1000).err(), Some(TokenError::Expired));
}

#[test]
fn zero_lifetime_token_is_expired_at_once() {
    let token = issue_at(b"access-secret", 7, "bob", 0, NOW);
    assert_eq!(verify_at(b"access-secret", &token, NOW).err(), Some(TokenError::Expired));
}

#[test]
fn other_secret_gives_bad_signature_whatever_the_time() {
    let token = issue_at(b"access-secret", 7, "bob", 60, NOW);
    assert_eq!(verify_at(b"refresh-secret", &token, NOW).err(), Some(TokenError::BadSignature));
    assert_eq!(verify_at(b"refresh-secret", &token, NOW + 1000).err(), Some(TokenError::BadSignature));
}

#[test]
fn garbage_token_gives_bad_signature() {
    assert_eq!(verify_at(b"s", "not.a.token", NOW).err(), Some(TokenError::BadSignature));
    assert_eq!(verify_at(b"s", "", NOW).err(), Some(TokenError::BadSignature));
}

#[test]
fn token_is_a_three_part_jwt() {
    let token = issue_at(b"k", 1, "u", 10, NOW);
    assert_eq!(token.split('.').count(), 3);
    assert!(token.starts_with("eyJ"));
}

#[test]
fn expiry_saturates_at_the_largest_time() {
    let token = issue_at(b"k", 1, "u", u64::MAX, NOW);
    let claims = verify_at(b"k", &token, NOW).unwrap();
    assert_eq!(claims.exp, u64::MAX);
}

#[test]
fn names_outside_ascii_survive_signing() {
    let token = issue_at(b"k", -5, "zoë \"quoted\"", 10, NOW);
    let claims = verify_at(b"k", &token, NOW).unwrap();
    assert_eq!(claims.username, "zoë \"quoted\"");
    assert_eq!(claims.uid, -5);
}

#[test]
fn clock_based_issue_and_verify_agree() {
    let token = issue(b"k", 3, "carol", 3600);
    let claims = verify(b"k", &token).unwrap();
    assert_eq!(claims.uid, 3);
    assert_eq!(claims.username, "carol");
}

#[test]
fn check_claims_judges_expiry() {
    let c = Claims::new("d".to_string(), 1, 100);
    assert_eq!(check_claims(Some(c), 99).unwrap().exp, 100);
    assert_eq!(check_claims(Some(Claims::new("d".to_string(), 1, 100)), 100).err(), Some(TokenError::Expired));
    assert_eq!(check_claims(None, 0).err(), Some(TokenError::BadSignature));
}

#[test]
fn other_algorithm_is_refused() {
    let mut payload = serde_json::Map::new();
    payload.insert("username".to_string(), serde_json::Value::from("eve"));
    payload.insert("uid".to_string(), serde_json::Value::from(1));
    payload.insert("exp".to_string(), serde_json::Value::from(NOW + 100));
    let header = jsonwebtoken::Header::new(jsonwebtoken::Algorithm::HS512);
    let token = jsonwebtoken::encode(&header, &payload, &jsonwebtoken::EncodingKey::from_secret(b"k")).unwrap();
    assert_eq!(verify_at(b"k", &token, NOW).err(), Some(TokenError::BadSignature));
}

#[test]
fn tampered_token_is_refused() {
    let token = issue_at(b"k", 1, "u", 100, NOW);
    let other = issue_at(b"k", 2, "u", 100, NOW);
    let parts: Vec<&str> = token.split('.').collect();
    let other_parts: Vec<&str> = other.split('.').collect();
    let forged = format!("{}.{}.{}", parts[0], other_parts[1], parts[2]);
    assert_eq!(verify_at(b"k", &forged, NOW).err(), Some(TokenError::BadSignature));
}
