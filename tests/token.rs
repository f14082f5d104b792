use blog::errors::ServiceError;
use blog::token::{
    decode_claims, encode_claims, issue_token, login, parse_token, resolve, Claims, TOKEN_TTL,
};
use blog::user::{require_admin, MeRequest, Role, User};

const SECRET: &[u8] = b"s3cr3t";

fn admin_claims(expiry: u64) -> Claims {
    Claims { subject: "admin".to_string(), role: Role::Admin, expiry }
}

#[test]
fn issued_token_has_known_form() {
    let t = issue_token(&admin_claims(1000), SECRET);
    assert_eq!(t, "AAAAAAAAA+hBYWRtaW4=.282UYxvCIdOiFPGHKsU69lSvHSqUwU8IynyJITuqaiA=");
}

#[test]
fn claims_payload_round_trips() {
    let c = Claims { subject: "관리자".to_string(), role: Role::Guest, expiry: u64::MAX };
    let bytes = encode_claims(&c);
    assert_eq!(bytes.len(), 9 + "관리자".len());
    assert_eq!(decode_claims(&bytes), Some(c));
    assert_eq!(decode_claims(&bytes[..8]), None);
    let mut bad_role = bytes.clone();
    bad_role[8] = b'X';
    assert_eq!(decode_claims(&bad_role), None);
}

#[test]
fn valid_token_passes_admin_check() {
    let t = issue_token(&admin_claims(2000), SECRET);
    assert_eq!(parse_token(&t, SECRET, 1999), Some(admin_claims(2000)));
    let u = resolve(Some(&t), SECRET, 1500);
    assert_eq!(u, User { username: "admin".to_string(), role: Role::Admin });
    assert!(require_admin(&u));
}

#[test]
fn tampered_token_is_guest() {
    let t = issue_token(&admin_claims(2000), SECRET);
    let mut bytes = t.clone().into_bytes();
    // flip one payload character
    bytes[3] = if bytes[3] == b'B' { b'C' } else { b'B' };
    let forged = String::from_utf8(bytes).unwrap();
    assert_eq!(parse_token(&forged, SECRET, 1000), None);
    let u = resolve(Some(&forged), SECRET, 1000);
    assert_eq!(u, User { username: String::new(), role: Role::Guest });
    assert!(!require_admin(&u));
}

#[test]
fn wrong_secret_is_rejected() {
    let t = issue_token(&admin_claims(2000), SECRET);
    assert_eq!(parse_token(&t, b"other", 1000), None);
}

#[test]
fn expired_token_is_guest() {
    let t = issue_token(&admin_claims(2000), SECRET);
    assert_eq!(parse_token(&t, SECRET, 2000), None);
    assert_eq!(parse_token(&t, SECRET, 5000), None);
    assert_eq!(resolve(Some(&t), SECRET, 2000).role, Role::Guest);
}

#[test]
fn malformed_tokens_are_guest() {
    assert_eq!(resolve(None, SECRET, 0).role, Role::Guest);
    assert_eq!(parse_token("", SECRET, 0), None);
    assert_eq!(parse_token("no-dot-here", SECRET, 0), None);
    assert_eq!(parse_token("!!.??", SECRET, 0), None);
}

#[test]
fn login_opens_a_day_long_session() {
    let req = MeRequest { user: "guest".to_string(), password: "secret".to_string() };
    let s = login(&req, "guest", "secret", SECRET, 10_000).unwrap();
    assert_eq!(s.user, User { username: "guest".to_string(), role: Role::Admin });
    let c = parse_token(&s.token, SECRET, 10_000).unwrap();
    assert_eq!(c.expiry, 10_000 + TOKEN_TTL);
    assert_eq!(TOKEN_TTL, 86_400);
    assert!(require_admin(&resolve(Some(&s.token), SECRET, 10_000 + TOKEN_TTL - 1)));
    assert!(!require_admin(&resolve(None, SECRET, 10_000)));
}

#[test]
fn login_with_wrong_password_is_unauthorized() {
    let req = MeRequest { user: "guest".to_string(), password: "x".to_string() };
    assert_eq!(login(&req, "guest", "secret", SECRET, 0), Err(ServiceError::Unauthorized));
}
