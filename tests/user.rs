use blog::errors::ServiceError;
use blog::user::{authenticate, authorize, require_admin, verify_credentials, MeRequest, Role, User};

fn admin() -> User {
    User { username: "guest".to_string(), role: Role::Admin }
}

fn guest() -> User {
    User { username: String::new(), role: Role::Guest }
}

#[test]
fn header_with_admin_credentials_is_admin() {
    let u = User::from_basic_auth(Some("Bearer Z3Vlc3Q6c2VjcmV0"), "guest", "secret");
    assert_eq!(u, admin());
}

#[test]
fn header_padding_is_restored() {
    let padded = User::from_basic_auth(Some("Bearer YWRtaW46cGFzcw=="), "admin", "pass");
    let bare = User::from_basic_auth(Some("Bearer YWRtaW46cGFzcw"), "admin", "pass");
    let want = User { username: "admin".to_string(), role: Role::Admin };
    assert_eq!(padded, want);
    assert_eq!(bare, want);
}

#[test]
fn password_may_hold_colons() {
    let u = User::from_basic_auth(Some("Bearer YWRtaW46cGE6c3M="), "admin", "pa:ss");
    assert_eq!(u.role, Role::Admin);
    let v = User::from_basic_auth(Some("Bearer YWRtaW46cGE6c3M="), "admin:pa", "ss");
    assert_eq!(v, guest());
}

#[test]
fn wrong_or_missing_header_is_guest() {
    assert_eq!(User::from_basic_auth(None, "guest", "secret"), guest());
    assert_eq!(User::from_basic_auth(Some("Bearer Z3Vlc3Q6d3Jvbmc="), "guest", "secret"), guest());
    assert_eq!(User::from_basic_auth(Some("Basic Z3Vlc3Q6c2VjcmV0"), "guest", "secret"), guest());
    assert_eq!(User::from_basic_auth(Some("Bearer !!!"), "guest", "secret"), guest());
    assert_eq!(User::from_basic_auth(Some("Bearer Z3Vl"), "gue", ""), guest());
    assert_eq!(User::from_basic_auth(Some("Bearer //4="), "guest", "secret"), guest());
}

#[test]
fn payload_of_bad_length_is_refused() {
    assert_eq!(User::from_basic_auth(Some("Bearer Z3Vlc"), "gue", ""), guest());
    assert_eq!(User::from_basic_auth(Some("Bearer Z3Vlc3Q6c2VjcmV0="), "guest", "secret"), guest());
}

#[test]
fn credentials_compare_exactly() {
    assert!(verify_credentials("guest", "secret", "guest", "secret"));
    assert!(!verify_credentials("guest", "Secret", "guest", "secret"));
    assert!(!verify_credentials("guest ", "secret", "guest", "secret"));
}

#[test]
fn login_body_is_checked() {
    let ok = MeRequest { user: "guest".to_string(), password: "secret".to_string() };
    let bad = MeRequest { user: "guest".to_string(), password: "nope".to_string() };
    assert_eq!(authenticate(&ok, "guest", "secret"), admin());
    assert_eq!(authenticate(&bad, "guest", "secret"), guest());
}

#[test]
fn admin_check_admits_only_admin() {
    assert!(require_admin(&admin()));
    assert!(!require_admin(&guest()));
    assert_eq!(authorize(&admin()), Ok(()));
    assert_eq!(authorize(&guest()), Err(ServiceError::Unauthorized));
}
