use lunch_list::claims::{decode_access_at, decode_refresh_at};
use lunch_list::errors::ServiceError;
use lunch_list::service::{AppState, AuthService, LogoutRequest};
use lunch_list::validation::{FieldError, Login, Signup};

const SECRET: &[u8] = b"token-secret";

fn service() -> AuthService {
    AuthService::new(AppState {
        token_secret: "token-secret".to_string(),
        signup_secret: "correct-secret".to_string(),
    })
}

fn signup(name: &str, password: &str, secret: &str) -> Signup {
    Signup::new(name.to_string(), password.to_string(), secret.to_string())
}

fn login(name: &str, password: &str) -> Login {
    Login { username: name.to_string(), password: password.to_string() }
}

#[test]
fn signup_login_refresh_scenario() {
    let mut s = service();
    assert_eq!(s.signup(&signup("alice", "pw1", "correct-secret")).unwrap(), 1);
    let again = s.signup(&signup("alice", "pw2", "correct-secret")).unwrap_err();
    assert!(matches!(again, ServiceError::UserAlreadyExists { ref username } if username == "alice"));
    assert_eq!(again.status_code(), 400);

    let (access, cookie) = s.login_at(&login("alice", "pw1"), 1000).unwrap();
    let claims = decode_access_at(&access, SECRET, 1000).unwrap();
    assert_eq!(claims.sub, 1);
    assert_eq!(claims.name, "alice");

    let (access2, cookie2) = s.refresh_at(Some(&cookie), 1001).unwrap();
    assert_ne!(cookie2, cookie);
    assert_eq!(decode_access_at(&access2, SECRET, 1001).unwrap().name, "alice");
    assert_eq!(decode_refresh_at(&cookie2, SECRET, 1001).unwrap().sub, 1);

    let replay = s.refresh_at(Some(&cookie), 1002).unwrap_err();
    assert!(matches!(replay, ServiceError::InvalidRefreshToken));
    assert_eq!(replay.status_code(), 401);
    // the replay revoked the whole family, the fresh cookie included
    assert!(matches!(s.refresh_at(Some(&cookie2), 1003), Err(ServiceError::InvalidRefreshToken)));
}

#[test]
fn login_with_wrong_password_or_unknown_user_is_unauthorized() {
    let mut s = service();
    s.signup(&signup("alice", "pw1", "correct-secret")).unwrap();
    assert!(matches!(s.login_at(&login("alice", "pw2"), 1000), Err(ServiceError::Unauthorized)));
    assert!(matches!(s.login_at(&login("bob", "pw1"), 1000), Err(ServiceError::Unauthorized)));
    assert!(s.login(&login("alice", "pw1")).is_ok());
}

#[test]
fn signup_refusals() {
    let mut s = service();
    assert!(matches!(
        s.signup(&signup("alice", "pw1", "wrong-secret")),
        Err(ServiceError::InvalidSignupSecret)
    ));
    match s.signup(&signup("user#123?<>", "", "correct-secret")) {
        Err(ServiceError::ValidatorError(errors)) => {
            assert_eq!(errors, vec![FieldError::UsernameCharacters, FieldError::EmptyPassword])
        }
        _ => panic!("expected a validation error"),
    }
    match s.signup(&signup("   ", "pw", "wrong-secret")) {
        Err(ServiceError::ValidatorError(errors)) => assert_eq!(errors, vec![FieldError::EmptyUsername]),
        _ => panic!("expected a validation error"),
    }
    assert_eq!(s.signup(&signup("Sir User", "pw", "correct-secret")).unwrap(), 1);
    assert_eq!(s.signup(&signup("bob", "pw", "correct-secret")).unwrap(), 2);
}

#[test]
fn usernames_are_trimmed() {
    let mut s = service();
    assert_eq!(s.signup(&signup("  bob \n", "pw", "correct-secret")).unwrap(), 1);
    assert!(matches!(
        s.signup(&signup("bob", "pw", "correct-secret")),
        Err(ServiceError::UserAlreadyExists { .. })
    ));
    let (access, _) = s.login_at(&login(" bob", "pw"), 1000).unwrap();
    assert_eq!(decode_access_at(&access, SECRET, 1000).unwrap().name, "bob");
}

#[test]
fn refresh_refusals() {
    let mut s = service();
    s.signup(&signup("alice", "pw1", "correct-secret")).unwrap();
    assert!(matches!(s.refresh_at(None, 1000), Err(ServiceError::Unauthorized)));
    assert!(matches!(s.refresh_at(Some("junk"), 1000), Err(ServiceError::Unauthorized)));
    let (_, cookie) = s.login_at(&login("alice", "pw1"), 1000).unwrap();
    assert!(matches!(s.refresh_at(Some(&cookie), 1000 + 604801), Err(ServiceError::Unauthorized)));
    assert!(s.refresh_at(Some(&cookie), 1000 + 604800).is_ok());
}

#[test]
fn logout_is_idempotent() {
    let mut s = service();
    s.signup(&signup("alice", "pw1", "correct-secret")).unwrap();
    let (_, cookie) = s.login_at(&login("alice", "pw1"), 1000).unwrap();
    let one = LogoutRequest { all: false };
    assert!(s.logout_at(Some(&cookie), &one, 1001).is_ok());
    assert!(s.logout_at(Some(&cookie), &one, 1002).is_ok());
    assert!(matches!(s.refresh_at(Some(&cookie), 1003), Err(ServiceError::InvalidRefreshToken)));
    assert!(matches!(s.logout_at(None, &one, 1004), Err(ServiceError::Unauthorized)));
    assert!(s.logout_at(Some("junk"), &one, 1004).is_ok());
    assert!(s.logout(Some(&cookie), &one).is_ok());
}

#[test]
fn logout_one_keeps_other_sessions() {
    let mut s = service();
    s.signup(&signup("alice", "pw1", "correct-secret")).unwrap();
    let (_, phone) = s.login_at(&login("alice", "pw1"), 1000).unwrap();
    let (_, laptop) = s.login_at(&login("alice", "pw1"), 1001).unwrap();
    s.logout_at(Some(&phone), &LogoutRequest { all: false }, 1002).unwrap();
    assert!(s.refresh_at(Some(&laptop), 1003).is_ok());
}

#[test]
fn logout_all_ends_every_session() {
    let mut s = service();
    s.signup(&signup("alice", "pw1", "correct-secret")).unwrap();
    s.signup(&signup("bob", "pw2", "correct-secret")).unwrap();
    let (_, phone) = s.login_at(&login("alice", "pw1"), 1000).unwrap();
    let (_, laptop) = s.login_at(&login("alice", "pw1"), 1001).unwrap();
    let (_, bobs) = s.login_at(&login("bob", "pw2"), 1001).unwrap();
    s.logout_at(Some(&phone), &LogoutRequest { all: true }, 1002).unwrap();
    assert!(matches!(s.refresh_at(Some(&laptop), 1003), Err(ServiceError::InvalidRefreshToken)));
    assert!(s.refresh_at(Some(&bobs), 1003).is_ok());
}

#[test]
fn concurrent_refreshes_rotate_once() {
    let mut s = service();
    s.signup(&signup("alice", "pw1", "correct-secret")).unwrap();
    let (_, cookie) = s.login_at(&login("alice", "pw1"), 1000).unwrap();
    let mut successes = 0;
    let mut replays = 0;
    for i in 0..5u64 {
        match s.refresh_at(Some(&cookie), 1001 + i) {
            Ok(_) => successes += 1,
            Err(ServiceError::InvalidRefreshToken) => replays += 1,
            Err(e) => panic!("unexpected {:?}", e),
        }
    }
    assert_eq!(successes, 1);
    assert_eq!(replays, 4);
}

#[test]
fn multiple_devices_each_refresh() {
    let mut s = service();
    s.signup(&signup("alice", "pw1", "correct-secret")).unwrap();
    let (_, phone) = s.login_at(&login("alice", "pw1"), 1000).unwrap();
    let (_, laptop) = s.login_at(&login("alice", "pw1"), 1001).unwrap();
    assert!(s.refresh_at(Some(&phone), 1002).is_ok());
    assert!(s.refresh_at(Some(&laptop), 1002).is_ok());
}

#[test]
fn refresh_in_the_same_second_rotates() {
    let mut s = service();
    s.signup(&signup("alice", "pw1", "correct-secret")).unwrap();
    let (_, c1) = s.login_at(&login("alice", "pw1"), 1000).unwrap();
    let (_, c2) = s.refresh_at(Some(&c1), 1000).unwrap();
    assert_ne!(c1, c2);
    assert!(matches!(s.refresh_at(Some(&c1), 1000), Err(ServiceError::InvalidRefreshToken)));
    assert!(matches!(s.refresh_at(Some(&c2), 1000), Err(ServiceError::InvalidRefreshToken)));
}

#[test]
fn two_logins_in_one_second_are_two_sessions() {
    let mut s = service();
    s.signup(&signup("alice", "pw1", "correct-secret")).unwrap();
    let (_, phone) = s.login_at(&login("alice", "pw1"), 1000).unwrap();
    let (_, laptop) = s.login_at(&login("alice", "pw1"), 1000).unwrap();
    assert_ne!(phone, laptop);
    s.logout_at(Some(&phone), &LogoutRequest { all: false }, 1000).unwrap();
    assert!(s.refresh_at(Some(&laptop), 1000).is_ok());
}

#[test]
fn unicode_white_space_is_trimmed() {
    let mut s = service();
    assert_eq!(s.signup(&signup("\u{3000}bob\u{a0}\t", "pw", "correct-secret")).unwrap(), 1);
    let (access, _) = s.login_at(&login("\u{2003}bob", "pw"), 1000).unwrap();
    assert_eq!(decode_access_at(&access, SECRET, 1000).unwrap().name, "bob");
}

#[test]
fn tokens_decode_to_the_user() {
    let mut s = service();
    s.signup(&signup("alice", "pw1", "correct-secret")).unwrap();
    let (access, cookie) = s.login_at(&login("alice", "pw1"), 1000).unwrap();
    assert_eq!(decode_access_at(&access, SECRET, 1000).unwrap().sub, 1);
    assert_eq!(decode_refresh_at(&cookie, SECRET, 1000).unwrap().sub, 1);
    assert!(decode_refresh_at(&cookie, b"other", 1000).is_err());
}
