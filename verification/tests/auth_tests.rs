use game_library::auth::{AuthError, CreateUserRequest, LoginRequest, Session, User, UserResponse};
use game_library::auth_service::AuthService;
use game_library::password::{check_password, hash_password, round_trip};
use game_library::time::Timestamp;

/// The hash of the password "password" at cost 4.
const PASSWORD_HASH: &str = "$2a$04$UuTkLRZZ6QofpDOlMz32MuuxEHA43WOemOYHPz6.SjsVsyO1tDU96";

fn at(secs: i64) -> Timestamp {
    Timestamp::new(secs, 0)
}

fn request(username: &str, is_admin: bool) -> CreateUserRequest {
    CreateUserRequest {
        username: username.to_string(),
        password: "password".to_string(),
        email: Some(format!("{}@example.org", username)),
        is_admin,
    }
}

fn service_with(names: &[&str]) -> AuthService {
    let mut service = AuthService::new();
    for (i, name) in names.iter().enumerate() {
        let created = service.create_user_with(
            request(name, false),
            format!("user-{}", name),
            PASSWORD_HASH.to_string(),
            at(100 + i as i64),
        );
        assert!(created.is_ok());
    }
    service
}

#[test]
fn new_service_is_empty() {
    let service = AuthService::new();
    assert_eq!(service.get_all_users().unwrap().len(), 0);
    assert_eq!(service.sessions().len(), 0);
}

#[test]
fn create_user_with_stores_the_account() {
    let mut service = AuthService::new();
    let user = service
        .create_user_with(request("alice", true), "u1".to_string(), PASSWORD_HASH.to_string(), at(5))
        .unwrap();
    assert_eq!(user.id, "u1");
    assert_eq!(user.username, "alice");
    assert_eq!(user.password_hash, PASSWORD_HASH);
    assert_eq!(user.email.as_deref(), Some("alice@example.org"));
    assert!(user.is_admin);
    assert_eq!(user.created_at, at(5));
    assert_eq!(user.updated_at, at(5));
    let all = service.get_all_users().unwrap();
    assert_eq!(all.len(), 1);
    assert_eq!(all[0].id, "u1");
}

#[test]
fn second_account_with_the_same_username_is_refused() {
    let mut service = AuthService::new();
    let first = service.create_user_with(
        request("alice", false),
        "u1".to_string(),
        PASSWORD_HASH.to_string(),
        at(1),
    );
    let second = service.create_user_with(
        request("alice", true),
        "u2".to_string(),
        PASSWORD_HASH.to_string(),
        at(2),
    );
    assert!(first.is_ok());
    assert_eq!(second.err(), Some(AuthError::UsernameExists));
    assert_eq!(service.get_all_users().unwrap().len(), 1);
}

#[test]
fn usernames_are_case_sensitive() {
    let mut service = service_with(&["alice"]);
    let other = service.create_user_with(
        request("Alice", false),
        "u9".to_string(),
        PASSWORD_HASH.to_string(),
        at(200),
    );
    assert!(other.is_ok());
}

#[test]
fn an_id_that_is_taken_is_an_internal_error() {
    let mut service = service_with(&["alice"]);
    let clash = service.create_user_with(
        request("bob", false),
        "user-alice".to_string(),
        PASSWORD_HASH.to_string(),
        at(200),
    );
    assert_eq!(clash.err(), Some(AuthError::InternalError));
    assert_eq!(service.get_all_users().unwrap().len(), 1);
}

#[test]
fn create_user_hashes_the_password() {
    let mut service = AuthService::new();
    let user = service.create_user(request("carol", false)).unwrap();
    assert_eq!(user.password_hash.chars().count(), 60);
    assert_ne!(user.password_hash, "password");
    assert_eq!(check_password("password", &user.password_hash), Some(true));
    assert_eq!(user.id.chars().count(), 36);
    assert!(user.created_at.secs > 1_600_000_000);
    assert_eq!(user.created_at, user.updated_at);
}

#[test]
fn create_user_refuses_a_taken_username_before_hashing() {
    let mut service = service_with(&["alice"]);
    let again = service.create_user(request("alice", false));
    assert_eq!(again.err(), Some(AuthError::UsernameExists));
}

#[test]
fn a_created_account_logs_in_with_its_password() {
    let mut service = AuthService::new();
    let created = service.create_user(request("dave", false)).unwrap();
    let (user, session) = service
        .login(LoginRequest { username: "dave".to_string(), password: "password".to_string() })
        .unwrap();
    assert_eq!(user.id, created.id);
    assert_eq!(session.user_id, created.id);
    assert_eq!(session.token.chars().count(), 36);
    assert_eq!(session.id.chars().count(), 36);
    assert_ne!(session.id, session.token);
    assert_eq!(session.expires_at.secs, session.created_at.secs + 86_400);
    assert_eq!(session.expires_at.nanos, session.created_at.nanos);
}

#[test]
fn check_password_tells_right_from_wrong() {
    assert_eq!(check_password("password", PASSWORD_HASH), Some(true));
    assert_eq!(check_password("Password", PASSWORD_HASH), Some(false));
    assert_eq!(check_password("", PASSWORD_HASH), Some(false));
}

#[test]
fn a_fresh_hash_accepts_its_password() {
    assert_eq!(round_trip("correct horse battery staple"), Some(true));
}

#[test]
fn two_hashes_of_one_password_differ() {
    let first = hash_password("secret").unwrap();
    let second = hash_password("secret").unwrap();
    assert_eq!(first.len(), 60);
    assert!(first.starts_with("$2b$12$"));
    assert_ne!(first, second);
    assert_eq!(check_password("secret", &second), Some(true));
}

#[test]
fn long_passwords_are_compared_by_their_first_72_bytes() {
    let mut service = AuthService::new();
    let long = "a".repeat(73);
    let user = service
        .create_user(CreateUserRequest {
            username: "long".to_string(),
            password: long.clone(),
            email: None,
            is_admin: false,
        })
        .unwrap();
    let other = format!("{}b", "a".repeat(72));
    assert_ne!(long, other);
    assert_eq!(check_password(&other, &user.password_hash), Some(true));
}

#[test]
fn check_password_cannot_read_a_malformed_hash() {
    assert_eq!(check_password("password", "not a hash"), None);
    assert_eq!(check_password("password", ""), None);
}

#[test]
fn login_with_the_wrong_password_is_invalid_credentials() {
    let mut service = service_with(&["alice"]);
    let r = service.login_with(
        LoginRequest { username: "alice".to_string(), password: "guess".to_string() },
        "s1".to_string(),
        "t1".to_string(),
        at(300),
    );
    assert_eq!(r.err(), Some(AuthError::InvalidCredentials));
    assert_eq!(service.sessions().len(), 0);
}

#[test]
fn login_with_an_unknown_username_is_invalid_credentials() {
    let mut service = service_with(&["alice"]);
    let r = service.login_with(
        LoginRequest { username: "mallory".to_string(), password: "password".to_string() },
        "s1".to_string(),
        "t1".to_string(),
        at(300),
    );
    assert_eq!(r.err(), Some(AuthError::InvalidCredentials));
}

#[test]
fn login_against_an_unreadable_hash_is_an_internal_error() {
    let mut service = AuthService::new();
    service
        .create_user_with(request("erin", false), "u1".to_string(), "garbage".to_string(), at(1))
        .unwrap();
    let r = service.login_with(
        LoginRequest { username: "erin".to_string(), password: "password".to_string() },
        "s1".to_string(),
        "t1".to_string(),
        at(2),
    );
    assert_eq!(r.err(), Some(AuthError::InternalError));
}

#[test]
fn login_issues_a_new_session_each_time() {
    let mut service = service_with(&["alice"]);
    let login = || LoginRequest { username: "alice".to_string(), password: "password".to_string() };
    let (user, first) =
        service.login_with(login(), "s1".to_string(), "t1".to_string(), at(300)).unwrap();
    let (_, second) =
        service.login_with(login(), "s2".to_string(), "t2".to_string(), at(301)).unwrap();
    assert_eq!(user.username, "alice");
    assert_eq!(first.token, "t1");
    assert_eq!(second.token, "t2");
    assert_eq!(first.expires_at, at(300 + 86_400));
    assert_eq!(service.sessions().len(), 2);
}

#[test]
fn login_with_a_taken_token_is_an_internal_error() {
    let mut service = service_with(&["alice"]);
    let login = || LoginRequest { username: "alice".to_string(), password: "password".to_string() };
    service.login_with(login(), "s1".to_string(), "t1".to_string(), at(300)).unwrap();
    let clash = service.login_with(login(), "s2".to_string(), "t1".to_string(), at(301));
    assert_eq!(clash.err(), Some(AuthError::InternalError));
    let clash = service.login_with(login(), "s1".to_string(), "t2".to_string(), at(301));
    assert_eq!(clash.err(), Some(AuthError::InternalError));
    assert_eq!(service.sessions().len(), 1);
}

#[test]
fn complete_login_follows_the_verdict() {
    let mut service = service_with(&["alice"]);
    let user = service.get_all_users().unwrap().remove(0);
    let denied =
        service.complete_login(user.clone(), Some(false), "s1".to_string(), "t1".to_string(), at(1));
    assert_eq!(denied.err(), Some(AuthError::InvalidCredentials));
    let broken = service.complete_login(user.clone(), None, "s1".to_string(), "t1".to_string(), at(1));
    assert_eq!(broken.err(), Some(AuthError::InternalError));
    let (who, session) = service
        .complete_login(user, Some(true), "s1".to_string(), "t1".to_string(), at(1))
        .unwrap();
    assert_eq!(who.id, "user-alice");
    assert_eq!(session.user_id, "user-alice");
    assert_eq!(session.id, "s1");
}

#[test]
fn a_session_is_valid_until_it_expires() {
    let mut service = service_with(&["alice"]);
    let session = service
        .create_session_with("user-alice".to_string(), "s1".to_string(), "t1".to_string(), at(1_000))
        .unwrap();
    assert_eq!(session.expires_at, at(1_000 + 86_400));
    assert_eq!(service.validate_session_at("t1", at(1_000)).unwrap().username, "alice");
    assert_eq!(
        service.validate_session_at("t1", Timestamp::new(1_000 + 86_399, 999_999_999)).unwrap().id,
        "user-alice"
    );
    assert_eq!(
        service.validate_session_at("t1", at(1_000 + 86_400)).err(),
        Some(AuthError::SessionExpired)
    );
    assert_eq!(
        service.validate_session_at("t1", at(1_000 + 86_401)).err(),
        Some(AuthError::SessionExpired)
    );
}

#[test]
fn nanoseconds_decide_between_equal_seconds() {
    let mut service = service_with(&["alice"]);
    service
        .create_session_with(
            "user-alice".to_string(),
            "s1".to_string(),
            "t1".to_string(),
            Timestamp::new(0, 500),
        )
        .unwrap();
    assert!(service.validate_session_at("t1", Timestamp::new(86_400, 499)).is_ok());
    assert_eq!(
        service.validate_session_at("t1", Timestamp::new(86_400, 500)).err(),
        Some(AuthError::SessionExpired)
    );
}

#[test]
fn an_unknown_token_is_session_expired() {
    let service = service_with(&["alice"]);
    assert_eq!(service.validate_session_at("nope", at(0)).err(), Some(AuthError::SessionExpired));
    assert_eq!(service.validate_session("nope").err(), Some(AuthError::SessionExpired));
}

#[test]
fn a_session_without_its_account_is_user_not_found() {
    let mut service = AuthService::new();
    service
        .create_session_with("ghost".to_string(), "s1".to_string(), "t1".to_string(), at(10))
        .unwrap();
    assert_eq!(service.validate_session_at("t1", at(11)).err(), Some(AuthError::UserNotFound));
}

#[test]
fn create_session_reads_the_clock_and_draws_two_ids() {
    let mut service = service_with(&["alice"]);
    let session = service.create_session("user-alice").unwrap();
    assert_eq!(session.user_id, "user-alice");
    assert_eq!(session.id.len(), 36);
    assert_eq!(session.token.len(), 36);
    assert_ne!(session.id, session.token);
    assert!(session.created_at.secs > 1_600_000_000);
    assert!(session.created_at.nanos < 1_000_000_000);
    assert_eq!(session.expires_at.secs - session.created_at.secs, 86_400);
    assert_eq!(service.validate_session(&session.token).unwrap().id, "user-alice");
}

#[test]
fn logout_ends_the_session_and_can_be_repeated() {
    let mut service = service_with(&["alice"]);
    service
        .create_session_with("user-alice".to_string(), "s1".to_string(), "t1".to_string(), at(10))
        .unwrap();
    service
        .create_session_with("user-alice".to_string(), "s2".to_string(), "t2".to_string(), at(11))
        .unwrap();
    assert_eq!(service.logout("t1"), Ok(()));
    assert_eq!(service.validate_session_at("t1", at(12)).err(), Some(AuthError::SessionExpired));
    assert!(service.validate_session_at("t2", at(12)).is_ok());
    assert_eq!(service.logout("t1"), Ok(()));
    assert_eq!(service.logout("never issued"), Ok(()));
    assert_eq!(service.sessions().len(), 1);
}

#[test]
fn the_sweep_drops_what_has_expired_and_nothing_else() {
    let mut service = service_with(&["alice"]);
    for (i, issued) in [0i64, 50, 100].iter().enumerate() {
        service
            .create_session_with(
                "user-alice".to_string(),
                format!("s{}", i),
                format!("t{}", i),
                at(*issued),
            )
            .unwrap();
    }
    assert_eq!(service.cleanup_expired_sessions_at(at(86_450)), Ok(()));
    let left: Vec<String> = service.sessions().into_iter().map(|s| s.token).collect();
    assert_eq!(left, vec!["t2".to_string()]);
    assert!(service.validate_session_at("t2", at(86_450)).is_ok());
    assert_eq!(service.cleanup_expired_sessions(), Ok(()));
    assert_eq!(service.sessions().len(), 0);
}

#[test]
fn accounts_are_listed_youngest_first() {
    let mut service = AuthService::new();
    for (name, created) in [("a", 30), ("b", 10), ("c", 20), ("d", 20)] {
        service
            .create_user_with(
                request(name, false),
                format!("id-{}", name),
                PASSWORD_HASH.to_string(),
                at(created),
            )
            .unwrap();
    }
    let names: Vec<String> =
        service.get_all_users().unwrap().into_iter().map(|u| u.username).collect();
    assert_eq!(names, vec!["a", "d", "c", "b"]);
}

#[test]
fn deleting_an_account_takes_its_sessions_along() {
    let mut service = service_with(&["alice", "bob"]);
    service
        .create_session_with("user-alice".to_string(), "s1".to_string(), "t1".to_string(), at(10))
        .unwrap();
    service
        .create_session_with("user-bob".to_string(), "s2".to_string(), "t2".to_string(), at(10))
        .unwrap();
    assert_eq!(service.delete_user("user-alice"), Ok(()));
    let names: Vec<String> =
        service.get_all_users().unwrap().into_iter().map(|u| u.username).collect();
    assert_eq!(names, vec!["bob"]);
    assert_eq!(service.validate_session_at("t1", at(11)).err(), Some(AuthError::SessionExpired));
    assert_eq!(service.validate_session_at("t2", at(11)).unwrap().username, "bob");
    assert_eq!(service.delete_user("user-alice"), Ok(()));
    assert_eq!(service.delete_user("nobody"), Ok(()));
}

#[test]
fn deleting_an_account_that_does_not_exist_changes_nothing() {
    let mut service = service_with(&["alice"]);
    service
        .create_session_with("ghost".to_string(), "s1".to_string(), "t1".to_string(), at(10))
        .unwrap();
    service
        .create_session_with("user-alice".to_string(), "s2".to_string(), "t2".to_string(), at(10))
        .unwrap();
    assert!(!service.has_user("ghost"));
    assert!(service.has_user("user-alice"));
    assert_eq!(service.delete_user("ghost"), Ok(()));
    assert_eq!(service.sessions().len(), 2);
    assert_eq!(service.get_all_users().unwrap().len(), 1);
    assert_eq!(service.validate_session_at("t1", at(11)).err(), Some(AuthError::UserNotFound));
    assert_eq!(service.validate_session_at("t2", at(11)).unwrap().username, "alice");
}

#[test]
fn a_session_on_an_empty_store_is_always_issued() {
    let mut service = AuthService::new();
    let session = service.create_session("anyone").unwrap();
    assert_eq!(session.expires_at.secs, session.created_at.secs + 86_400);
    assert!(session.created_at.secs >= 0);
    assert!(session.created_at.nanos < 1_000_000_000);
}

fn user_row(id: &str, name: &str, created: i64) -> User {
    User {
        id: id.to_string(),
        username: name.to_string(),
        password_hash: PASSWORD_HASH.to_string(),
        email: None,
        is_admin: false,
        created_at: at(created),
        updated_at: at(created),
    }
}

fn session_row(id: &str, token: &str) -> Session {
    Session {
        id: id.to_string(),
        user_id: "u1".to_string(),
        token: token.to_string(),
        expires_at: at(86_400),
        created_at: at(0),
    }
}

#[test]
fn from_rows_takes_rows_that_meet_the_invariant() {
    let service = AuthService::from_rows(
        vec![user_row("u1", "alice", 1), user_row("u2", "bob", 1), user_row("u3", "carol", 2)],
        vec![session_row("s1", "t1"), session_row("s2", "t2")],
    )
    .unwrap();
    assert_eq!(service.get_all_users().unwrap().len(), 3);
    assert_eq!(service.validate_session_at("t2", at(5)).unwrap().username, "alice");
}

#[test]
fn from_rows_refuses_rows_that_break_the_invariant() {
    assert!(AuthService::from_rows(
        vec![user_row("u1", "alice", 1), user_row("u1", "bob", 2)],
        vec![]
    )
    .is_none());
    assert!(AuthService::from_rows(
        vec![user_row("u1", "alice", 1), user_row("u2", "alice", 2)],
        vec![]
    )
    .is_none());
    assert!(AuthService::from_rows(
        vec![user_row("u1", "alice", 2), user_row("u2", "bob", 1)],
        vec![]
    )
    .is_none());
    assert!(AuthService::from_rows(vec![], vec![session_row("s1", "t1"), session_row("s1", "t2")])
        .is_none());
    assert!(AuthService::from_rows(vec![], vec![session_row("s1", "t1"), session_row("s2", "t1")])
        .is_none());
}

#[test]
fn the_shown_account_has_no_password_hash() {
    let shown = UserResponse::from(user_row("u1", "alice", 7));
    assert_eq!(shown.id, "u1");
    assert_eq!(shown.username, "alice");
    assert_eq!(shown.email, None);
    assert!(!shown.is_admin);
    assert_eq!(shown.created_at, at(7));
}

#[test]
fn every_error_has_its_message() {
    assert_eq!(AuthError::InvalidCredentials.message(), "Invalid username or password");
    assert_eq!(AuthError::UserNotFound.message(), "User not found");
    assert_eq!(AuthError::UsernameExists.message(), "Username already exists");
    assert_eq!(AuthError::SessionExpired.message(), "Session expired");
    assert_eq!(AuthError::Unauthorized.message(), "Unauthorized access");
    assert_eq!(AuthError::InternalError.message(), "Internal server error");
}
