use game_library::auth::{AuthError, CreateUserRequest, User};
use game_library::auth_service::AuthService;
use game_library::handlers::{ApiError, StatusCode};
use game_library::middleware::{
    access_at, admin_middleware, admin_middleware_at, auth_middleware, auth_middleware_at,
    bearer_token, checkpoint, decide, strip_prefix, Access, Role,
};
use game_library::time::Timestamp;

const PASSWORD_HASH: &str = "$2a$04$UuTkLRZZ6QofpDOlMz32MuuxEHA43WOemOYHPz6.SjsVsyO1tDU96";

fn at(secs: i64) -> Timestamp {
    Timestamp::new(secs, 0)
}

/// An admin with the token "admin-token" and a user with the token
/// "user-token", both issued at second 1000.
fn service() -> AuthService {
    let mut service = AuthService::new();
    for (name, is_admin) in [("root", true), ("joe", false)] {
        service
            .create_user_with(
                CreateUserRequest {
                    username: name.to_string(),
                    password: "password".to_string(),
                    email: None,
                    is_admin,
                },
                format!("id-{}", name),
                PASSWORD_HASH.to_string(),
                at(1),
            )
            .unwrap();
    }
    service
        .create_session_with("id-root".into(), "s1".into(), "admin-token".into(), at(1_000))
        .unwrap();
    service
        .create_session_with("id-joe".into(), "s2".into(), "user-token".into(), at(1_000))
        .unwrap();
    service
}

fn name_of(access: Access) -> String {
    match access {
        Access::Denied => "denied".to_string(),
        Access::Unauthorized(error) => format!("unauthorized {:?}", error),
        Access::Forbidden => "forbidden".to_string(),
        Access::Authorized(user) => format!("authorized {}", user.username),
    }
}

#[test]
fn strip_prefix_cuts_the_prefix_off() {
    assert_eq!(strip_prefix("Bearer abc", "Bearer "), Some("abc"));
    assert_eq!(strip_prefix("Bearer ", "Bearer "), Some(""));
    assert_eq!(strip_prefix("abc", ""), Some("abc"));
    assert_eq!(strip_prefix("", ""), Some(""));
    assert_eq!(strip_prefix("\u{e9}t\u{e9}", "\u{e9}"), Some("t\u{e9}"));
}

#[test]
fn strip_prefix_answers_nothing_without_the_prefix() {
    assert_eq!(strip_prefix("bearer abc", "Bearer "), None);
    assert_eq!(strip_prefix("Bearer", "Bearer "), None);
    assert_eq!(strip_prefix("", "Bearer "), None);
    assert_eq!(strip_prefix("xBearer abc", "Bearer "), None);
}

#[test]
fn the_bearer_token_is_what_follows_the_scheme() {
    assert_eq!(bearer_token(Some("Bearer abc-123")), Some("abc-123"));
    assert_eq!(bearer_token(Some("Bearer  two spaces")), Some(" two spaces"));
    assert_eq!(bearer_token(Some("Basic abc")), None);
    assert_eq!(bearer_token(Some("abc")), None);
    assert_eq!(bearer_token(None), None);
}

#[test]
fn without_a_token_access_is_denied() {
    let service = service();
    assert_eq!(name_of(access_at(&service, None, Role::User, at(1_001))), "denied");
    assert_eq!(name_of(access_at(&service, None, Role::Admin, at(1_001))), "denied");
    assert_eq!(name_of(access_at(&service, Some("admin-token"), Role::User, at(1_001))), "denied");
    assert_eq!(auth_middleware_at(&service, None, at(1_001)).err(), Some(ApiError::Unauthenticated));
    assert_eq!(admin_middleware_at(&service, None, at(1_001)).err(), Some(ApiError::Unauthenticated));
    assert_eq!(ApiError::Unauthenticated.status(), StatusCode::Unauthorized);
}

#[test]
fn an_unknown_or_expired_token_is_unauthorized() {
    let service = service();
    assert_eq!(
        name_of(access_at(&service, Some("Bearer nope"), Role::User, at(1_001))),
        "unauthorized SessionExpired"
    );
    assert_eq!(
        name_of(access_at(&service, Some("Bearer user-token"), Role::User, at(1_000 + 86_400))),
        "unauthorized SessionExpired"
    );
    assert_eq!(
        service.validate_session_at("user-token", at(1_000 + 86_400)).err(),
        Some(AuthError::SessionExpired)
    );
    assert_eq!(
        admin_middleware_at(&service, Some("Bearer admin-token"), at(1_000 + 86_400)).err(),
        Some(ApiError::SessionExpired)
    );
    assert_eq!(ApiError::SessionExpired.status(), StatusCode::Unauthorized);
}

#[test]
fn a_user_is_forbidden_on_admin_routes() {
    let service = service();
    assert_eq!(
        name_of(access_at(&service, Some("Bearer user-token"), Role::Admin, at(1_001))),
        "forbidden"
    );
    assert_eq!(
        admin_middleware_at(&service, Some("Bearer user-token"), at(1_001)).err(),
        Some(ApiError::Forbidden)
    );
    assert_eq!(ApiError::Forbidden.status(), StatusCode::Forbidden);
    assert_eq!(
        auth_middleware_at(&service, Some("Bearer user-token"), at(1_001)).unwrap().username,
        "joe"
    );
}

#[test]
fn an_admin_passes_both_checkpoints() {
    let service = service();
    assert_eq!(
        name_of(access_at(&service, Some("Bearer admin-token"), Role::Admin, at(1_001))),
        "authorized root"
    );
    assert_eq!(
        admin_middleware_at(&service, Some("Bearer admin-token"), at(1_001)).unwrap().id,
        "id-root"
    );
    assert_eq!(
        auth_middleware_at(&service, Some("Bearer admin-token"), at(1_001)).unwrap().id,
        "id-root"
    );
}

#[test]
fn the_checkpoints_read_the_clock() {
    let mut service = service();
    assert_eq!(
        auth_middleware(&service, Some("Bearer user-token")).err(),
        Some(ApiError::SessionExpired)
    );
    assert_eq!(auth_middleware(&service, None).err(), Some(ApiError::Unauthenticated));
    assert_eq!(admin_middleware(&service, Some("Basic x")).err(), Some(ApiError::Unauthenticated));
    let fresh = service.create_session("id-joe").unwrap();
    let header = format!("Bearer {}", fresh.token);
    assert_eq!(auth_middleware(&service, Some(&header)).unwrap().username, "joe");
    assert_eq!(admin_middleware(&service, Some(&header)).err(), Some(ApiError::Forbidden));
    let fresh = service.create_session("id-root").unwrap();
    let header = format!("Bearer {}", fresh.token);
    assert_eq!(admin_middleware(&service, Some(&header)).unwrap().username, "root");
}

fn someone(is_admin: bool) -> User {
    User {
        id: "u".to_string(),
        username: "someone".to_string(),
        password_hash: String::new(),
        email: None,
        is_admin,
        created_at: at(0),
        updated_at: at(0),
    }
}

#[test]
fn decide_covers_every_case() {
    assert_eq!(name_of(decide(false, Ok(someone(true)), Role::User)), "denied");
    assert_eq!(
        name_of(decide(true, Err(AuthError::SessionExpired), Role::User)),
        "unauthorized SessionExpired"
    );
    assert_eq!(
        name_of(decide(true, Err(AuthError::UserNotFound), Role::Admin)),
        "unauthorized UserNotFound"
    );
    assert_eq!(
        name_of(decide(true, Err(AuthError::InternalError), Role::Admin)),
        "unauthorized InternalError"
    );
    assert_eq!(name_of(decide(true, Ok(someone(false)), Role::Admin)), "forbidden");
    assert_eq!(name_of(decide(true, Ok(someone(false)), Role::User)), "authorized someone");
    assert_eq!(name_of(decide(true, Ok(someone(true)), Role::Admin)), "authorized someone");
    assert_eq!(name_of(decide(true, Ok(someone(true)), Role::User)), "authorized someone");
}

#[test]
fn a_session_without_its_account_does_not_pass() {
    let mut service = AuthService::new();
    service.create_session_with("ghost".into(), "s1".into(), "t1".into(), at(10)).unwrap();
    assert_eq!(
        auth_middleware_at(&service, Some("Bearer t1"), at(11)).err(),
        Some(ApiError::UserNotFound)
    );
    assert_eq!(ApiError::UserNotFound.status(), StatusCode::Unauthorized);
}

#[test]
fn checkpoint_turns_every_refusal_into_its_failure() {
    assert_eq!(checkpoint(Access::Denied).err(), Some(ApiError::Unauthenticated));
    assert_eq!(
        checkpoint(Access::Unauthorized(AuthError::SessionExpired)).err(),
        Some(ApiError::SessionExpired)
    );
    assert_eq!(checkpoint(Access::Forbidden).err(), Some(ApiError::Forbidden));
    assert_eq!(checkpoint(Access::Authorized(someone(false))).unwrap().username, "someone");
}
