//! The request handlers for logging in and for the administration of accounts.

use vstd::prelude::*;
use crate::auth::{
    AuthError, CreateUserRequest, LoginRequest, LoginResponse, Session, User, UserResponse,
};
use crate::auth_service::AuthState;
use crate::handlers::{ApiError, ApiResponse, AppStateInner, StatusCode};
use crate::ids::ID_LENGTH;
use crate::table::newest_first;
use crate::time::Timestamp;

verus! {

/// The answer to a login: the account as it is shown and the token of the
/// new session, or the failure.
pub open spec fn login_answer(outcome: Result<(User, Session), AuthError>) -> Result<
    ApiResponse<LoginResponse>,
    ApiError,
> {
    match outcome {
        Ok((user, session)) => Ok(
            ApiResponse::success_of(
                LoginResponse { user: UserResponse::of(user), token: session.token },
            ),
        ),
        Err(error) => Err(ApiError::of(error)),
    }
}

/// `after` is what the creation of the account `user` leaves of `before`.
pub open spec fn registered(
    before: AuthState,
    request: CreateUserRequest,
    user: User,
    after: AuthState,
) -> bool {
    &&& before.create_user_outcome(request, user.id, user.password_hash, user.created_at) == Ok::<
        User,
        AuthError,
    >(user)
    &&& after == before.after_create_user(request, user.id, user.password_hash, user.created_at)
}

/// The accounts of a listing as they are shown.
pub open spec fn shown_users(users: Seq<User>) -> Seq<UserResponse> {
    users.map_values(|user: User| UserResponse::of(user))
}

/// Logs a user in and answers with the account and the session's token.
/// The session gets a drawn id and token and is issued at the clock's time;
/// a login with the right password fails only where one of the two is taken.
pub fn login(state: &mut AppStateInner, request: LoginRequest) -> (r: Result<
    ApiResponse<LoginResponse>,
    ApiError,
>)
    requires
        old(state).wf(),
    ensures
        final(state).wf(),
        final(state).db@ == old(state).db@,
        exists|session_id: String, token: String, now: Timestamp|
            session_id@.len() == ID_LENGTH && token@.len() == ID_LENGTH && now.on_the_clock() && r
                == login_answer(
                old(state).auth_service@.login_outcome(request, session_id, token, now),
            ) && final(state).auth_service@ == #[trigger] old(state).auth_service@.after_login(
                request,
                session_id,
                token,
                now,
            ),
        r matches Err(failure) ==> final(state).auth_service@ == old(state).auth_service@ && failure
            == if old(state).auth_service@.rejects_login(request) {
            ApiError::InvalidCredentials
        } else {
            ApiError::InternalError
        },
{
    match state.auth_service.login(request) {
        Ok((user, session)) => {
            let answer = LoginResponse { user: UserResponse::from(user), token: session.token };
            Ok(ApiResponse::success(answer))
        },
        Err(error) => Err(ApiError::from(error)),
    }
}

/// Logs the caller out: ends the session that carries the token of the
/// request. Other sessions of the account stay.
pub fn logout(state: &mut AppStateInner, user: &User, token: &str) -> (r: Result<
    StatusCode,
    ApiError,
>)
    requires
        old(state).wf(),
    ensures
        final(state).wf(),
        r == Ok::<StatusCode, ApiError>(StatusCode::Okay),
        final(state).auth_service@ == old(state).auth_service@.after_logout(token@),
        final(state).db@ == old(state).db@,
{
    match state.auth_service.logout(token) {
        Ok(_) => Ok(StatusCode::Okay),
        Err(error) => Err(ApiError::from(error)),
    }
}

/// The account of the caller, as it is shown.
pub fn me(user: User) -> (response: ApiResponse<UserResponse>)
    ensures
        response == ApiResponse::success_of(UserResponse::of(user)),
{
    ApiResponse::success(UserResponse::from(user))
}

/// Creates an account.
pub fn create_user(state: &mut AppStateInner, request: CreateUserRequest) -> (r: Result<
    ApiResponse<UserResponse>,
    ApiError,
>)
    requires
        old(state).wf(),
    ensures
        final(state).wf(),
        final(state).db@ == old(state).db@,
        old(state).auth_service@.has_username(request.username@) ==> r is Err,
        match r {
            Ok(response) => {
                &&& response.data matches Some(answer)
                &&& response.success
                &&& response.error is None
                &&& exists|user: User| #[trigger]
                    registered(old(state).auth_service@, request, user, final(state).auth_service@)
                        && answer == UserResponse::of(user)
            },
            Err(failure) => final(state).auth_service@ == old(state).auth_service@ && failure
                == if old(state).auth_service@.has_username(request.username@) {
                ApiError::UsernameExists
            } else {
                ApiError::InternalError
            },
        },
{
    match state.auth_service.create_user(request) {
        Ok(user) => {
            proof {
                assert(registered(old(state).auth_service@, request, user, state.auth_service@));
            }
            Ok(ApiResponse::success(UserResponse::from(user)))
        },
        Err(error) => Err(ApiError::from(error)),
    }
}

/// Every account, the youngest first, as it is shown.
pub fn list_users(state: &AppStateInner) -> (r: Result<ApiResponse<Vec<UserResponse>>, ApiError>)
    requires
        state.wf(),
    ensures
        ({
            &&& r matches Ok(response)
            &&& response.data matches Some(users)
            &&& response.success
            &&& response.error is None
            &&& users@ == shown_users(newest_first(state.auth_service@.users))
        }),
{
    match state.auth_service.get_all_users() {
        Ok(users) => {
            let mut shown: Vec<UserResponse> = Vec::new();
            let mut i: usize = 0;
            while i < users.len()
                invariant
                    i <= users.len(),
                    shown.len() == i,
                    forall|j: int| 0 <= j < i ==> #[trigger] shown@[j] == UserResponse::of(users@[j]),
                decreases users.len() - i,
            {
                shown.push(UserResponse::from(users[i].clone()));
                i = i + 1;
            }
            assert(shown@ =~= shown_users(users@));
            Ok(ApiResponse::success(shown))
        },
        Err(error) => Err(ApiError::from(error)),
    }
}

/// Deletes an account together with its sessions and its library. Where
/// there is no such account, nothing changes.
pub fn delete_user(state: &mut AppStateInner, user_id: &str) -> (r: Result<StatusCode, ApiError>)
    requires
        old(state).wf(),
    ensures
        final(state).wf(),
        r == Ok::<StatusCode, ApiError>(StatusCode::NoContent),
        final(state).auth_service@ == old(state).auth_service@.after_delete_user(user_id@),
        final(state).db@ == if old(state).auth_service@.has_user_id(user_id@) {
            old(state).db@.after_forget_user(user_id@)
        } else {
            old(state).db@
        },
{
    let known = state.auth_service.has_user(user_id);
    match state.auth_service.delete_user(user_id) {
        Ok(_) => {
            if known {
                state.db.forget_user(user_id);
            }
            Ok(StatusCode::NoContent)
        },
        Err(error) => Err(ApiError::from(error)),
    }
}

} // verus!
