//! Access control: what a presented bearer token is allowed to do.

use vstd::prelude::*;
use vstd::string::StrSliceExecFns;
use crate::auth::{AuthError, User};
use crate::auth_service::{AuthService, AuthState};
use crate::handlers::ApiError;
use crate::text::characters;
use crate::time::{clock_now, Timestamp};

verus! {

/// What a route asks of its caller.
#[derive(Clone, Copy, Debug, PartialEq, Eq, Structural)]
pub enum Role {
    /// Any account with a valid session.
    User,
    /// An account with a valid session and the admin flag.
    Admin,
}

/// The decision on a request.
#[derive(Debug)]
pub enum Access {
    /// No bearer token was presented.
    Denied,
    /// The token names no valid session: validating it failed in this way.
    Unauthorized(AuthError),
    /// The session is valid, the account lacks the role.
    Forbidden,
    /// The account behind the token, which has the role.
    Authorized(User),
}

/// The token in an `Authorization` header: what follows `Bearer `.
pub open spec fn bearer_of(header: Option<Seq<char>>) -> Option<Seq<char>> {
    match header {
        Some(text) => if "Bearer "@.is_prefix_of(text) {
            Some(text.subrange("Bearer "@.len() as int, text.len() as int))
        } else {
            None
        },
        None => None,
    }
}

/// The characters of an optional text.
pub open spec fn header_text(header: Option<&str>) -> Option<Seq<char>> {
    match header {
        Some(text) => Some(text@),
        None => None,
    }
}

/// The decision for a header, a required role and a time.
pub open spec fn access_of(
    state: AuthState,
    header: Option<Seq<char>>,
    required: Role,
    now: Timestamp,
) -> Access {
    match bearer_of(header) {
        None => Access::Denied,
        Some(token) => match state.validate_outcome(token, now) {
            Err(error) => Access::Unauthorized(error),
            Ok(user) => if required == Role::Admin && !user.is_admin {
                Access::Forbidden
            } else {
                Access::Authorized(user)
            },
        },
    }
}

/// The failure with which a checkpoint turns a request down, or the account
/// that it lets through.
pub open spec fn checkpoint_of(access: Access) -> Result<User, ApiError> {
    match access {
        Access::Denied => Err(ApiError::Unauthenticated),
        Access::Unauthorized(error) => Err(ApiError::of(error)),
        Access::Forbidden => Err(ApiError::Forbidden),
        Access::Authorized(user) => Ok(user),
    }
}

/// The rest of `text` behind `prefix`, where `text` begins with it.
pub fn strip_prefix<'a>(text: &'a str, prefix: &str) -> (rest: Option<&'a str>)
    ensures
        match rest {
            Some(tail) => prefix@.is_prefix_of(text@) && tail@ == text@.subrange(
                prefix@.len() as int,
                text@.len() as int,
            ),
            None => !prefix@.is_prefix_of(text@),
        },
{
    let have = characters(text);
    let want = characters(prefix);
    if want.len() > have.len() {
        return None;
    }
    let mut k: usize = 0;
    while k < want.len()
        invariant
            k <= want.len() <= have.len(),
            have@ == text@,
            want@ == prefix@,
            forall|j: int| 0 <= j < k ==> have@[j] == want@[j],
        decreases want.len() - k,
    {
        if have[k] != want[k] {
            assert(text@.subrange(0, prefix@.len() as int)[k as int] != prefix@[k as int]);
            return None;
        }
        k = k + 1;
    }
    assert(prefix@ =~= text@.subrange(0, prefix@.len() as int));
    Some(text.substring_char(want.len(), have.len()))
}

/// The bearer token in an `Authorization` header.
pub fn bearer_token<'a>(header: Option<&'a str>) -> (token: Option<&'a str>)
    ensures
        header_text(token) == bearer_of(header_text(header)),
{
    match header {
        Some(text) => strip_prefix(text, "Bearer "),
        None => None,
    }
}

/// Decides on a request, given the account that its token resolved to.
pub fn decide(token_present: bool, resolved: Result<User, AuthError>, required: Role) -> (access:
    Access)
    ensures
        access == if !token_present {
            Access::Denied
        } else {
            match resolved {
                Err(error) => Access::Unauthorized(error),
                Ok(user) => if required == Role::Admin && !user.is_admin {
                    Access::Forbidden
                } else {
                    Access::Authorized(user)
                },
            }
        },
{
    if !token_present {
        return Access::Denied;
    }
    match resolved {
        Err(error) => Access::Unauthorized(error),
        Ok(user) => {
            if required == Role::Admin && !user.is_admin {
                Access::Forbidden
            } else {
                Access::Authorized(user)
            }
        },
    }
}

/// Decides on a request: resolves the header's token as of `now` and checks the role.
pub fn access_at(auth: &AuthService, header: Option<&str>, required: Role, now: Timestamp) -> (access:
    Access)
    requires
        auth.wf(),
    ensures
        access == access_of(auth@, header_text(header), required, now),
{
    match bearer_token(header) {
        None => Access::Denied,
        Some(token) => decide(true, auth.validate_session_at(token, now), required),
    }
}

/// Lets the account of a decision through, or turns the request down.
pub fn checkpoint(access: Access) -> (r: Result<User, ApiError>)
    ensures
        r == checkpoint_of(access),
{
    match access {
        Access::Denied => Err(ApiError::Unauthenticated),
        Access::Unauthorized(error) => Err(ApiError::from(error)),
        Access::Forbidden => Err(ApiError::Forbidden),
        Access::Authorized(user) => Ok(user),
    }
}

/// The checkpoint in front of the routes of every logged-in user, as of `now`.
pub fn auth_middleware_at(auth: &AuthService, header: Option<&str>, now: Timestamp) -> (r: Result<
    User,
    ApiError,
>)
    requires
        auth.wf(),
    ensures
        r == checkpoint_of(access_of(auth@, header_text(header), Role::User, now)),
{
    checkpoint(access_at(auth, header, Role::User, now))
}

/// The checkpoint in front of the admin routes, as of `now`: that of the
/// user routes, and the admin flag on top.
pub fn admin_middleware_at(auth: &AuthService, header: Option<&str>, now: Timestamp) -> (r: Result<
    User,
    ApiError,
>)
    requires
        auth.wf(),
    ensures
        r == checkpoint_of(access_of(auth@, header_text(header), Role::Admin, now)),
{
    checkpoint(access_at(auth, header, Role::Admin, now))
}

/// The checkpoint in front of the routes of every logged-in user, at the clock's time.
pub fn auth_middleware(auth: &AuthService, header: Option<&str>) -> (r: Result<User, ApiError>)
    requires
        auth.wf(),
    ensures
        exists|now: Timestamp|
            now.on_the_clock() && r == checkpoint_of(#[trigger] access_of(auth@, header_text(header), Role::User, now)),
        bearer_of(header_text(header)) is None ==> r == Err::<User, ApiError>(
            ApiError::Unauthenticated,
        ),
{
    let now = clock_now();
    auth_middleware_at(auth, header, now)
}

/// The checkpoint in front of the admin routes, at the clock's time.
pub fn admin_middleware(auth: &AuthService, header: Option<&str>) -> (r: Result<User, ApiError>)
    requires
        auth.wf(),
    ensures
        exists|now: Timestamp|
            now.on_the_clock() && r == checkpoint_of(#[trigger] access_of(auth@, header_text(header), Role::Admin, now)),
        bearer_of(header_text(header)) is None ==> r == Err::<User, ApiError>(
            ApiError::Unauthenticated,
        ),
{
    let now = clock_now();
    admin_middleware_at(auth, header, now)
}

/// Roles: without a token a request is denied as unauthenticated; a token
/// without a valid session is turned down as `SessionExpired`; a valid
/// session without the admin flag is forbidden on admin routes and
/// authorized on user routes; whatever passes the admin checkpoint passes
/// the user checkpoint.
pub proof fn lemma_roles_are_enforced(state: AuthState, header: Option<Seq<char>>, now: Timestamp)
    requires
        state.wf(),
    ensures
        bearer_of(header) is None ==> access_of(state, header, Role::User, now) == Access::Denied
            && access_of(state, header, Role::Admin, now) == Access::Denied && checkpoint_of(
            Access::Denied,
        ) == Err::<User, ApiError>(ApiError::Unauthenticated),
        bearer_of(header) matches Some(token) ==> {
            &&& (!state.has_token(token) || !state.session_with_token(token).valid_at(now))
                ==> access_of(state, header, Role::User, now) == Access::Unauthorized(
                AuthError::SessionExpired,
            ) && access_of(state, header, Role::Admin, now) == Access::Unauthorized(
                AuthError::SessionExpired,
            ) && checkpoint_of(Access::Unauthorized(AuthError::SessionExpired)) == Err::<
                User,
                ApiError,
            >(ApiError::SessionExpired)
            &&& state.validate_outcome(token, now) matches Ok(user) ==> access_of(
                state,
                header,
                Role::User,
                now,
            ) == Access::Authorized(user) && access_of(state, header, Role::Admin, now) == if user.is_admin {
                Access::Authorized(user)
            } else {
                Access::Forbidden
            }
        },
        access_of(state, header, Role::Admin, now) is Authorized ==> access_of(
            state,
            header,
            Role::User,
            now,
        ) == access_of(state, header, Role::Admin, now),
        checkpoint_of(Access::Forbidden) == Err::<User, ApiError>(ApiError::Forbidden),
        ApiError::Forbidden.status_of() == crate::handlers::StatusCode::Forbidden,
        ApiError::Unauthenticated.status_of() == crate::handlers::StatusCode::Unauthorized,
        ApiError::SessionExpired.status_of() == crate::handlers::StatusCode::Unauthorized,
{
}

} // verus!
