//! Accounts, sessions and the shapes in which they cross the service boundary.

use vstd::prelude::*;
use vstd::string::StringExecFns;
use crate::time::Timestamp;

verus! {

/// A copy of an optional text.
pub fn clone_text(text: &Option<String>) -> (copy: Option<String>)
    ensures
        copy == *text,
{
    match text {
        Some(s) => Some(s.clone()),
        None => None,
    }
}

/// A registered account. The password is kept only as its salted hash.
#[derive(Debug)]
pub struct User {
    pub id: String,
    pub username: String,
    pub password_hash: String,
    pub email: Option<String>,
    pub is_admin: bool,
    pub created_at: Timestamp,
    pub updated_at: Timestamp,
}

impl Clone for User {
    fn clone(&self) -> (copy: User)
        ensures
            copy == *self,
    {
        User {
            id: self.id.clone(),
            username: self.username.clone(),
            password_hash: self.password_hash.clone(),
            email: clone_text(&self.email),
            is_admin: self.is_admin,
            created_at: self.created_at,
            updated_at: self.updated_at,
        }
    }
}

/// A bearer credential issued at login, valid until `expires_at`.
#[derive(Debug)]
pub struct Session {
    pub id: String,
    pub user_id: String,
    pub token: String,
    pub expires_at: Timestamp,
    pub created_at: Timestamp,
}

impl Clone for Session {
    fn clone(&self) -> (copy: Session)
        ensures
            copy == *self,
    {
        Session {
            id: self.id.clone(),
            user_id: self.user_id.clone(),
            token: self.token.clone(),
            expires_at: self.expires_at,
            created_at: self.created_at,
        }
    }
}

impl Session {
    /// A session is valid at `now` exactly while `now` is before its expiry.
    pub open spec fn valid_at(&self, now: Timestamp) -> bool {
        now.before(self.expires_at)
    }
}

#[derive(Debug)]
pub struct LoginRequest {
    pub username: String,
    pub password: String,
}

#[derive(Debug)]
pub struct CreateUserRequest {
    pub username: String,
    pub password: String,
    pub email: Option<String>,
    pub is_admin: bool,
}

/// An account as shown to clients: everything but the password hash.
#[derive(Debug)]
pub struct UserResponse {
    pub id: String,
    pub username: String,
    pub email: Option<String>,
    pub is_admin: bool,
    pub created_at: Timestamp,
}

#[derive(Debug)]
pub struct LoginResponse {
    pub user: UserResponse,
    pub token: String,
}

impl UserResponse {
    /// The public projection of an account.
    pub open spec fn of(user: User) -> UserResponse {
        UserResponse {
            id: user.id,
            username: user.username,
            email: user.email,
            is_admin: user.is_admin,
            created_at: user.created_at,
        }
    }
}

impl From<User> for UserResponse {
    fn from(user: User) -> (response: UserResponse) {
        UserResponse {
            id: user.id,
            username: user.username,
            email: user.email,
            is_admin: user.is_admin,
            created_at: user.created_at,
        }
    }
}

impl vstd::std_specs::convert::FromSpecImpl<User> for UserResponse {
    open spec fn obeys_from_spec() -> bool {
        true
    }

    open spec fn from_spec(user: User) -> UserResponse {
        UserResponse::of(user)
    }
}

/// Why an authentication request was turned down.
#[derive(Clone, Copy, Debug, PartialEq, Eq, Structural)]
pub enum AuthError {
    InvalidCredentials,
    UserNotFound,
    UsernameExists,
    SessionExpired,
    Unauthorized,
    InternalError,
}

impl AuthError {
    /// The sentence shown for each kind of failure.
    pub open spec fn message_text(self) -> Seq<char> {
        match self {
            AuthError::InvalidCredentials => "Invalid username or password"@,
            AuthError::UserNotFound => "User not found"@,
            AuthError::UsernameExists => "Username already exists"@,
            AuthError::SessionExpired => "Session expired"@,
            AuthError::Unauthorized => "Unauthorized access"@,
            AuthError::InternalError => "Internal server error"@,
        }
    }

    /// The sentence shown for this failure.
    pub fn message(&self) -> (text: String)
        ensures
            text@ == self.message_text(),
    {
        match self {
            AuthError::InvalidCredentials => String::from_str("Invalid username or password"),
            AuthError::UserNotFound => String::from_str("User not found"),
            AuthError::UsernameExists => String::from_str("Username already exists"),
            AuthError::SessionExpired => String::from_str("Session expired"),
            AuthError::Unauthorized => String::from_str("Unauthorized access"),
            AuthError::InternalError => String::from_str("Internal server error"),
        }
    }
}

} // verus!
