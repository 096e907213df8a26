//! The credential store, the session store and the operations on them:
//! account creation, login, session validation, logout and the expiry sweep.

use vstd::prelude::*;
use crate::auth::{AuthError, CreateUserRequest, LoginRequest, Session, User};
use crate::ids::{fresh_id, ID_LENGTH};
use crate::password::{bcrypt_verdict, check_password, hash_password};
use crate::table::{
    all_distinct, distinct_texts, find_insertion_index, insertion_index, is_oldest_first,
    lemma_filter_keeps_order, lemma_filter_places, lemma_insert_keeps_order, list_newest_first,
    newest_first, oldest_first, Row,
};
use crate::time::{clock_now, Timestamp, SESSION_SECONDS};

verus! {

impl Row for User {
    open spec fn created(&self) -> Timestamp {
        self.created_at
    }

    fn created_at(&self) -> (t: Timestamp) {
        self.created_at
    }

    fn copy(&self) -> (row: User) {
        self.clone()
    }
}

/// The sessions that do not carry `token`.
pub open spec fn without_token(token: Seq<char>) -> spec_fn(Session) -> bool {
    |s: Session| s.token@ != token
}

/// The sessions that are valid at `now`.
pub open spec fn still_valid(now: Timestamp) -> spec_fn(Session) -> bool {
    |s: Session| s.valid_at(now)
}

/// The sessions that do not belong to the account `id`.
pub open spec fn not_owned_by(id: Seq<char>) -> spec_fn(Session) -> bool {
    |s: Session| s.user_id@ != id
}

/// The accounts other than `id`.
pub open spec fn other_than(id: Seq<char>) -> spec_fn(User) -> bool {
    |u: User| u.id@ != id
}

/// The accounts and the sessions, as the contracts see them.
pub struct AuthState {
    pub users: Seq<User>,
    pub sessions: Seq<Session>,
}

impl AuthState {
    /// No two accounts share an id.
    pub open spec fn distinct_user_ids(self) -> bool {
        forall|i: int, j: int|
            0 <= i < j < self.users.len() ==> (#[trigger] self.users[i]).id@ != (
            #[trigger] self.users[j]).id@
    }

    /// No two accounts share a username.
    pub open spec fn distinct_usernames(self) -> bool {
        forall|i: int, j: int|
            0 <= i < j < self.users.len() ==> (#[trigger] self.users[i]).username@ != (
            #[trigger] self.users[j]).username@
    }

    /// No two sessions share an id.
    pub open spec fn distinct_session_ids(self) -> bool {
        forall|i: int, j: int|
            0 <= i < j < self.sessions.len() ==> (#[trigger] self.sessions[i]).id@ != (
            #[trigger] self.sessions[j]).id@
    }

    /// No two sessions share a token.
    pub open spec fn distinct_tokens(self) -> bool {
        forall|i: int, j: int|
            0 <= i < j < self.sessions.len() ==> (#[trigger] self.sessions[i]).token@ != (
            #[trigger] self.sessions[j]).token@
    }

    /// The invariant of the two stores.
    pub open spec fn wf(self) -> bool {
        &&& self.distinct_user_ids()
        &&& self.distinct_usernames()
        &&& oldest_first(self.users)
        &&& self.distinct_session_ids()
        &&& self.distinct_tokens()
    }

    pub open spec fn has_username(self, name: Seq<char>) -> bool {
        exists|i: int| 0 <= i < self.users.len() && (#[trigger] self.users[i]).username@ == name
    }

    /// The account with the username `name`, where there is one.
    pub open spec fn user_named(self, name: Seq<char>) -> User {
        self.users[choose|i: int|
            0 <= i < self.users.len() && (#[trigger] self.users[i]).username@ == name]
    }

    pub open spec fn has_user_id(self, id: Seq<char>) -> bool {
        exists|i: int| 0 <= i < self.users.len() && (#[trigger] self.users[i]).id@ == id
    }

    /// The account with the id `id`, where there is one.
    pub open spec fn user_with_id(self, id: Seq<char>) -> User {
        self.users[choose|i: int| 0 <= i < self.users.len() && (#[trigger] self.users[i]).id@ == id]
    }

    pub open spec fn has_session_id(self, id: Seq<char>) -> bool {
        exists|i: int| 0 <= i < self.sessions.len() && (#[trigger] self.sessions[i]).id@ == id
    }

    pub open spec fn has_token(self, token: Seq<char>) -> bool {
        exists|i: int| 0 <= i < self.sessions.len() && (#[trigger] self.sessions[i]).token@ == token
    }

    /// The session with the token `token`, where there is one.
    pub open spec fn session_with_token(self, token: Seq<char>) -> Session {
        self.sessions[choose|i: int|
            0 <= i < self.sessions.len() && (#[trigger] self.sessions[i]).token@ == token]
    }

    /// The account that a creation request describes.
    pub open spec fn new_user(
        request: CreateUserRequest,
        user_id: String,
        password_hash: String,
        now: Timestamp,
    ) -> User {
        User {
            id: user_id,
            username: request.username,
            password_hash,
            email: request.email,
            is_admin: request.is_admin,
            created_at: now,
            updated_at: now,
        }
    }

    /// What creating an account answers: the username must be free, and so
    /// must the id.
    pub open spec fn create_user_outcome(
        self,
        request: CreateUserRequest,
        user_id: String,
        password_hash: String,
        now: Timestamp,
    ) -> Result<User, AuthError> {
        if self.has_username(request.username@) {
            Err(AuthError::UsernameExists)
        } else if self.has_user_id(user_id@) {
            Err(AuthError::InternalError)
        } else {
            Ok(Self::new_user(request, user_id, password_hash, now))
        }
    }

    /// The stores after an attempt to create an account.
    pub open spec fn after_create_user(
        self,
        request: CreateUserRequest,
        user_id: String,
        password_hash: String,
        now: Timestamp,
    ) -> AuthState {
        match self.create_user_outcome(request, user_id, password_hash, now) {
            Ok(user) => AuthState {
                users: self.users.insert(insertion_index(self.users, now), user),
                sessions: self.sessions,
            },
            Err(_) => self,
        }
    }

    /// The session that is issued to `user_id` at `now`: it expires
    /// twenty-four hours later.
    pub open spec fn new_session(
        user_id: String,
        session_id: String,
        token: String,
        now: Timestamp,
    ) -> Session {
        Session {
            id: session_id,
            user_id,
            token,
            expires_at: now.plus_seconds(SESSION_SECONDS as int),
            created_at: now,
        }
    }

    /// What issuing a session answers: its id and its token must be new.
    pub open spec fn create_session_outcome(
        self,
        user_id: String,
        session_id: String,
        token: String,
        now: Timestamp,
    ) -> Result<Session, AuthError> {
        if self.has_session_id(session_id@) || self.has_token(token@) {
            Err(AuthError::InternalError)
        } else {
            Ok(Self::new_session(user_id, session_id, token, now))
        }
    }

    /// The stores after an attempt to issue a session.
    pub open spec fn after_create_session(
        self,
        user_id: String,
        session_id: String,
        token: String,
        now: Timestamp,
    ) -> AuthState {
        match self.create_session_outcome(user_id, session_id, token, now) {
            Ok(session) => AuthState { users: self.users, sessions: self.sessions.push(session) },
            Err(_) => self,
        }
    }

    /// What validating a token at `now` answers: the owner of the session
    /// with that token, if the session has not expired and its owner exists.
    pub open spec fn validate_outcome(self, token: Seq<char>, now: Timestamp) -> Result<
        User,
        AuthError,
    > {
        if !self.has_token(token) || !self.session_with_token(token).valid_at(now) {
            Err(AuthError::SessionExpired)
        } else if !self.has_user_id(self.session_with_token(token).user_id@) {
            Err(AuthError::UserNotFound)
        } else {
            Ok(self.user_with_id(self.session_with_token(token).user_id@))
        }
    }

    /// The stores without the sessions that carry `token`.
    pub open spec fn after_logout(self, token: Seq<char>) -> AuthState {
        AuthState {
            users: self.users,
            sessions: self.sessions.filter(without_token(token)),
        }
    }

    /// The stores without the sessions that have expired by `now`.
    pub open spec fn after_sweep(self, now: Timestamp) -> AuthState {
        AuthState {
            users: self.users,
            sessions: self.sessions.filter(still_valid(now)),
        }
    }

    /// The stores after the account `id` has been deleted: without the
    /// account and without its sessions. Where there is no such account,
    /// nothing changes.
    pub open spec fn after_delete_user(self, id: Seq<char>) -> AuthState {
        if self.has_user_id(id) {
            AuthState {
                users: self.users.filter(other_than(id)),
                sessions: self.sessions.filter(not_owned_by(id)),
            }
        } else {
            self
        }
    }

    /// What completing a login answers, once the account is found and the
    /// password has been checked against its hash.
    pub open spec fn complete_login_outcome(
        self,
        user: User,
        verdict: Option<bool>,
        session_id: String,
        token: String,
        now: Timestamp,
    ) -> Result<(User, Session), AuthError> {
        match verdict {
            None => Err(AuthError::InternalError),
            Some(false) => Err(AuthError::InvalidCredentials),
            Some(true) => match self.create_session_outcome(user.id, session_id, token, now) {
                Ok(session) => Ok((user, session)),
                Err(e) => Err(e),
            },
        }
    }

    /// The stores after a login has been completed.
    pub open spec fn after_complete_login(
        self,
        user: User,
        verdict: Option<bool>,
        session_id: String,
        token: String,
        now: Timestamp,
    ) -> AuthState {
        if verdict == Some(true) {
            self.after_create_session(user.id, session_id, token, now)
        } else {
            self
        }
    }

    /// A login is turned down for its credentials where the username is
    /// unknown or the password does not match the stored hash.
    pub open spec fn rejects_login(self, request: LoginRequest) -> bool {
        !self.has_username(request.username@) || bcrypt_verdict(
            request.password@,
            self.user_named(request.username@).password_hash@,
        ) == Some(false)
    }

    /// What a login answers: an unknown username and a wrong password are
    /// turned down alike.
    pub open spec fn login_outcome(
        self,
        request: LoginRequest,
        session_id: String,
        token: String,
        now: Timestamp,
    ) -> Result<(User, Session), AuthError> {
        if !self.has_username(request.username@) {
            Err(AuthError::InvalidCredentials)
        } else {
            let user = self.user_named(request.username@);
            self.complete_login_outcome(
                user,
                bcrypt_verdict(request.password@, user.password_hash@),
                session_id,
                token,
                now,
            )
        }
    }

    /// The stores after a login attempt.
    pub open spec fn after_login(
        self,
        request: LoginRequest,
        session_id: String,
        token: String,
        now: Timestamp,
    ) -> AuthState {
        if !self.has_username(request.username@) {
            self
        } else {
            let user = self.user_named(request.username@);
            self.after_complete_login(
                user,
                bcrypt_verdict(request.password@, user.password_hash@),
                session_id,
                token,
                now,
            )
        }
    }
}

/// Under the invariant, a key names the one row that carries it.
pub proof fn lemma_lookup_is_exact(state: AuthState, i: int)
    requires
        state.wf(),
    ensures
        0 <= i < state.users.len() ==> state.has_username(state.users[i].username@)
            && state.user_named(state.users[i].username@) == state.users[i],
        0 <= i < state.users.len() ==> state.has_user_id(state.users[i].id@) && state.user_with_id(
            state.users[i].id@,
        ) == state.users[i],
        0 <= i < state.sessions.len() ==> state.has_token(state.sessions[i].token@)
            && state.session_with_token(state.sessions[i].token@) == state.sessions[i],
        0 <= i < state.sessions.len() ==> state.has_session_id(state.sessions[i].id@),
{
    if 0 <= i < state.users.len() {
        let name = state.users[i].username@;
        let c = choose|c: int|
            0 <= c < state.users.len() && (#[trigger] state.users[c]).username@ == name;
        assert(c == i) by {
            if c < i {
                assert(state.users[c].username@ != state.users[i].username@);
            } else if i < c {
                assert(state.users[i].username@ != state.users[c].username@);
            }
        }
        let id = state.users[i].id@;
        let d = choose|d: int| 0 <= d < state.users.len() && (#[trigger] state.users[d]).id@ == id;
        assert(d == i) by {
            if d < i {
                assert(state.users[d].id@ != state.users[i].id@);
            } else if i < d {
                assert(state.users[i].id@ != state.users[d].id@);
            }
        }
    }
    if 0 <= i < state.sessions.len() {
        let token = state.sessions[i].token@;
        let c = choose|c: int|
            0 <= c < state.sessions.len() && (#[trigger] state.sessions[c]).token@ == token;
        assert(c == i) by {
            if c < i {
                assert(state.sessions[c].token@ != state.sessions[i].token@);
            } else if i < c {
                assert(state.sessions[i].token@ != state.sessions[c].token@);
            }
        }
    }
}

/// An account with a free username and a free id may join the store.
pub proof fn lemma_create_user_keeps_invariant(
    state: AuthState,
    request: CreateUserRequest,
    user_id: String,
    password_hash: String,
    now: Timestamp,
)
    requires
        state.wf(),
    ensures
        state.after_create_user(request, user_id, password_hash, now).wf(),
{
    if state.create_user_outcome(request, user_id, password_hash, now) is Ok {
        let user = AuthState::new_user(request, user_id, password_hash, now);
        let k = insertion_index(state.users, now);
        crate::table::lemma_insertion_index_splits(state.users, now);
        lemma_insert_keeps_order(state.users, user);
        let after = state.after_create_user(request, user_id, password_hash, now);
        assert forall|i: int, j: int| 0 <= i < j < after.users.len() implies (
        #[trigger] after.users[i]).id@ != (#[trigger] after.users[j]).id@ && after.users[i].username@
            != after.users[j].username@ by {
            let a = if i < k { i } else { i - 1 };
            let b = if j < k { j } else { j - 1 };
            if i == k {
                assert(after.users[j] == state.users[b]);
            } else if j == k {
                assert(after.users[i] == state.users[a]);
            } else {
                assert(after.users[i] == state.users[a] && after.users[j] == state.users[b]);
            }
        }
    }
}

/// Dropping sessions keeps the invariant.
pub proof fn lemma_fewer_sessions_keep_invariant(state: AuthState, keep: spec_fn(Session) -> bool)
    requires
        state.wf(),
    ensures
        (AuthState { users: state.users, sessions: state.sessions.filter(keep) }).wf(),
{
    let places = lemma_filter_places(state.sessions, keep);
    let kept = state.sessions.filter(keep);
    assert forall|i: int, j: int| 0 <= i < j < kept.len() implies (#[trigger] kept[i]).id@ != (
    #[trigger] kept[j]).id@ && kept[i].token@ != kept[j].token@ by {
        assert(places[i] < places[j]);
        assert(kept[i] == state.sessions[places[i]] && kept[j] == state.sessions[places[j]]);
    }
}

/// Dropping accounts keeps the invariant.
pub proof fn lemma_fewer_users_keep_invariant(state: AuthState, keep: spec_fn(User) -> bool)
    requires
        state.wf(),
    ensures
        (AuthState { users: state.users.filter(keep), sessions: state.sessions }).wf(),
{
    let places = lemma_filter_places(state.users, keep);
    let kept = state.users.filter(keep);
    lemma_filter_keeps_order(state.users, keep);
    assert forall|i: int, j: int| 0 <= i < j < kept.len() implies (#[trigger] kept[i]).id@ != (
    #[trigger] kept[j]).id@ && kept[i].username@ != kept[j].username@ by {
        assert(places[i] < places[j]);
        assert(kept[i] == state.users[places[i]] && kept[j] == state.users[places[j]]);
    }
}

/// The credential store and the session store.
pub struct AuthService {
    users: Vec<User>,
    sessions: Vec<Session>,
}

impl View for AuthService {
    type V = AuthState;

    closed spec fn view(&self) -> AuthState {
        AuthState { users: self.users@, sessions: self.sessions@ }
    }
}

impl AuthService {
    /// The invariant of the service: that of its two stores.
    pub open spec fn wf(&self) -> bool {
        self@.wf()
    }

    /// A service with no accounts and no sessions.
    pub fn new() -> (service: AuthService)
        ensures
            service.wf(),
            service@.users.len() == 0,
            service@.sessions.len() == 0,
    {
        AuthService { users: Vec::new(), sessions: Vec::new() }
    }

    /// A service over stored rows, if they meet the invariant: no id, username
    /// or token twice, and the accounts oldest first.
    pub fn from_rows(users: Vec<User>, sessions: Vec<Session>) -> (loaded: Option<AuthService>)
        ensures
            match loaded {
                Some(service) => service.wf() && service@ == (AuthState {
                    users: users@,
                    sessions: sessions@,
                }),
                None => !(AuthState { users: users@, sessions: sessions@ }).wf(),
            },
    {
        let mut user_ids: Vec<String> = Vec::new();
        let mut names: Vec<String> = Vec::new();
        let mut i: usize = 0;
        while i < users.len()
            invariant
                i <= users.len(),
                user_ids.len() == i,
                names.len() == i,
                forall|j: int| 0 <= j < i ==> (#[trigger] user_ids@[j])@ == users@[j].id@,
                forall|j: int| 0 <= j < i ==> (#[trigger] names@[j])@ == users@[j].username@,
            decreases users.len() - i,
        {
            user_ids.push(users[i].id.clone());
            names.push(users[i].username.clone());
            i = i + 1;
        }
        let mut session_ids: Vec<String> = Vec::new();
        let mut tokens: Vec<String> = Vec::new();
        let mut k: usize = 0;
        while k < sessions.len()
            invariant
                k <= sessions.len(),
                session_ids.len() == k,
                tokens.len() == k,
                forall|j: int| 0 <= j < k ==> (#[trigger] session_ids@[j])@ == sessions@[j].id@,
                forall|j: int| 0 <= j < k ==> (#[trigger] tokens@[j])@ == sessions@[j].token@,
            decreases sessions.len() - k,
        {
            session_ids.push(sessions[k].id.clone());
            tokens.push(sessions[k].token.clone());
            k = k + 1;
        }
        let ghost state = AuthState { users: users@, sessions: sessions@ };
        let ids_fine = all_distinct(&user_ids);
        let names_fine = all_distinct(&names);
        let sessions_fine = all_distinct(&session_ids);
        let tokens_fine = all_distinct(&tokens);
        let ordered = is_oldest_first(&users);
        proof {
            assert(distinct_texts(user_ids@) <==> state.distinct_user_ids()) by {
                if distinct_texts(user_ids@) {
                    assert forall|a: int, b: int| 0 <= a < b < state.users.len() implies (
                    #[trigger] state.users[a]).id@ != (#[trigger] state.users[b]).id@ by {
                        assert(user_ids@[a]@ != user_ids@[b]@);
                    }
                }
                if state.distinct_user_ids() {
                    assert forall|a: int, b: int| 0 <= a < b < user_ids.len() implies (
                    #[trigger] user_ids@[a])@ != (#[trigger] user_ids@[b])@ by {
                        assert(state.users[a].id@ != state.users[b].id@);
                    }
                }
            }
            assert(distinct_texts(names@) <==> state.distinct_usernames()) by {
                if distinct_texts(names@) {
                    assert forall|a: int, b: int| 0 <= a < b < state.users.len() implies (
                    #[trigger] state.users[a]).username@ != (#[trigger] state.users[b]).username@ by {
                        assert(names@[a]@ != names@[b]@);
                    }
                }
                if state.distinct_usernames() {
                    assert forall|a: int, b: int| 0 <= a < b < names.len() implies (
                    #[trigger] names@[a])@ != (#[trigger] names@[b])@ by {
                        assert(state.users[a].username@ != state.users[b].username@);
                    }
                }
            }
            assert(distinct_texts(session_ids@) <==> state.distinct_session_ids()) by {
                if distinct_texts(session_ids@) {
                    assert forall|a: int, b: int| 0 <= a < b < state.sessions.len() implies (
                    #[trigger] state.sessions[a]).id@ != (#[trigger] state.sessions[b]).id@ by {
                        assert(session_ids@[a]@ != session_ids@[b]@);
                    }
                }
                if state.distinct_session_ids() {
                    assert forall|a: int, b: int| 0 <= a < b < session_ids.len() implies (
                    #[trigger] session_ids@[a])@ != (#[trigger] session_ids@[b])@ by {
                        assert(state.sessions[a].id@ != state.sessions[b].id@);
                    }
                }
            }
            assert(distinct_texts(tokens@) <==> state.distinct_tokens()) by {
                if distinct_texts(tokens@) {
                    assert forall|a: int, b: int| 0 <= a < b < state.sessions.len() implies (
                    #[trigger] state.sessions[a]).token@ != (#[trigger] state.sessions[b]).token@ by {
                        assert(tokens@[a]@ != tokens@[b]@);
                    }
                }
                if state.distinct_tokens() {
                    assert forall|a: int, b: int| 0 <= a < b < tokens.len() implies (
                    #[trigger] tokens@[a])@ != (#[trigger] tokens@[b])@ by {
                        assert(state.sessions[a].token@ != state.sessions[b].token@);
                    }
                }
            }
        }
        if ids_fine && names_fine && sessions_fine && tokens_fine && ordered {
            Some(AuthService { users, sessions })
        } else {
            None
        }
    }

    /// Every session, in the order of issue.
    pub fn sessions(&self) -> (rows: Vec<Session>)
        ensures
            rows@ == self@.sessions,
    {
        let mut rows: Vec<Session> = Vec::new();
        let mut i: usize = 0;
        while i < self.sessions.len()
            invariant
                i <= self.sessions.len(),
                rows@ == self.sessions@.subrange(0, i as int),
            decreases self.sessions.len() - i,
        {
            rows.push(self.sessions[i].clone());
            assert(rows@ =~= self.sessions@.subrange(0, i + 1));
            i = i + 1;
        }
        assert(self.sessions@.subrange(0, i as int) =~= self.sessions@);
        rows
    }

    fn find_user_by_name(&self, name: &String) -> (found: Option<usize>)
        requires
            self.wf(),
        ensures
            match found {
                Some(i) => i < self@.users.len() && self@.users[i as int].username@ == name@
                    && self@.has_username(name@) && self@.user_named(name@) == self@.users[i as int],
                None => !self@.has_username(name@),
            },
    {
        let mut i: usize = 0;
        while i < self.users.len()
            invariant
                self.wf(),
                i <= self.users.len(),
                forall|j: int| 0 <= j < i ==> (#[trigger] self.users@[j]).username@ != name@,
            decreases self.users.len() - i,
        {
            if self.users[i].username == *name {
                proof {
                    lemma_lookup_is_exact(self@, i as int);
                }
                return Some(i);
            }
            i = i + 1;
        }
        None
    }

    fn find_user_by_id(&self, id: &String) -> (found: Option<usize>)
        requires
            self.wf(),
        ensures
            match found {
                Some(i) => i < self@.users.len() && self@.users[i as int].id@ == id@
                    && self@.has_user_id(id@) && self@.user_with_id(id@) == self@.users[i as int],
                None => !self@.has_user_id(id@),
            },
    {
        let mut i: usize = 0;
        while i < self.users.len()
            invariant
                self.wf(),
                i <= self.users.len(),
                forall|j: int| 0 <= j < i ==> (#[trigger] self.users@[j]).id@ != id@,
            decreases self.users.len() - i,
        {
            if self.users[i].id == *id {
                proof {
                    lemma_lookup_is_exact(self@, i as int);
                }
                return Some(i);
            }
            i = i + 1;
        }
        None
    }

    fn find_session_by_id(&self, id: &String) -> (found: Option<usize>)
        ensures
            match found {
                Some(i) => i < self@.sessions.len() && self@.sessions[i as int].id@ == id@,
                None => !self@.has_session_id(id@),
            },
    {
        let mut i: usize = 0;
        while i < self.sessions.len()
            invariant
                i <= self.sessions.len(),
                forall|j: int| 0 <= j < i ==> (#[trigger] self.sessions@[j]).id@ != id@,
            decreases self.sessions.len() - i,
        {
            if self.sessions[i].id == *id {
                return Some(i);
            }
            i = i + 1;
        }
        None
    }

    fn find_session_by_token(&self, token: &String) -> (found: Option<usize>)
        requires
            self.wf(),
        ensures
            match found {
                Some(i) => i < self@.sessions.len() && self@.sessions[i as int].token@ == token@
                    && self@.has_token(token@) && self@.session_with_token(token@)
                    == self@.sessions[i as int],
                None => !self@.has_token(token@),
            },
    {
        let mut i: usize = 0;
        while i < self.sessions.len()
            invariant
                self.wf(),
                i <= self.sessions.len(),
                forall|j: int| 0 <= j < i ==> (#[trigger] self.sessions@[j]).token@ != token@,
            decreases self.sessions.len() - i,
        {
            if self.sessions[i].token == *token {
                proof {
                    lemma_lookup_is_exact(self@, i as int);
                }
                return Some(i);
            }
            i = i + 1;
        }
        None
    }

    /// Creates an account from a request, an id, the hash of the password
    /// and the time of creation.
    pub fn create_user_with(
        &mut self,
        request: CreateUserRequest,
        user_id: String,
        password_hash: String,
        now: Timestamp,
    ) -> (r: Result<User, AuthError>)
        requires
            old(self).wf(),
        ensures
            final(self).wf(),
            r == old(self)@.create_user_outcome(request, user_id, password_hash, now),
            final(self)@ == old(self)@.after_create_user(request, user_id, password_hash, now),
    {
        if self.find_user_by_name(&request.username).is_some() {
            return Err(AuthError::UsernameExists);
        }
        if self.find_user_by_id(&user_id).is_some() {
            return Err(AuthError::InternalError);
        }
        let user = User {
            id: user_id,
            username: request.username,
            password_hash,
            email: request.email,
            is_admin: request.is_admin,
            created_at: now,
            updated_at: now,
        };
        let stored = user.clone();
        let k = find_insertion_index(&self.users, now);
        proof {
            lemma_create_user_keeps_invariant(self@, request, user_id, password_hash, now);
        }
        self.users.insert(k, stored);
        Ok(user)
    }
    /// Issues a session to `user_id` under the given id and token.
    pub fn create_session_with(
        &mut self,
        user_id: String,
        session_id: String,
        token: String,
        now: Timestamp,
    ) -> (r: Result<Session, AuthError>)
        requires
            old(self).wf(),
            now.secs + SESSION_SECONDS <= i64::MAX,
        ensures
            final(self).wf(),
            r == old(self)@.create_session_outcome(user_id, session_id, token, now),
            final(self)@ == old(self)@.after_create_session(user_id, session_id, token, now),
    {
        if self.find_session_by_id(&session_id).is_some() {
            return Err(AuthError::InternalError);
        }
        if self.find_session_by_token(&token).is_some() {
            return Err(AuthError::InternalError);
        }
        let session = Session {
            id: session_id,
            user_id,
            token,
            expires_at: now.session_expiry(),
            created_at: now,
        };
        let stored = session.clone();
        proof {
            let grown = self.sessions@.push(stored);
            assert forall|i: int, j: int| 0 <= i < j < grown.len() implies (#[trigger] grown[i]).id@
                != (#[trigger] grown[j]).id@ && grown[i].token@ != grown[j].token@ by {
                assert(grown[i] == self@.sessions[i]);
                if j < self.sessions@.len() {
                    assert(grown[j] == self@.sessions[j]);
                }
            }
        }
        self.sessions.push(stored);
        Ok(session)
    }

    /// Completes a login for an account that was found, given what the
    /// password check answered.
    pub fn complete_login(
        &mut self,
        user: User,
        verdict: Option<bool>,
        session_id: String,
        token: String,
        now: Timestamp,
    ) -> (r: Result<(User, Session), AuthError>)
        requires
            old(self).wf(),
            now.secs + SESSION_SECONDS <= i64::MAX,
        ensures
            final(self).wf(),
            r == old(self)@.complete_login_outcome(user, verdict, session_id, token, now),
            final(self)@ == old(self)@.after_complete_login(user, verdict, session_id, token, now),
    {
        match verdict {
            None => Err(AuthError::InternalError),
            Some(false) => Err(AuthError::InvalidCredentials),
            Some(true) => {
                let owner = user.id.clone();
                match self.create_session_with(owner, session_id, token, now) {
                    Ok(session) => Ok((user, session)),
                    Err(e) => Err(e),
                }
            },
        }
    }

    /// Logs a user in under the given session id and token.
    pub fn login_with(
        &mut self,
        request: LoginRequest,
        session_id: String,
        token: String,
        now: Timestamp,
    ) -> (r: Result<(User, Session), AuthError>)
        requires
            old(self).wf(),
            now.secs + SESSION_SECONDS <= i64::MAX,
        ensures
            final(self).wf(),
            r == old(self)@.login_outcome(request, session_id, token, now),
            final(self)@ == old(self)@.after_login(request, session_id, token, now),
    {
        match self.find_user_by_name(&request.username) {
            None => Err(AuthError::InvalidCredentials),
            Some(i) => {
                let user = self.users[i].clone();
                let verdict = check_password(request.password.as_str(), user.password_hash.as_str());
                self.complete_login(user, verdict, session_id, token, now)
            },
        }
    }

    /// Resolves a token to its account, as of `now`.
    pub fn validate_session_at(&self, token: &str, now: Timestamp) -> (r: Result<User, AuthError>)
        requires
            self.wf(),
        ensures
            r == self@.validate_outcome(token@, now),
    {
        let key = token.to_owned();
        match self.find_session_by_token(&key) {
            None => Err(AuthError::SessionExpired),
            Some(i) => {
                if !now.is_before(&self.sessions[i].expires_at) {
                    return Err(AuthError::SessionExpired);
                }
                match self.find_user_by_id(&self.sessions[i].user_id) {
                    None => Err(AuthError::UserNotFound),
                    Some(j) => Ok(self.users[j].clone()),
                }
            },
        }
    }

    /// Ends the session that carries `token`. Ending a session that does not
    /// exist is no error.
    pub fn logout(&mut self, token: &str) -> (r: Result<(), AuthError>)
        requires
            old(self).wf(),
        ensures
            final(self).wf(),
            r == Ok::<(), AuthError>(()),
            final(self)@ == old(self)@.after_logout(token@),
    {
        let key = token.to_owned();
        let ghost keep = without_token(token@);
        let mut kept: Vec<Session> = Vec::new();
        let mut i: usize = 0;
        assert(self.sessions@.subrange(0, 0) =~= Seq::<Session>::empty());
        while i < self.sessions.len()
            invariant
                i <= self.sessions.len(),
                key@ == token@,
                keep == without_token(token@),
                kept@ == self.sessions@.subrange(0, i as int).filter(keep),
            decreases self.sessions.len() - i,
        {
            proof {
                let before = self.sessions@.subrange(0, i as int);
                assert(self.sessions@.subrange(0, i + 1) =~= before.push(self.sessions@[i as int]));
                before.lemma_filter_push(self.sessions@[i as int], keep);
            }
            if !(self.sessions[i].token == key) {
                kept.push(self.sessions[i].clone());
            }
            i = i + 1;
        }
        proof {
            assert(self.sessions@.subrange(0, i as int) =~= self.sessions@);
            lemma_fewer_sessions_keep_invariant(self@, keep);
        }
        self.sessions = kept;
        Ok(())
    }

    /// Drops every session that has expired by `now`.
    pub fn cleanup_expired_sessions_at(&mut self, now: Timestamp) -> (r: Result<(), AuthError>)
        requires
            old(self).wf(),
        ensures
            final(self).wf(),
            r == Ok::<(), AuthError>(()),
            final(self)@ == old(self)@.after_sweep(now),
    {
        let ghost keep = still_valid(now);
        let mut kept: Vec<Session> = Vec::new();
        let mut i: usize = 0;
        assert(self.sessions@.subrange(0, 0) =~= Seq::<Session>::empty());
        while i < self.sessions.len()
            invariant
                i <= self.sessions.len(),
                keep == still_valid(now),
                kept@ == self.sessions@.subrange(0, i as int).filter(keep),
            decreases self.sessions.len() - i,
        {
            proof {
                let before = self.sessions@.subrange(0, i as int);
                assert(self.sessions@.subrange(0, i + 1) =~= before.push(self.sessions@[i as int]));
                before.lemma_filter_push(self.sessions@[i as int], keep);
            }
            if now.is_before(&self.sessions[i].expires_at) {
                kept.push(self.sessions[i].clone());
            }
            i = i + 1;
        }
        proof {
            assert(self.sessions@.subrange(0, i as int) =~= self.sessions@);
            lemma_fewer_sessions_keep_invariant(self@, keep);
        }
        self.sessions = kept;
        Ok(())
    }

    /// Every account, the youngest first.
    pub fn get_all_users(&self) -> (r: Result<Vec<User>, AuthError>)
        ensures
            r matches Ok(users) && users@ == newest_first(self@.users),
    {
        Ok(list_newest_first(&self.users))
    }

    /// Whether there is an account with the id `user_id`.
    pub fn has_user(&self, user_id: &str) -> (known: bool)
        requires
            self.wf(),
        ensures
            known == self@.has_user_id(user_id@),
    {
        let key = user_id.to_owned();
        self.find_user_by_id(&key).is_some()
    }

    /// Deletes the account `user_id` together with its sessions. Deleting an
    /// account that does not exist is no error and changes nothing.
    pub fn delete_user(&mut self, user_id: &str) -> (r: Result<(), AuthError>)
        requires
            old(self).wf(),
        ensures
            final(self).wf(),
            r == Ok::<(), AuthError>(()),
            final(self)@ == old(self)@.after_delete_user(user_id@),
    {
        let key = user_id.to_owned();
        if self.find_user_by_id(&key).is_none() {
            return Ok(());
        }
        let ghost keep_user = other_than(user_id@);
        let ghost keep_session = not_owned_by(user_id@);
        let mut users: Vec<User> = Vec::new();
        let mut i: usize = 0;
        assert(self.users@.subrange(0, 0) =~= Seq::<User>::empty());
        while i < self.users.len()
            invariant
                i <= self.users.len(),
                key@ == user_id@,
                keep_user == other_than(user_id@),
                users@ == self.users@.subrange(0, i as int).filter(keep_user),
            decreases self.users.len() - i,
        {
            proof {
                let before = self.users@.subrange(0, i as int);
                assert(self.users@.subrange(0, i + 1) =~= before.push(self.users@[i as int]));
                before.lemma_filter_push(self.users@[i as int], keep_user);
            }
            if !(self.users[i].id == key) {
                users.push(self.users[i].clone());
            }
            i = i + 1;
        }
        let mut sessions: Vec<Session> = Vec::new();
        let mut k: usize = 0;
        assert(self.sessions@.subrange(0, 0) =~= Seq::<Session>::empty());
        while k < self.sessions.len()
            invariant
                k <= self.sessions.len(),
                key@ == user_id@,
                keep_session == not_owned_by(user_id@),
                sessions@ == self.sessions@.subrange(0, k as int).filter(keep_session),
            decreases self.sessions.len() - k,
        {
            proof {
                let before = self.sessions@.subrange(0, k as int);
                assert(self.sessions@.subrange(0, k + 1) =~= before.push(self.sessions@[k as int]));
                before.lemma_filter_push(self.sessions@[k as int], keep_session);
            }
            if !(self.sessions[k].user_id == key) {
                sessions.push(self.sessions[k].clone());
            }
            k = k + 1;
        }
        proof {
            assert(self.users@.subrange(0, i as int) =~= self.users@);
            assert(self.sessions@.subrange(0, k as int) =~= self.sessions@);
            lemma_fewer_users_keep_invariant(self@, keep_user);
            lemma_fewer_sessions_keep_invariant(
                AuthState { users: self.users@.filter(keep_user), sessions: self.sessions@ },
                keep_session,
            );
        }
        self.users = users;
        self.sessions = sessions;
        Ok(())
    }

    /// Creates an account: the password is hashed, the id is drawn at random
    /// and the clock gives the time of creation.
    pub fn create_user(&mut self, request: CreateUserRequest) -> (r: Result<User, AuthError>)
        requires
            old(self).wf(),
        ensures
            final(self).wf(),
            match r {
                Ok(user) => user.id@.len() == ID_LENGTH && user.password_hash@.len() == 60
                    && user.created_at.on_the_clock()
                    && bcrypt_verdict(request.password@, user.password_hash@) == Some(true)
                    && r == old(self)@.create_user_outcome(
                    request,
                    user.id,
                    user.password_hash,
                    user.created_at,
                ) && final(self)@ == old(self)@.after_create_user(
                    request,
                    user.id,
                    user.password_hash,
                    user.created_at,
                ),
                Err(e) => final(self)@ == old(self)@ && e == if old(self)@.has_username(
                    request.username@,
                ) {
                    AuthError::UsernameExists
                } else {
                    AuthError::InternalError
                },
            },
    {
        if self.find_user_by_name(&request.username).is_some() {
            return Err(AuthError::UsernameExists);
        }
        let password_hash = match hash_password(request.password.as_str()) {
            Some(hash) => hash,
            None => {
                return Err(AuthError::InternalError);
            },
        };
        let user_id = fresh_id();
        let now = clock_now();
        self.create_user_with(request, user_id, password_hash, now)
    }

    /// Issues a session to `user_id`: id and token are drawn at random,
    /// independently, and the clock gives the time of issue.
    pub fn create_session(&mut self, user_id: &str) -> (r: Result<Session, AuthError>)
        requires
            old(self).wf(),
        ensures
            final(self).wf(),
            exists|owner: String, session_id: String, token: String, now: Timestamp|
                owner@ == user_id@ && session_id@.len() == ID_LENGTH && token@.len() == ID_LENGTH
                    && now.on_the_clock() && r == old(self)@.create_session_outcome(
                    owner,
                    session_id,
                    token,
                    now,
                ) && final(self)@ == #[trigger] old(self)@.after_create_session(
                    owner,
                    session_id,
                    token,
                    now,
                ),
            match r {
                Ok(session) => session.user_id@ == user_id@ && session.id@.len() == ID_LENGTH
                    && session.token@.len() == ID_LENGTH && session.created_at.on_the_clock()
                    && session.expires_at.secs == session.created_at.secs + SESSION_SECONDS
                    && session.expires_at.nanos == session.created_at.nanos && r == old(self)@.create_session_outcome(
                    session.user_id,
                    session.id,
                    session.token,
                    session.created_at,
                ) && final(self)@ == old(self)@.after_create_session(
                    session.user_id,
                    session.id,
                    session.token,
                    session.created_at,
                ),
                Err(e) => e == AuthError::InternalError && final(self)@ == old(self)@,
            },
    {
        let session_id = fresh_id();
        let token = fresh_id();
        let now = clock_now();
        self.create_session_with(user_id.to_owned(), session_id, token, now)
    }

    /// Logs a user in: checks the password and issues a new session.
    pub fn login(&mut self, request: LoginRequest) -> (r: Result<(User, Session), AuthError>)
        requires
            old(self).wf(),
        ensures
            final(self).wf(),
            exists|session_id: String, token: String, now: Timestamp|
                session_id@.len() == ID_LENGTH && token@.len() == ID_LENGTH && now.on_the_clock()
                    && r == old(self)@.login_outcome(request, session_id, token, now) && final(self)@
                    == #[trigger] old(self)@.after_login(request, session_id, token, now),
            match r {
                Ok((user, session)) => session.id@.len() == ID_LENGTH && session.token@.len()
                    == ID_LENGTH && session.created_at.on_the_clock() && session.expires_at.secs
                    == session.created_at.secs + SESSION_SECONDS && session.expires_at.nanos
                    == session.created_at.nanos && r == old(self)@.login_outcome(
                    request,
                    session.id,
                    session.token,
                    session.created_at,
                ) && final(self)@ == old(self)@.after_login(
                    request,
                    session.id,
                    session.token,
                    session.created_at,
                ),
                Err(e) => final(self)@ == old(self)@ && e == if old(self)@.rejects_login(request) {
                    AuthError::InvalidCredentials
                } else {
                    AuthError::InternalError
                },
            },
    {
        let session_id = fresh_id();
        let token = fresh_id();
        let now = clock_now();
        self.login_with(request, session_id, token, now)
    }

    /// Resolves a token to its account, as of the clock's time.
    pub fn validate_session(&self, token: &str) -> (r: Result<User, AuthError>)
        requires
            self.wf(),
        ensures
            exists|now: Timestamp| now.on_the_clock() && r == #[trigger] self@.validate_outcome(token@, now),
            !self@.has_token(token@) ==> r == Err::<User, AuthError>(AuthError::SessionExpired),
    {
        let now = clock_now();
        self.validate_session_at(token, now)
    }

    /// Drops every session that has expired by the clock's time.
    pub fn cleanup_expired_sessions(&mut self) -> (r: Result<(), AuthError>)
        requires
            old(self).wf(),
        ensures
            final(self).wf(),
            r == Ok::<(), AuthError>(()),
            exists|now: Timestamp|
                now.on_the_clock() && final(self)@ == #[trigger] old(self)@.after_sweep(now),
    {
        let now = clock_now();
        self.cleanup_expired_sessions_at(now)
    }
}

/// Of two requests for the same username at most one creates an account:
/// once the name is taken, every further request for it is turned down as
/// `UsernameExists` and changes nothing.
pub proof fn lemma_username_is_given_once(
    state: AuthState,
    first: CreateUserRequest,
    first_id: String,
    first_hash: String,
    first_now: Timestamp,
    second: CreateUserRequest,
    second_id: String,
    second_hash: String,
    second_now: Timestamp,
)
    requires
        state.wf(),
        first.username@ == second.username@,
        state.create_user_outcome(first, first_id, first_hash, first_now) is Ok
            || state.create_user_outcome(first, first_id, first_hash, first_now) == Err::<
            User,
            AuthError,
        >(AuthError::UsernameExists),
    ensures
        ({
            let between = state.after_create_user(first, first_id, first_hash, first_now);
            &&& between.create_user_outcome(second, second_id, second_hash, second_now) == Err::<
                User,
                AuthError,
            >(AuthError::UsernameExists)
            &&& between.after_create_user(second, second_id, second_hash, second_now) == between
        }),
{
    let between = state.after_create_user(first, first_id, first_hash, first_now);
    if state.create_user_outcome(first, first_id, first_hash, first_now) is Ok {
        crate::table::lemma_insertion_index_splits(state.users, first_now);
        let k = insertion_index(state.users, first_now);
        assert(between.users[k].username@ == second.username@);
    }
}

/// A session validates from the moment it is issued until it expires, and
/// from then on it is turned down as `SessionExpired`.
pub proof fn lemma_session_lives_until_expiry(
    state: AuthState,
    user_id: String,
    session_id: String,
    token: String,
    now: Timestamp,
    at: Timestamp,
)
    requires
        state.wf(),
        now.secs + SESSION_SECONDS <= i64::MAX,
        state.has_user_id(user_id@),
        state.create_session_outcome(user_id, session_id, token, now) is Ok,
    ensures
        ({
            let after = state.after_create_session(user_id, session_id, token, now);
            let expiry = now.plus_seconds(SESSION_SECONDS as int);
            &&& now.before(expiry)
            &&& after.validate_outcome(token@, now) == Ok::<User, AuthError>(
                state.user_with_id(user_id@),
            )
            &&& at.before(expiry) ==> after.validate_outcome(token@, at) == Ok::<User, AuthError>(
                state.user_with_id(user_id@),
            )
            &&& !at.before(expiry) ==> after.validate_outcome(token@, at) == Err::<User, AuthError>(
                AuthError::SessionExpired,
            )
        }),
{
    let after = state.after_create_session(user_id, session_id, token, now);
    let session = AuthState::new_session(user_id, session_id, token, now);
    lemma_create_session_keeps_invariant(state, user_id, session_id, token, now);
    let last = state.sessions.len() as int;
    assert(after.sessions[last] == session);
    lemma_lookup_is_exact(after, last);
}

/// Issuing a session keeps the invariant.
pub proof fn lemma_create_session_keeps_invariant(
    state: AuthState,
    user_id: String,
    session_id: String,
    token: String,
    now: Timestamp,
)
    requires
        state.wf(),
    ensures
        state.after_create_session(user_id, session_id, token, now).wf(),
{
    if state.create_session_outcome(user_id, session_id, token, now) is Ok {
        let after = state.after_create_session(user_id, session_id, token, now);
        assert forall|i: int, j: int| 0 <= i < j < after.sessions.len() implies (
        #[trigger] after.sessions[i]).id@ != (#[trigger] after.sessions[j]).id@
            && after.sessions[i].token@ != after.sessions[j].token@ by {
            assert(after.sessions[i] == state.sessions[i]);
            if j < state.sessions.len() {
                assert(after.sessions[j] == state.sessions[j]);
            }
        }
    }
}

/// An account that was created with the hash of its password can log in with
/// that password, whenever the session's id and token are new.
pub proof fn lemma_created_account_logs_in(
    state: AuthState,
    request: CreateUserRequest,
    user_id: String,
    password_hash: String,
    created: Timestamp,
    attempt: LoginRequest,
    session_id: String,
    token: String,
    now: Timestamp,
)
    requires
        state.wf(),
        state.create_user_outcome(request, user_id, password_hash, created) is Ok,
        bcrypt_verdict(request.password@, password_hash@) == Some(true),
        attempt.username@ == request.username@,
        attempt.password@ == request.password@,
        !state.has_session_id(session_id@),
        !state.has_token(token@),
    ensures
        ({
            let after = state.after_create_user(request, user_id, password_hash, created);
            let user = AuthState::new_user(request, user_id, password_hash, created);
            after.login_outcome(attempt, session_id, token, now) == Ok::<(User, Session), AuthError>(
                (user, AuthState::new_session(user_id, session_id, token, now)),
            )
        }),
{
    let after = state.after_create_user(request, user_id, password_hash, created);
    lemma_create_user_keeps_invariant(state, request, user_id, password_hash, created);
    crate::table::lemma_insertion_index_splits(state.users, created);
    let k = insertion_index(state.users, created);
    assert(after.users[k] == AuthState::new_user(request, user_id, password_hash, created));
    lemma_lookup_is_exact(after, k);
}

/// After a logout the token is turned down as `SessionExpired`, and a second
/// logout changes nothing.
pub proof fn lemma_logout_ends_session(state: AuthState, token: Seq<char>, at: Timestamp)
    requires
        state.wf(),
    ensures
        state.after_logout(token).wf(),
        !state.after_logout(token).has_token(token),
        state.after_logout(token).validate_outcome(token, at) == Err::<User, AuthError>(
            AuthError::SessionExpired,
        ),
        state.after_logout(token).after_logout(token) == state.after_logout(token),
{
    let keep = without_token(token);
    let after = state.after_logout(token);
    lemma_fewer_sessions_keep_invariant(state, keep);
    let places = lemma_filter_places(state.sessions, keep);
    assert forall|i: int| 0 <= i < after.sessions.len() implies (#[trigger] after.sessions[i]).token@
        != token by {
        assert(after.sessions[i] == state.sessions[places[i]]);
    }
    crate::table::lemma_filter_of_accepted(after.sessions, keep);
}

/// The sweep cannot be observed: at the time of the sweep and at any later
/// time, every token validates as it did before.
pub proof fn lemma_sweep_changes_no_answer(
    state: AuthState,
    now: Timestamp,
    token: Seq<char>,
    at: Timestamp,
)
    requires
        state.wf(),
        now.at_or_before(at),
    ensures
        state.after_sweep(now).wf(),
        state.after_sweep(now).validate_outcome(token, at) == state.validate_outcome(token, at),
{
    let keep = still_valid(now);
    let after = state.after_sweep(now);
    lemma_fewer_sessions_keep_invariant(state, keep);
    let places = lemma_filter_places(state.sessions, keep);
    if after.has_token(token) {
        let k = choose|k: int|
            0 <= k < after.sessions.len() && (#[trigger] after.sessions[k]).token@ == token;
        assert(after.sessions[k] == state.sessions[places[k]]);
        lemma_lookup_is_exact(after, k);
        lemma_lookup_is_exact(state, places[k]);
    } else if state.has_token(token) {
        let i = choose|i: int|
            0 <= i < state.sessions.len() && (#[trigger] state.sessions[i]).token@ == token;
        lemma_lookup_is_exact(state, i);
        if keep(state.sessions[i]) {
            let k = choose|k: int| 0 <= k < places.len() && #[trigger] places[k] == i;
            assert(after.sessions[k] == state.sessions[i]);
            assert(false);
        }
    }
}

/// After an account is deleted it is gone, no session of it is left, and no
/// token resolves to it any more; the other accounts stay as they were.
/// Deleting an account that does not exist changes nothing.
pub proof fn lemma_deleted_account_is_gone(
    state: AuthState,
    id: Seq<char>,
    other: Seq<char>,
    token: Seq<char>,
    at: Timestamp,
)
    requires
        state.wf(),
    ensures
        state.after_delete_user(id).wf(),
        !state.after_delete_user(id).has_user_id(id),
        !state.has_user_id(id) ==> state.after_delete_user(id) == state,
        state.has_user_id(id) ==> forall|i: int|
            0 <= i < state.after_delete_user(id).sessions.len() ==> (
            #[trigger] state.after_delete_user(id).sessions[i]).user_id@ != id,
        other != id && state.has_user_id(other) ==> state.after_delete_user(id).has_user_id(other)
            && state.after_delete_user(id).user_with_id(other) == state.user_with_id(other),
        state.after_delete_user(id).validate_outcome(token, at) matches Ok(user) ==> user.id@ != id,
{
    let after = state.after_delete_user(id);
    if state.has_user_id(id) {
        lemma_fewer_users_keep_invariant(state, other_than(id));
        lemma_fewer_sessions_keep_invariant(
            AuthState { users: state.users.filter(other_than(id)), sessions: state.sessions },
            not_owned_by(id),
        );
        let places = lemma_filter_places(state.users, other_than(id));
        let session_places = lemma_filter_places(state.sessions, not_owned_by(id));
        assert forall|i: int| 0 <= i < after.users.len() implies (#[trigger] after.users[i]).id@
            != id by {
            assert(after.users[i] == state.users[places[i]]);
        }
        assert forall|i: int| 0 <= i < after.sessions.len() implies (
        #[trigger] after.sessions[i]).user_id@ != id by {
            assert(after.sessions[i] == state.sessions[session_places[i]]);
        }
        if other != id && state.has_user_id(other) {
            let u = choose|u: int|
                0 <= u < state.users.len() && (#[trigger] state.users[u]).id@ == other;
            lemma_lookup_is_exact(state, u);
            assert(other_than(id)(state.users[u]));
            let k = choose|k: int| 0 <= k < places.len() && #[trigger] places[k] == u;
            assert(after.users[k] == state.users[u]);
            lemma_lookup_is_exact(after, k);
        }
    }
    if after.validate_outcome(token, at) is Ok {
        let owner = after.session_with_token(token).user_id@;
        let u = choose|u: int| 0 <= u < after.users.len() && (#[trigger] after.users[u]).id@ == owner;
        assert(after.users[u].id@ != id);
    }
}

} // verus!
