//! The shapes of requests and responses, and the catalog's request handlers.

use vstd::prelude::*;
use vstd::string::StringExecFns;
use crate::auth::AuthError;
use crate::auth_service::AuthService;
use crate::database::{Database, DbError};
use crate::ids::ID_LENGTH;
use crate::igdb_client::IgdbClient;
use crate::metadata::GameMetadata;
use crate::models::{CreateGameRequest, Game, GameListResponse, IgdbGame};
use crate::time::Timestamp;

verus! {

/// The status of a response.
#[derive(Clone, Copy, Debug, PartialEq, Eq, Structural)]
pub enum StatusCode {
    Okay,
    Created,
    NoContent,
    BadRequest,
    Unauthorized,
    Forbidden,
    NotFound,
    InternalServerError,
}

impl StatusCode {
    /// The number of the status.
    pub open spec fn number(self) -> u16 {
        match self {
            StatusCode::Okay => 200,
            StatusCode::Created => 201,
            StatusCode::NoContent => 204,
            StatusCode::BadRequest => 400,
            StatusCode::Unauthorized => 401,
            StatusCode::Forbidden => 403,
            StatusCode::NotFound => 404,
            StatusCode::InternalServerError => 500,
        }
    }

    /// The number of the status.
    pub fn as_u16(&self) -> (code: u16)
        ensures
            code == self.number(),
    {
        match self {
            StatusCode::Okay => 200,
            StatusCode::Created => 201,
            StatusCode::NoContent => 204,
            StatusCode::BadRequest => 400,
            StatusCode::Unauthorized => 401,
            StatusCode::Forbidden => 403,
            StatusCode::NotFound => 404,
            StatusCode::InternalServerError => 500,
        }
    }
}

/// Why a request failed.
#[derive(Clone, Copy, Debug, PartialEq, Eq, Structural)]
pub enum ApiError {
    /// Unknown username or wrong password: the two are not told apart.
    InvalidCredentials,
    /// A session whose account is gone.
    UserNotFound,
    UsernameExists,
    /// The token has expired, or was never issued.
    SessionExpired,
    /// No bearer token was presented.
    Unauthenticated,
    /// The account lacks the role that the route asks for.
    Forbidden,
    /// There is no such game or library entry.
    NotFound,
    /// A failure of a store or of the catalog provider.
    InternalError,
}

impl ApiError {
    /// The failure that an authentication error is answered with.
    pub open spec fn of(error: AuthError) -> ApiError {
        match error {
            AuthError::InvalidCredentials => ApiError::InvalidCredentials,
            AuthError::UserNotFound => ApiError::UserNotFound,
            AuthError::UsernameExists => ApiError::UsernameExists,
            AuthError::SessionExpired => ApiError::SessionExpired,
            AuthError::Unauthorized => ApiError::Unauthenticated,
            AuthError::InternalError => ApiError::InternalError,
        }
    }

    /// The status that answers each kind of failure.
    pub open spec fn status_of(self) -> StatusCode {
        match self {
            ApiError::InvalidCredentials => StatusCode::Unauthorized,
            ApiError::UserNotFound => StatusCode::Unauthorized,
            ApiError::UsernameExists => StatusCode::BadRequest,
            ApiError::SessionExpired => StatusCode::Unauthorized,
            ApiError::Unauthenticated => StatusCode::Unauthorized,
            ApiError::Forbidden => StatusCode::Forbidden,
            ApiError::NotFound => StatusCode::NotFound,
            ApiError::InternalError => StatusCode::InternalServerError,
        }
    }

    /// The sentence shown for each kind of failure. It tells nothing of the
    /// cause of an internal error.
    pub open spec fn message_text(self) -> Seq<char> {
        match self {
            ApiError::InvalidCredentials => AuthError::InvalidCredentials.message_text(),
            ApiError::UserNotFound => AuthError::UserNotFound.message_text(),
            ApiError::UsernameExists => AuthError::UsernameExists.message_text(),
            ApiError::SessionExpired => AuthError::SessionExpired.message_text(),
            ApiError::Unauthenticated => AuthError::Unauthorized.message_text(),
            ApiError::Forbidden => "Forbidden"@,
            ApiError::NotFound => "Not found"@,
            ApiError::InternalError => AuthError::InternalError.message_text(),
        }
    }

    /// The status that answers this failure.
    pub fn status(&self) -> (status: StatusCode)
        ensures
            status == self.status_of(),
    {
        match self {
            ApiError::InvalidCredentials => StatusCode::Unauthorized,
            ApiError::UserNotFound => StatusCode::Unauthorized,
            ApiError::UsernameExists => StatusCode::BadRequest,
            ApiError::SessionExpired => StatusCode::Unauthorized,
            ApiError::Unauthenticated => StatusCode::Unauthorized,
            ApiError::Forbidden => StatusCode::Forbidden,
            ApiError::NotFound => StatusCode::NotFound,
            ApiError::InternalError => StatusCode::InternalServerError,
        }
    }

    /// The sentence shown for this failure.
    pub fn message(&self) -> (text: String)
        ensures
            text@ == self.message_text(),
    {
        match self {
            ApiError::InvalidCredentials => AuthError::InvalidCredentials.message(),
            ApiError::UserNotFound => AuthError::UserNotFound.message(),
            ApiError::UsernameExists => AuthError::UsernameExists.message(),
            ApiError::SessionExpired => AuthError::SessionExpired.message(),
            ApiError::Unauthenticated => AuthError::Unauthorized.message(),
            ApiError::Forbidden => String::from_str("Forbidden"),
            ApiError::NotFound => String::from_str("Not found"),
            ApiError::InternalError => AuthError::InternalError.message(),
        }
    }

    /// The body of the response to this failure: no payload, and the message.
    pub fn body<T>(&self) -> (response: ApiResponse<T>)
        ensures
            !response.success,
            response.data is None,
            response.error matches Some(text) && text@ == self.message_text(),
    {
        ApiResponse::error(self.message())
    }
}

impl From<AuthError> for ApiError {
    fn from(error: AuthError) -> (failure: ApiError) {
        match error {
            AuthError::InvalidCredentials => ApiError::InvalidCredentials,
            AuthError::UserNotFound => ApiError::UserNotFound,
            AuthError::UsernameExists => ApiError::UsernameExists,
            AuthError::SessionExpired => ApiError::SessionExpired,
            AuthError::Unauthorized => ApiError::Unauthenticated,
            AuthError::InternalError => ApiError::InternalError,
        }
    }
}

impl vstd::std_specs::convert::FromSpecImpl<AuthError> for ApiError {
    open spec fn obeys_from_spec() -> bool {
        true
    }

    open spec fn from_spec(error: AuthError) -> ApiError {
        ApiError::of(error)
    }
}

/// Everything the handlers work on.
pub struct AppStateInner {
    pub db: Database,
    pub igdb_client: IgdbClient,
    pub auth_service: AuthService,
}

impl AppStateInner {
    /// The invariant of the state: that of its two parts.
    pub open spec fn wf(&self) -> bool {
        self.db.wf() && self.auth_service.wf()
    }

    /// A state with empty stores and the given credentials for the provider.
    pub fn new(igdb_client: IgdbClient) -> (state: AppStateInner)
        ensures
            state.wf(),
            state.igdb_client == igdb_client,
            state.db@.games.len() == 0,
            state.db@.user_games.len() == 0,
            state.auth_service@.users.len() == 0,
            state.auth_service@.sessions.len() == 0,
    {
        AppStateInner { db: Database::new(), igdb_client, auth_service: AuthService::new() }
    }
}

/// The page that a listing request asks for. Absent, the page is 1 and holds 20 rows.
#[derive(Debug)]
pub struct PaginationQuery {
    pub page: Option<i64>,
    pub per_page: Option<i64>,
}

impl PaginationQuery {
    pub open spec fn page_or_default(self) -> i64 {
        match self.page {
            Some(page) => page,
            None => 1,
        }
    }

    pub open spec fn per_page_or_default(self) -> i64 {
        match self.per_page {
            Some(per_page) => per_page,
            None => 20,
        }
    }

    /// The page and the page size of the request, with the defaults filled in.
    pub fn resolve(&self) -> (window: (i64, i64))
        ensures
            window == (self.page_or_default(), self.per_page_or_default()),
    {
        let page: i64 = match self.page {
            Some(page) => page,
            None => 1,
        };
        let per_page: i64 = match self.per_page {
            Some(per_page) => per_page,
            None => 20,
        };
        (page, per_page)
    }
}

/// A search in the provider's catalog. Absent, the limit is 10.
#[derive(Debug)]
pub struct SearchQuery {
    pub q: String,
    pub limit: Option<u32>,
}

impl SearchQuery {
    /// The number of results asked for.
    pub fn limit_or_default(&self) -> (limit: u32)
        ensures
            limit == match self.limit {
                Some(limit) => limit,
                None => 10u32,
            },
    {
        match self.limit {
            Some(limit) => limit,
            None => 10,
        }
    }
}

/// The envelope of every response body: the payload on success, the message
/// on failure.
#[derive(Debug)]
pub struct ApiResponse<T> {
    pub success: bool,
    pub data: Option<T>,
    pub error: Option<String>,
}

impl<T> ApiResponse<T> {
    /// The envelope of a payload.
    pub open spec fn success_of(data: T) -> ApiResponse<T> {
        ApiResponse { success: true, data: Some(data), error: None }
    }

    /// The envelope of a failure.
    pub open spec fn error_of(message: String) -> ApiResponse<T> {
        ApiResponse { success: false, data: None, error: Some(message) }
    }

    pub fn success(data: T) -> (response: Self)
        ensures
            response == Self::success_of(data),
    {
        ApiResponse { success: true, data: Some(data), error: None }
    }

    pub fn error(message: String) -> (response: Self)
        ensures
            response == Self::error_of(message),
    {
        ApiResponse { success: false, data: None, error: Some(message) }
    }
}

/// The answer to an attempt to add a game: the game in its envelope, or an
/// internal error where the store refused it.
pub open spec fn created_answer(outcome: Result<Game, DbError>) -> Result<
    ApiResponse<Game>,
    ApiError,
> {
    match outcome {
        Ok(game) => Ok(ApiResponse::success_of(game)),
        Err(_) => Err(ApiError::InternalError),
    }
}

/// Adds a game to the catalog, under a drawn id and at the clock's time. It
/// fails only where the drawn id is taken.
pub fn create_game(state: &mut AppStateInner, request: CreateGameRequest) -> (r: Result<
    ApiResponse<Game>,
    ApiError,
>)
    requires
        old(state).wf(),
    ensures
        final(state).wf(),
        final(state).auth_service@ == old(state).auth_service@,
        exists|id: String, now: Timestamp|
            id@.len() == ID_LENGTH && now.on_the_clock() && r == created_answer(
                old(state).db@.create_game_outcome(request, id, now),
            ) && final(state).db@ == #[trigger] old(state).db@.after_create_game(request, id, now),
        match r {
            Ok(response) => {
                &&& response.data matches Some(game)
                &&& response == ApiResponse::success_of(game)
                &&& game.id@.len() == ID_LENGTH
                &&& game.created_at.on_the_clock()
                &&& old(state).db@.create_game_outcome(request, game.id, game.created_at) == Ok::<
                    Game,
                    DbError,
                >(game)
                &&& final(state).db@ == old(state).db@.after_create_game(
                    request,
                    game.id,
                    game.created_at,
                )
            },
            Err(failure) => failure == ApiError::InternalError && final(state).db@ == old(state).db@,
        },
{
    match state.db.create_game(request) {
        Ok(game) => Ok(ApiResponse::success(game)),
        Err(_) => Err(ApiError::InternalError),
    }
}

/// One page of the whole catalog.
pub fn get_games(state: &AppStateInner, params: PaginationQuery) -> (r: Result<
    ApiResponse<GameListResponse>,
    ApiError,
>)
    requires
        state.wf(),
    ensures
        ({
            &&& r matches Ok(response)
            &&& response.data matches Some(list)
            &&& response.success
            &&& response.error is None
            &&& (list.games@, list.total) == state.db@.games_page(
                params.page_or_default(),
                params.per_page_or_default(),
            )
            &&& list.page == params.page_or_default()
            &&& list.per_page == params.per_page_or_default()
        }),
{
    let (page, per_page) = params.resolve();
    match state.db.get_games(page, per_page) {
        Ok((games, total)) => Ok(
            ApiResponse::success(GameListResponse { games, total, page, per_page }),
        ),
        Err(_) => Err(ApiError::InternalError),
    }
}

/// The game `id`, or `NotFound`.
pub fn get_game(state: &AppStateInner, id: &str) -> (r: Result<ApiResponse<Game>, ApiError>)
    requires
        state.wf(),
    ensures
        r == match state.db@.find_game(id@) {
            Some(game) => Ok::<ApiResponse<Game>, ApiError>(ApiResponse::success_of(game)),
            None => Err::<ApiResponse<Game>, ApiError>(ApiError::NotFound),
        },
{
    match state.db.get_game_by_id(id) {
        Ok(Some(game)) => Ok(ApiResponse::success(game)),
        Ok(None) => Err(ApiError::NotFound),
        Err(_) => Err(ApiError::InternalError),
    }
}

/// What refreshing the metadata of a game takes.
#[derive(Debug)]
pub enum MetadataPlan {
    /// There is no such game.
    NotFound,
    /// The game is not linked to the provider: it is answered as it is.
    Unlinked(Game),
    /// The provider is to be asked for the record with this id.
    Fetch(i64),
}

/// How a metadata refresh goes on from its plan.
#[derive(Debug)]
pub enum MetadataStep {
    /// The request is answered without the provider.
    Answer(Result<ApiResponse<Game>, ApiError>),
    /// The provider is to be asked for the record with this id.
    Fetch(i64),
}

impl MetadataPlan {
    /// How the refresh goes on: a game that does not exist is `NotFound`, a
    /// game without a link to the provider is answered as it is, and a
    /// linked game has its record fetched.
    pub open spec fn step_of(self) -> MetadataStep {
        match self {
            MetadataPlan::NotFound => MetadataStep::Answer(Err(ApiError::NotFound)),
            MetadataPlan::Unlinked(game) => MetadataStep::Answer(Ok(ApiResponse::success_of(game))),
            MetadataPlan::Fetch(igdb_id) => MetadataStep::Fetch(igdb_id),
        }
    }

    /// How the refresh goes on from this plan.
    pub fn step(self) -> (step: MetadataStep)
        ensures
            step == self.step_of(),
    {
        match self {
            MetadataPlan::NotFound => MetadataStep::Answer(Err(ApiError::NotFound)),
            MetadataPlan::Unlinked(game) => MetadataStep::Answer(Ok(ApiResponse::success(game))),
            MetadataPlan::Fetch(igdb_id) => MetadataStep::Fetch(igdb_id),
        }
    }
}

/// The first step of a metadata refresh: whether the provider is to be asked.
pub fn plan_metadata(state: &AppStateInner, id: &str) -> (plan: MetadataPlan)
    requires
        state.wf(),
    ensures
        plan == match state.db@.find_game(id@) {
            None => MetadataPlan::NotFound,
            Some(game) => match game.igdb_id {
                Some(igdb_id) => MetadataPlan::Fetch(igdb_id),
                None => MetadataPlan::Unlinked(game),
            },
        },
{
    match state.db.get_game_by_id(id) {
        Ok(Some(game)) => match game.igdb_id {
            Some(igdb_id) => MetadataPlan::Fetch(igdb_id),
            None => MetadataPlan::Unlinked(game),
        },
        _ => MetadataPlan::NotFound,
    }
}

/// The last step of a metadata refresh, given what the provider answered:
/// its record is written onto the game and the game is answered as it
/// then is; without a record the answer is `NotFound`, and a provider that
/// failed is an internal error.
pub fn fetch_game_metadata(
    state: &mut AppStateInner,
    id: &str,
    fetched: Result<Option<IgdbGame>, ()>,
) -> (r: Result<ApiResponse<Game>, ApiError>)
    requires
        old(state).wf(),
    ensures
        final(state).wf(),
        final(state).auth_service@ == old(state).auth_service@,
        match fetched {
            Err(_) => r == Err::<ApiResponse<Game>, ApiError>(ApiError::InternalError)
                && final(state).db@ == old(state).db@,
            Ok(None) => r == Err::<ApiResponse<Game>, ApiError>(ApiError::NotFound) && final(state).db@ == old(state).db@,
            Ok(Some(record)) => (exists|metadata: GameMetadata, now: Timestamp|
                metadata.describes(record) && now.on_the_clock() && final(state).db@
                    == #[trigger] old(state).db@.after_metadata(id@, metadata, now)) && r
                == match final(state).db@.find_game(
                id@,
            ) {
                Some(game) => Ok::<ApiResponse<Game>, ApiError>(ApiResponse::success_of(game)),
                None => Err::<ApiResponse<Game>, ApiError>(ApiError::NotFound),
            },
        },
{
    match fetched {
        Err(_) => Err(ApiError::InternalError),
        Ok(None) => Err(ApiError::NotFound),
        Ok(Some(record)) => {
            match state.db.update_game_metadata(id, &record) {
                Ok(_) => {},
                Err(_) => {
                    return Err(ApiError::InternalError);
                },
            }
            match state.db.get_game_by_id(id) {
                Ok(Some(game)) => Ok(ApiResponse::success(game)),
                Ok(None) => Err(ApiError::NotFound),
                Err(_) => Err(ApiError::InternalError),
            }
        },
    }
}

} // verus!
