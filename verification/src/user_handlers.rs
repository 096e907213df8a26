//! The request handlers for the store and for a user's own library.

use vstd::prelude::*;
use crate::auth::User;
use crate::database::{DbError, UserGameWithDetails};
use crate::handlers::{ApiError, ApiResponse, AppStateInner, PaginationQuery, StatusCode};
use crate::models::{GameListResponse, Rating};
use crate::time::Timestamp;

verus! {

#[derive(Debug)]
pub struct InstallGameRequest {
    pub install_path: Option<String>,
}

/// One page of a library together with the number of its entries.
#[derive(Debug)]
pub struct UserLibraryResponse {
    pub games: Vec<UserGameResponse>,
    pub total: i64,
    pub page: i64,
    pub per_page: i64,
}

/// A library entry as it is shown: the entry and a summary of its game.
#[derive(Debug)]
pub struct UserGameResponse {
    pub user_game_id: String,
    pub is_installed: bool,
    pub install_path: Option<String>,
    pub installed_at: Option<Timestamp>,
    pub last_played: Option<Timestamp>,
    pub play_time_minutes: i64,
    pub game: GameSummary,
}

#[derive(Debug)]
pub struct GameSummary {
    pub id: String,
    pub name: String,
    pub summary: Option<String>,
    pub rating: Option<Rating>,
    pub cover_url: Option<String>,
    pub genres: Option<String>,
    pub developer: Option<String>,
    pub publisher: Option<String>,
}

impl UserGameResponse {
    /// The shown form of a library entry that is joined with its game.
    pub open spec fn of(user_game: UserGameWithDetails) -> UserGameResponse {
        UserGameResponse {
            user_game_id: user_game.user_game_id,
            is_installed: user_game.is_installed,
            install_path: user_game.install_path,
            installed_at: user_game.installed_at,
            last_played: user_game.last_played,
            play_time_minutes: user_game.play_time_minutes,
            game: GameSummary {
                id: user_game.id,
                name: user_game.name,
                summary: user_game.summary,
                rating: user_game.rating,
                cover_url: user_game.cover_url,
                genres: user_game.genres,
                developer: user_game.developer,
                publisher: user_game.publisher,
            },
        }
    }
}

impl From<UserGameWithDetails> for UserGameResponse {
    fn from(user_game: UserGameWithDetails) -> (response: UserGameResponse) {
        UserGameResponse {
            user_game_id: user_game.user_game_id,
            is_installed: user_game.is_installed,
            install_path: user_game.install_path,
            installed_at: user_game.installed_at,
            last_played: user_game.last_played,
            play_time_minutes: user_game.play_time_minutes,
            game: GameSummary {
                id: user_game.id,
                name: user_game.name,
                summary: user_game.summary,
                rating: user_game.rating,
                cover_url: user_game.cover_url,
                genres: user_game.genres,
                developer: user_game.developer,
                publisher: user_game.publisher,
            },
        }
    }
}

impl vstd::std_specs::convert::FromSpecImpl<UserGameWithDetails> for UserGameResponse {
    open spec fn obeys_from_spec() -> bool {
        true
    }

    open spec fn from_spec(user_game: UserGameWithDetails) -> UserGameResponse {
        UserGameResponse::of(user_game)
    }
}

/// The entries of a page as they are shown.
pub open spec fn shown_entries(entries: Seq<UserGameWithDetails>) -> Seq<UserGameResponse> {
    entries.map_values(|entry: UserGameWithDetails| UserGameResponse::of(entry))
}

/// One page of the store: the available games.
pub fn get_store_games(state: &AppStateInner, user: &User, params: PaginationQuery) -> (r: Result<
    ApiResponse<GameListResponse>,
    ApiError,
>)
    requires
        state.wf(),
    ensures
        ({
            &&& r matches Ok(response)
            &&& response.data matches Some(list)
            &&& response.success
            &&& response.error is None
            &&& (list.games@, list.total) == state.db@.available_page(
                params.page_or_default(),
                params.per_page_or_default(),
            )
            &&& list.page == params.page_or_default()
            &&& list.per_page == params.per_page_or_default()
        }),
{
    let (page, per_page) = params.resolve();
    match state.db.get_available_games(page, per_page) {
        Ok((games, total)) => Ok(
            ApiResponse::success(GameListResponse { games, total, page, per_page }),
        ),
        Err(_) => Err(ApiError::InternalError),
    }
}

/// The answer to an install: `Created` where the entry was written,
/// `NotFound` where the game cannot be installed.
pub open spec fn install_status(outcome: Result<bool, DbError>) -> Result<StatusCode, ApiError> {
    match outcome {
        Ok(true) => Ok(StatusCode::Created),
        Ok(false) => Err(ApiError::NotFound),
        Err(_) => Err(ApiError::InternalError),
    }
}

/// The answer to an uninstall: `NoContent` where there was an entry,
/// `NotFound` where there was none.
pub open spec fn uninstall_status(outcome: Result<bool, DbError>) -> Result<StatusCode, ApiError> {
    match outcome {
        Ok(true) => Ok(StatusCode::NoContent),
        Ok(false) => Err(ApiError::NotFound),
        Err(_) => Err(ApiError::InternalError),
    }
}

/// Installs a game into the caller's library.
pub fn install_game(
    state: &mut AppStateInner,
    user: &User,
    game_id: &str,
    request: InstallGameRequest,
) -> (r: Result<StatusCode, ApiError>)
    requires
        old(state).wf(),
    ensures
        final(state).wf(),
        final(state).auth_service@ == old(state).auth_service@,
        !old(state).db@.installable(game_id@) ==> r == Err::<StatusCode, ApiError>(
            ApiError::NotFound,
        ),
        old(state).db@.installable(game_id@) && old(state).db@.has_entry(user.id@, game_id@) ==> r
            == Ok::<StatusCode, ApiError>(StatusCode::Created),
        r is Err ==> final(state).db@ == old(state).db@,
        exists|owner: String, game: String, entry_id: String, now: Timestamp|
            owner@ == user.id@ && game@ == game_id@ && entry_id@.len() == crate::ids::ID_LENGTH
                && now.on_the_clock() && r == install_status(
                old(state).db@.install_outcome(owner@, game@, entry_id@),
            ) && final(state).db@ == #[trigger] old(state).db@.after_install(
                owner,
                game,
                request.install_path,
                entry_id,
                now,
            ),
{
    match state.db.install_game_for_user(user.id.as_str(), game_id, request.install_path) {
        Ok(true) => Ok(StatusCode::Created),
        Ok(false) => Err(ApiError::NotFound),
        Err(_) => Err(ApiError::InternalError),
    }
}

/// Marks a game as uninstalled in the caller's library.
pub fn uninstall_game(state: &mut AppStateInner, user: &User, game_id: &str) -> (r: Result<
    StatusCode,
    ApiError,
>)
    requires
        old(state).wf(),
    ensures
        final(state).wf(),
        final(state).auth_service@ == old(state).auth_service@,
        r == uninstall_status(Ok::<bool, DbError>(old(state).db@.has_entry(user.id@, game_id@))),
        final(state).db@ == old(state).db@.after_uninstall(user.id@, game_id@),
{
    match state.db.uninstall_game_for_user(user.id.as_str(), game_id) {
        Ok(true) => Ok(StatusCode::NoContent),
        Ok(false) => Err(ApiError::NotFound),
        Err(_) => Err(ApiError::InternalError),
    }
}

/// One page of the caller's library.
pub fn get_user_library(state: &AppStateInner, user: &User, params: PaginationQuery) -> (r: Result<
    ApiResponse<UserLibraryResponse>,
    ApiError,
>)
    requires
        state.wf(),
    ensures
        ({
            let page = state.db@.library_page(
                user.id@,
                params.page_or_default(),
                params.per_page_or_default(),
            );
            &&& r matches Ok(response)
            &&& response.data matches Some(list)
            &&& response.success
            &&& response.error is None
            &&& list.games@ == shown_entries(page.0)
            &&& list.total == page.1
            &&& list.page == params.page_or_default()
            &&& list.per_page == params.per_page_or_default()
        }),
{
    let (page, per_page) = params.resolve();
    match state.db.get_user_library(user.id.as_str(), page, per_page) {
        Ok((entries, total)) => {
            let mut games: Vec<UserGameResponse> = Vec::new();
            let mut i: usize = 0;
            while i < entries.len()
                invariant
                    i <= entries.len(),
                    games.len() == i,
                    forall|j: int|
                        0 <= j < i ==> #[trigger] games@[j] == UserGameResponse::of(entries@[j]),
                decreases entries.len() - i,
            {
                let entry = &entries[i];
                games.push(
                    UserGameResponse {
                        user_game_id: entry.user_game_id.clone(),
                        is_installed: entry.is_installed,
                        install_path: crate::auth::clone_text(&entry.install_path),
                        installed_at: entry.installed_at,
                        last_played: entry.last_played,
                        play_time_minutes: entry.play_time_minutes,
                        game: GameSummary {
                            id: entry.id.clone(),
                            name: entry.name.clone(),
                            summary: crate::auth::clone_text(&entry.summary),
                            rating: entry.rating,
                            cover_url: crate::auth::clone_text(&entry.cover_url),
                            genres: crate::auth::clone_text(&entry.genres),
                            developer: crate::auth::clone_text(&entry.developer),
                            publisher: crate::auth::clone_text(&entry.publisher),
                        },
                    },
                );
                i = i + 1;
            }
            assert(games@ =~= shown_entries(entries@));
            Ok(ApiResponse::success(UserLibraryResponse { games, total, page, per_page }))
        },
        Err(_) => Err(ApiError::InternalError),
    }
}

/// The entry of the caller's library for a game, or `NotFound`.
pub fn get_user_game(state: &AppStateInner, user: &User, game_id: &str) -> (r: Result<
    ApiResponse<UserGameResponse>,
    ApiError,
>)
    requires
        state.wf(),
    ensures
        r == match state.db@.find_user_game(user.id@, game_id@) {
            Some(entry) => Ok::<ApiResponse<UserGameResponse>, ApiError>(
                ApiResponse::success_of(UserGameResponse::of(entry)),
            ),
            None => Err::<ApiResponse<UserGameResponse>, ApiError>(ApiError::NotFound),
        },
{
    match state.db.get_user_game(user.id.as_str(), game_id) {
        Ok(Some(entry)) => Ok(ApiResponse::success(UserGameResponse::from(entry))),
        Ok(None) => Err(ApiError::NotFound),
        Err(_) => Err(ApiError::InternalError),
    }
}

} // verus!
