//! The catalog store and the library store: games, and for each account the
//! games it has installed.

use vstd::prelude::*;
use crate::auth::clone_text;
use crate::ids::{fresh_id, ID_LENGTH};
use crate::metadata::{denormalize, GameMetadata};
use crate::models::{CreateGameRequest, Game, IgdbGame, Rating, UpdateGameRequest};
use crate::table::{
    all_distinct, all_pairs_distinct, count_rows, distinct_pairs, distinct_texts,
    find_insertion_index, holds_text, is_oldest_first, insertion_index, lemma_filter_keeps_order,
    lemma_filter_places, lemma_insert_keeps_order, lemma_insertion_index_splits,
    lemma_page_rows_stand_in_table, newest_first, oldest_first, page_newest_first, page_of,
    row_count, Row,
};
use crate::time::{clock_now, Timestamp};

verus! {

/// What the stores refuse.
#[derive(Clone, Copy, Debug, PartialEq, Eq, Structural)]
pub enum DbError {
    /// A row with this id exists already.
    DuplicateKey,
    /// Play time can only grow, and only as far as the counter reaches.
    CounterOutOfRange,
}

/// The entry of one game in the library of one account.
#[derive(Debug)]
pub struct UserGame {
    pub id: String,
    pub user_id: String,
    pub game_id: String,
    pub is_installed: bool,
    pub install_path: Option<String>,
    pub installed_at: Option<Timestamp>,
    pub last_played: Option<Timestamp>,
    /// Minutes played in all. The counter never goes down.
    pub play_time_minutes: i64,
    pub created_at: Timestamp,
}

impl Clone for UserGame {
    fn clone(&self) -> (copy: UserGame)
        ensures
            copy == *self,
    {
        UserGame {
            id: self.id.clone(),
            user_id: self.user_id.clone(),
            game_id: self.game_id.clone(),
            is_installed: self.is_installed,
            install_path: clone_text(&self.install_path),
            installed_at: self.installed_at,
            last_played: self.last_played,
            play_time_minutes: self.play_time_minutes,
            created_at: self.created_at,
        }
    }
}

impl Row for UserGame {
    open spec fn created(&self) -> Timestamp {
        self.created_at
    }

    fn created_at(&self) -> (t: Timestamp) {
        self.created_at
    }

    fn copy(&self) -> (row: UserGame) {
        self.clone()
    }
}

/// A library entry joined with its game.
#[derive(Debug)]
pub struct UserGameWithDetails {
    pub user_game_id: String,
    pub is_installed: bool,
    pub install_path: Option<String>,
    pub installed_at: Option<Timestamp>,
    pub last_played: Option<Timestamp>,
    pub play_time_minutes: i64,
    pub id: String,
    pub igdb_id: Option<i64>,
    pub name: String,
    pub summary: Option<String>,
    pub storyline: Option<String>,
    pub rating: Option<Rating>,
    pub release_date: Option<Timestamp>,
    pub cover_url: Option<String>,
    pub screenshots: Option<String>,
    pub genres: Option<String>,
    pub platforms: Option<String>,
    pub developer: Option<String>,
    pub publisher: Option<String>,
    pub file_path: Option<String>,
    pub file_size: Option<i64>,
    pub is_available: bool,
    pub added_by: Option<String>,
    pub created_at: Timestamp,
    pub updated_at: Timestamp,
}

impl UserGameWithDetails {
    /// The join of an entry with its game.
    pub open spec fn of(entry: UserGame, game: Game) -> UserGameWithDetails {
        UserGameWithDetails {
            user_game_id: entry.id,
            is_installed: entry.is_installed,
            install_path: entry.install_path,
            installed_at: entry.installed_at,
            last_played: entry.last_played,
            play_time_minutes: entry.play_time_minutes,
            id: game.id,
            igdb_id: game.igdb_id,
            name: game.name,
            summary: game.summary,
            storyline: game.storyline,
            rating: game.rating,
            release_date: game.release_date,
            cover_url: game.cover_url,
            screenshots: game.screenshots,
            genres: game.genres,
            platforms: game.platforms,
            developer: game.developer,
            publisher: game.publisher,
            file_path: game.file_path,
            file_size: game.file_size,
            is_available: game.is_available,
            added_by: game.added_by,
            created_at: game.created_at,
            updated_at: game.updated_at,
        }
    }

    /// Joins an entry with its game.
    pub fn join(entry: &UserGame, game: &Game) -> (joined: UserGameWithDetails)
        ensures
            joined == Self::of(*entry, *game),
    {
        UserGameWithDetails {
            user_game_id: entry.id.clone(),
            is_installed: entry.is_installed,
            install_path: clone_text(&entry.install_path),
            installed_at: entry.installed_at,
            last_played: entry.last_played,
            play_time_minutes: entry.play_time_minutes,
            id: game.id.clone(),
            igdb_id: game.igdb_id,
            name: game.name.clone(),
            summary: clone_text(&game.summary),
            storyline: clone_text(&game.storyline),
            rating: game.rating,
            release_date: game.release_date,
            cover_url: clone_text(&game.cover_url),
            screenshots: clone_text(&game.screenshots),
            genres: clone_text(&game.genres),
            platforms: clone_text(&game.platforms),
            developer: clone_text(&game.developer),
            publisher: clone_text(&game.publisher),
            file_path: clone_text(&game.file_path),
            file_size: game.file_size,
            is_available: game.is_available,
            added_by: clone_text(&game.added_by),
            created_at: game.created_at,
            updated_at: game.updated_at,
        }
    }
}

/// The games that are available.
pub open spec fn available() -> spec_fn(Game) -> bool {
    |g: Game| g.is_available
}

/// The games other than `id`.
pub open spec fn other_game(id: Seq<char>) -> spec_fn(Game) -> bool {
    |g: Game| g.id@ != id
}

/// The entries of the account `user_id`.
pub open spec fn owned_by(user_id: Seq<char>) -> spec_fn(UserGame) -> bool {
    |e: UserGame| e.user_id@ == user_id
}

/// The entries of every account but `user_id`.
pub open spec fn owned_by_others(user_id: Seq<char>) -> spec_fn(UserGame) -> bool {
    |e: UserGame| e.user_id@ != user_id
}

/// The entries for every game but `game_id`.
pub open spec fn for_other_games(game_id: Seq<char>) -> spec_fn(UserGame) -> bool {
    |e: UserGame| e.game_id@ != game_id
}

/// The catalog and the libraries, as the contracts see them.
pub struct DbState {
    pub games: Seq<Game>,
    pub user_games: Seq<UserGame>,
}

impl DbState {
    pub open spec fn has_game(self, id: Seq<char>) -> bool {
        exists|i: int| 0 <= i < self.games.len() && (#[trigger] self.games[i]).id@ == id
    }

    /// Where the game `id` stands in the catalog, where it is in it.
    pub open spec fn game_index(self, id: Seq<char>) -> int {
        choose|i: int| 0 <= i < self.games.len() && (#[trigger] self.games[i]).id@ == id
    }

    /// The game `id`, where the catalog has it.
    pub open spec fn game_with_id(self, id: Seq<char>) -> Game {
        self.games[self.game_index(id)]
    }

    /// The game `id` as a lookup answers it.
    pub open spec fn find_game(self, id: Seq<char>) -> Option<Game> {
        if self.has_game(id) {
            Some(self.game_with_id(id))
        } else {
            None
        }
    }

    pub open spec fn has_entry_id(self, id: Seq<char>) -> bool {
        exists|i: int| 0 <= i < self.user_games.len() && (#[trigger] self.user_games[i]).id@ == id
    }

    pub open spec fn has_entry(self, user_id: Seq<char>, game_id: Seq<char>) -> bool {
        exists|i: int|
            0 <= i < self.user_games.len() && (#[trigger] self.user_games[i]).user_id@ == user_id
                && self.user_games[i].game_id@ == game_id
    }

    /// Where the entry of `user_id` for `game_id` stands, where there is one.
    pub open spec fn entry_index(self, user_id: Seq<char>, game_id: Seq<char>) -> int {
        choose|i: int|
            0 <= i < self.user_games.len() && (#[trigger] self.user_games[i]).user_id@ == user_id
                && self.user_games[i].game_id@ == game_id
    }

    /// The entry of `user_id` for `game_id`, where there is one.
    pub open spec fn entry_of(self, user_id: Seq<char>, game_id: Seq<char>) -> UserGame {
        self.user_games[self.entry_index(user_id, game_id)]
    }

    /// No two games share an id.
    pub open spec fn distinct_game_ids(self) -> bool {
        forall|i: int, j: int|
            0 <= i < j < self.games.len() ==> (#[trigger] self.games[i]).id@ != (
            #[trigger] self.games[j]).id@
    }

    /// No two entries share an id.
    pub open spec fn distinct_entry_ids(self) -> bool {
        forall|i: int, j: int|
            0 <= i < j < self.user_games.len() ==> (#[trigger] self.user_games[i]).id@ != (
            #[trigger] self.user_games[j]).id@
    }

    /// An account has at most one entry for a game.
    pub open spec fn one_entry_per_pair(self) -> bool {
        forall|i: int, j: int|
            0 <= i < j < self.user_games.len() ==> !((#[trigger] self.user_games[i]).user_id@ == (
            #[trigger] self.user_games[j]).user_id@ && self.user_games[i].game_id@
                == self.user_games[j].game_id@)
    }

    /// Every entry is for a game of the catalog.
    pub open spec fn entries_have_games(self) -> bool {
        forall|i: int|
            0 <= i < self.user_games.len() ==> self.has_game((#[trigger] self.user_games[i]).game_id@)
    }

    /// No play-time counter is negative.
    pub open spec fn counters_not_negative(self) -> bool {
        forall|i: int|
            0 <= i < self.user_games.len() ==> (#[trigger] self.user_games[i]).play_time_minutes >= 0
    }

    /// The invariant of the two stores.
    pub open spec fn wf(self) -> bool {
        &&& self.distinct_game_ids()
        &&& oldest_first(self.games)
        &&& self.distinct_entry_ids()
        &&& self.one_entry_per_pair()
        &&& oldest_first(self.user_games)
        &&& self.entries_have_games()
        &&& self.counters_not_negative()
    }

    /// The game that a creation request describes: it is available from the
    /// start and carries no metadata yet.
    pub open spec fn new_game(request: CreateGameRequest, id: String, now: Timestamp) -> Game {
        Game {
            id,
            igdb_id: request.igdb_id,
            name: request.name,
            summary: None,
            storyline: None,
            rating: None,
            release_date: None,
            cover_url: None,
            screenshots: None,
            genres: None,
            platforms: None,
            developer: None,
            publisher: None,
            file_path: request.file_path,
            file_size: None,
            is_installed: false,
            is_available: true,
            added_by: None,
            created_at: now,
            updated_at: now,
        }
    }

    /// What adding a game answers: its id must be new.
    pub open spec fn create_game_outcome(
        self,
        request: CreateGameRequest,
        id: String,
        now: Timestamp,
    ) -> Result<Game, DbError> {
        if self.has_game(id@) {
            Err(DbError::DuplicateKey)
        } else {
            Ok(Self::new_game(request, id, now))
        }
    }

    /// The stores after an attempt to add a game.
    pub open spec fn after_create_game(
        self,
        request: CreateGameRequest,
        id: String,
        now: Timestamp,
    ) -> DbState {
        match self.create_game_outcome(request, id, now) {
            Ok(game) => DbState {
                games: self.games.insert(insertion_index(self.games, now), game),
                user_games: self.user_games,
            },
            Err(_) => self,
        }
    }

    /// One page of the whole catalog, youngest first, and the number of games.
    pub open spec fn games_page(self, page: i64, per_page: i64) -> (Seq<Game>, i64) {
        (
            page_of(newest_first(self.games), page as int, per_page as int),
            row_count(self.games.len() as int),
        )
    }

    /// One page of the available games, youngest first, and their number.
    pub open spec fn available_page(self, page: i64, per_page: i64) -> (Seq<Game>, i64) {
        (
            page_of(newest_first(self.games.filter(available())), page as int, per_page as int),
            row_count(self.games.filter(available()).len() as int),
        )
    }

    /// A game after a partial update at `now`: the name and the file path
    /// change where the request holds them, the time of the last update
    /// becomes `now`, and nothing else changes.
    pub open spec fn changed_game(game: Game, request: UpdateGameRequest, now: Timestamp) -> Game {
        Game {
            name: match request.name {
                Some(name) => name,
                None => game.name,
            },
            file_path: match request.file_path {
                Some(path) => Some(path),
                None => game.file_path,
            },
            updated_at: now,
            ..game
        }
    }

    /// The stores after a partial update of the game `id`.
    pub open spec fn after_update_game(
        self,
        id: Seq<char>,
        request: UpdateGameRequest,
        now: Timestamp,
    ) -> DbState {
        if self.has_game(id) {
            DbState {
                games: self.games.update(
                    self.game_index(id),
                    Self::changed_game(self.game_with_id(id), request, now),
                ),
                user_games: self.user_games,
            }
        } else {
            self
        }
    }

    /// The stores without the game `id` and without the entries for it.
    pub open spec fn after_delete_game(self, id: Seq<char>) -> DbState {
        DbState {
            games: self.games.filter(other_game(id)),
            user_games: self.user_games.filter(for_other_games(id)),
        }
    }

    /// The stores without the entries of the account `user_id`.
    pub open spec fn after_forget_user(self, user_id: Seq<char>) -> DbState {
        DbState { games: self.games, user_games: self.user_games.filter(owned_by_others(user_id)) }
    }

    /// A game with fresh metadata: nothing but the metadata columns and the
    /// time of the last update changes.
    pub open spec fn described_game(game: Game, metadata: GameMetadata, now: Timestamp) -> Game {
        Game {
            summary: metadata.summary,
            storyline: metadata.storyline,
            rating: metadata.rating,
            release_date: metadata.release_date,
            cover_url: metadata.cover_url,
            screenshots: metadata.screenshots,
            genres: metadata.genres,
            platforms: metadata.platforms,
            developer: metadata.developer,
            publisher: metadata.publisher,
            updated_at: now,
            ..game
        }
    }

    /// The stores after the game `id` has taken fresh metadata.
    pub open spec fn after_metadata(
        self,
        id: Seq<char>,
        metadata: GameMetadata,
        now: Timestamp,
    ) -> DbState {
        if self.has_game(id) {
            DbState {
                games: self.games.update(
                    self.game_index(id),
                    Self::described_game(self.game_with_id(id), metadata, now),
                ),
                user_games: self.user_games,
            }
        } else {
            self
        }
    }

    /// Whether the game `game_id` can be installed: it exists and is available.
    pub open spec fn installable(self, game_id: Seq<char>) -> bool {
        self.has_game(game_id) && self.game_with_id(game_id).is_available
    }

    /// The first entry of an account for a game.
    pub open spec fn new_entry(
        user_id: String,
        game_id: String,
        install_path: Option<String>,
        entry_id: String,
        now: Timestamp,
    ) -> UserGame {
        UserGame {
            id: entry_id,
            user_id,
            game_id,
            is_installed: true,
            install_path,
            installed_at: Some(now),
            last_played: None,
            play_time_minutes: 0,
            created_at: now,
        }
    }

    /// An entry after the game has been installed again: play time and the
    /// time of the last play stay.
    pub open spec fn installed_entry(
        entry: UserGame,
        install_path: Option<String>,
        now: Timestamp,
    ) -> UserGame {
        UserGame { is_installed: true, install_path, installed_at: Some(now), ..entry }
    }

    /// What installing answers: `false` where the game cannot be installed,
    /// `true` where the entry was refreshed or created; a new entry needs a
    /// new id.
    pub open spec fn install_outcome(
        self,
        user_id: Seq<char>,
        game_id: Seq<char>,
        entry_id: Seq<char>,
    ) -> Result<bool, DbError> {
        if !self.installable(game_id) {
            Ok(false)
        } else if self.has_entry(user_id, game_id) {
            Ok(true)
        } else if self.has_entry_id(entry_id) {
            Err(DbError::DuplicateKey)
        } else {
            Ok(true)
        }
    }

    /// The stores after an attempt to install.
    pub open spec fn after_install(
        self,
        user_id: String,
        game_id: String,
        install_path: Option<String>,
        entry_id: String,
        now: Timestamp,
    ) -> DbState {
        if !self.installable(game_id@) {
            self
        } else if self.has_entry(user_id@, game_id@) {
            DbState {
                games: self.games,
                user_games: self.user_games.update(
                    self.entry_index(user_id@, game_id@),
                    Self::installed_entry(self.entry_of(user_id@, game_id@), install_path, now),
                ),
            }
        } else if self.has_entry_id(entry_id@) {
            self
        } else {
            DbState {
                games: self.games,
                user_games: self.user_games.insert(
                    insertion_index(self.user_games, now),
                    Self::new_entry(user_id, game_id, install_path, entry_id, now),
                ),
            }
        }
    }

    /// An entry after the game has been uninstalled: the row stays, with its
    /// play time and the time of the last play.
    pub open spec fn uninstalled_entry(entry: UserGame) -> UserGame {
        UserGame { is_installed: false, install_path: None, ..entry }
    }

    /// The stores after an attempt to uninstall.
    pub open spec fn after_uninstall(self, user_id: Seq<char>, game_id: Seq<char>) -> DbState {
        if self.has_entry(user_id, game_id) {
            DbState {
                games: self.games,
                user_games: self.user_games.update(
                    self.entry_index(user_id, game_id),
                    Self::uninstalled_entry(self.entry_of(user_id, game_id)),
                ),
            }
        } else {
            self
        }
    }

    /// What adding play time answers: `false` where there is no entry; the
    /// minutes must not be negative, and the sum must fit the counter.
    pub open spec fn playtime_outcome(
        self,
        user_id: Seq<char>,
        game_id: Seq<char>,
        additional_minutes: i64,
    ) -> Result<bool, DbError> {
        if !self.has_entry(user_id, game_id) {
            Ok(false)
        } else if additional_minutes < 0 || self.entry_of(user_id, game_id).play_time_minutes
            + additional_minutes > i64::MAX {
            Err(DbError::CounterOutOfRange)
        } else {
            Ok(true)
        }
    }

    /// An entry after a play of `additional_minutes` that ended at `now`.
    pub open spec fn played_entry(entry: UserGame, additional_minutes: i64, now: Timestamp) -> UserGame {
        UserGame {
            play_time_minutes: (entry.play_time_minutes + additional_minutes) as i64,
            last_played: Some(now),
            ..entry
        }
    }

    /// The stores after an attempt to add play time.
    pub open spec fn after_playtime(
        self,
        user_id: Seq<char>,
        game_id: Seq<char>,
        additional_minutes: i64,
        now: Timestamp,
    ) -> DbState {
        if self.playtime_outcome(user_id, game_id, additional_minutes) == Ok::<bool, DbError>(true) {
            DbState {
                games: self.games,
                user_games: self.user_games.update(
                    self.entry_index(user_id, game_id),
                    Self::played_entry(self.entry_of(user_id, game_id), additional_minutes, now),
                ),
            }
        } else {
            self
        }
    }

    /// An entry joined with its game.
    pub open spec fn details_of(self, entry: UserGame) -> UserGameWithDetails {
        UserGameWithDetails::of(entry, self.game_with_id(entry.game_id@))
    }

    /// The entry of an account for a game, joined with the game.
    pub open spec fn find_user_game(self, user_id: Seq<char>, game_id: Seq<char>) -> Option<
        UserGameWithDetails,
    > {
        if self.has_entry(user_id, game_id) {
            Some(self.details_of(self.entry_of(user_id, game_id)))
        } else {
            None
        }
    }

    /// One page of the library of an account, the youngest entry first, each
    /// entry joined with its game, and the number of entries of the account.
    pub open spec fn library_page(self, user_id: Seq<char>, page: i64, per_page: i64) -> (
        Seq<UserGameWithDetails>,
        i64,
    ) {
        (
            page_of(
                newest_first(self.user_games.filter(owned_by(user_id))),
                page as int,
                per_page as int,
            ).map_values(|entry: UserGame| self.details_of(entry)),
            row_count(self.user_games.filter(owned_by(user_id)).len() as int),
        )
    }
}

/// Under the invariant, an id names the one game that carries it, and a pair
/// of account and game names the one entry for it.
pub proof fn lemma_keys_are_exact(state: DbState, i: int)
    requires
        state.wf(),
    ensures
        0 <= i < state.games.len() ==> state.has_game(state.games[i].id@) && state.game_index(
            state.games[i].id@,
        ) == i,
        0 <= i < state.user_games.len() ==> state.has_entry(
            state.user_games[i].user_id@,
            state.user_games[i].game_id@,
        ) && state.entry_index(state.user_games[i].user_id@, state.user_games[i].game_id@) == i
            && state.has_entry_id(state.user_games[i].id@),
{
    if 0 <= i < state.games.len() {
        let c = state.game_index(state.games[i].id@);
        if c < i {
            assert(state.games[c].id@ != state.games[i].id@);
        } else if i < c {
            assert(state.games[i].id@ != state.games[c].id@);
        }
    }
    if 0 <= i < state.user_games.len() {
        let c = state.entry_index(state.user_games[i].user_id@, state.user_games[i].game_id@);
        if c < i {
            assert(!(state.user_games[c].user_id@ == state.user_games[i].user_id@
                && state.user_games[c].game_id@ == state.user_games[i].game_id@));
        } else if i < c {
            assert(!(state.user_games[i].user_id@ == state.user_games[c].user_id@
                && state.user_games[i].game_id@ == state.user_games[c].game_id@));
        }
    }
}

/// A game with a new id may join the catalog.
pub proof fn lemma_create_game_keeps_invariant(
    state: DbState,
    request: CreateGameRequest,
    id: String,
    now: Timestamp,
)
    requires
        state.wf(),
    ensures
        state.after_create_game(request, id, now).wf(),
{
    if state.create_game_outcome(request, id, now) is Ok {
        let game = DbState::new_game(request, id, now);
        let k = insertion_index(state.games, now);
        lemma_insertion_index_splits(state.games, now);
        lemma_insert_keeps_order(state.games, game);
        let after = state.after_create_game(request, id, now);
        assert forall|i: int, j: int| 0 <= i < j < after.games.len() implies (
        #[trigger] after.games[i]).id@ != (#[trigger] after.games[j]).id@ by {
            let a = if i < k { i } else { i - 1 };
            let b = if j < k { j } else { j - 1 };
            if i == k {
                assert(after.games[j] == state.games[b]);
            } else if j == k {
                assert(after.games[i] == state.games[a]);
            } else {
                assert(after.games[i] == state.games[a] && after.games[j] == state.games[b]);
            }
        }
        assert forall|e: int| 0 <= e < after.user_games.len() implies after.has_game(
            (#[trigger] after.user_games[e]).game_id@,
        ) by {
            let g = state.game_index(state.user_games[e].game_id@);
            let moved = if g < k { g } else { g + 1 };
            assert(after.games[moved] == state.games[g]);
        }
    }
}

/// A game may be replaced by one with the same id and time of creation.
pub proof fn lemma_changed_game_keeps_invariant(state: DbState, i: int, game: Game)
    requires
        state.wf(),
        0 <= i < state.games.len(),
        game.id@ == state.games[i].id@,
        game.created_at == state.games[i].created_at,
    ensures
        (DbState { games: state.games.update(i, game), user_games: state.user_games }).wf(),
{
    let after = DbState { games: state.games.update(i, game), user_games: state.user_games };
    assert forall|a: int, b: int| 0 <= a < b < after.games.len() implies (#[trigger] after.games[a]).id@
        != (#[trigger] after.games[b]).id@ by {
        assert(after.games[a].id@ == state.games[a].id@);
        assert(after.games[b].id@ == state.games[b].id@);
    }
    assert forall|a: int, b: int| 0 <= a <= b < after.games.len() implies (
    #[trigger] after.games[a]).created().at_or_before((#[trigger] after.games[b]).created()) by {
        assert(after.games[a].created() == state.games[a].created());
        assert(after.games[b].created() == state.games[b].created());
    }
    assert forall|e: int| 0 <= e < after.user_games.len() implies after.has_game(
        (#[trigger] after.user_games[e]).game_id@,
    ) by {
        let g = state.game_index(state.user_games[e].game_id@);
        assert(after.games[g].id@ == state.games[g].id@);
    }
}

/// An entry may be replaced by one for the same account and game, with the
/// same id and time of creation, whose counter is not negative.
pub proof fn lemma_changed_entry_keeps_invariant(state: DbState, i: int, entry: UserGame)
    requires
        state.wf(),
        0 <= i < state.user_games.len(),
        entry.id@ == state.user_games[i].id@,
        entry.user_id@ == state.user_games[i].user_id@,
        entry.game_id@ == state.user_games[i].game_id@,
        entry.created_at == state.user_games[i].created_at,
        entry.play_time_minutes >= 0,
    ensures
        (DbState { games: state.games, user_games: state.user_games.update(i, entry) }).wf(),
{
    let after = DbState { games: state.games, user_games: state.user_games.update(i, entry) };
    assert forall|a: int, b: int| 0 <= a < b < after.user_games.len() implies (
    #[trigger] after.user_games[a]).id@ != (#[trigger] after.user_games[b]).id@ && !(
    after.user_games[a].user_id@ == after.user_games[b].user_id@ && after.user_games[a].game_id@
        == after.user_games[b].game_id@) by {
        assert(after.user_games[a].id@ == state.user_games[a].id@);
        assert(after.user_games[b].id@ == state.user_games[b].id@);
    }
    assert forall|a: int, b: int| 0 <= a <= b < after.user_games.len() implies (
    #[trigger] after.user_games[a]).created().at_or_before(
        (#[trigger] after.user_games[b]).created(),
    ) by {
        assert(after.user_games[a].created() == state.user_games[a].created());
        assert(after.user_games[b].created() == state.user_games[b].created());
    }
    assert forall|e: int| 0 <= e < after.user_games.len() implies after.has_game(
        (#[trigger] after.user_games[e]).game_id@,
    ) && after.user_games[e].play_time_minutes >= 0 by {
        assert(after.user_games[e].game_id@ == state.user_games[e].game_id@);
    }
}

/// A first entry for an account and a game of the catalog may join the
/// library under a new id.
pub proof fn lemma_new_entry_keeps_invariant(state: DbState, entry: UserGame)
    requires
        state.wf(),
        !state.has_entry(entry.user_id@, entry.game_id@),
        !state.has_entry_id(entry.id@),
        state.has_game(entry.game_id@),
        entry.play_time_minutes >= 0,
    ensures
        (DbState {
            games: state.games,
            user_games: state.user_games.insert(
                insertion_index(state.user_games, entry.created_at),
                entry,
            ),
        }).wf(),
{
    let k = insertion_index(state.user_games, entry.created_at);
    lemma_insertion_index_splits(state.user_games, entry.created_at);
    lemma_insert_keeps_order(state.user_games, entry);
    let after = DbState { games: state.games, user_games: state.user_games.insert(k, entry) };
    assert forall|i: int, j: int| 0 <= i < j < after.user_games.len() implies (
    #[trigger] after.user_games[i]).id@ != (#[trigger] after.user_games[j]).id@ && !(
    after.user_games[i].user_id@ == after.user_games[j].user_id@ && after.user_games[i].game_id@
        == after.user_games[j].game_id@) by {
        let a = if i < k { i } else { i - 1 };
        let b = if j < k { j } else { j - 1 };
        if i == k {
            assert(after.user_games[j] == state.user_games[b]);
        } else if j == k {
            assert(after.user_games[i] == state.user_games[a]);
        } else {
            assert(after.user_games[i] == state.user_games[a] && after.user_games[j]
                == state.user_games[b]);
        }
    }
    assert forall|e: int| 0 <= e < after.user_games.len() implies after.has_game(
        (#[trigger] after.user_games[e]).game_id@,
    ) && after.user_games[e].play_time_minutes >= 0 by {
        if e < k {
            assert(after.user_games[e] == state.user_games[e]);
        } else if e > k {
            assert(after.user_games[e] == state.user_games[e - 1]);
        }
    }
}

/// Dropping entries keeps the invariant.
pub proof fn lemma_fewer_entries_keep_invariant(state: DbState, keep: spec_fn(UserGame) -> bool)
    requires
        state.wf(),
    ensures
        (DbState { games: state.games, user_games: state.user_games.filter(keep) }).wf(),
{
    let places = lemma_filter_places(state.user_games, keep);
    let kept = state.user_games.filter(keep);
    lemma_filter_keeps_order(state.user_games, keep);
    assert forall|i: int, j: int| 0 <= i < j < kept.len() implies (#[trigger] kept[i]).id@ != (
    #[trigger] kept[j]).id@ && !(kept[i].user_id@ == kept[j].user_id@ && kept[i].game_id@
        == kept[j].game_id@) by {
        assert(places[i] < places[j]);
        assert(kept[i] == state.user_games[places[i]] && kept[j] == state.user_games[places[j]]);
    }
    assert forall|e: int| 0 <= e < kept.len() implies state.has_game((#[trigger] kept[e]).game_id@)
        && kept[e].play_time_minutes >= 0 by {
        assert(kept[e] == state.user_games[places[e]]);
    }
}

/// Deleting a game together with the entries for it keeps the invariant.
pub proof fn lemma_delete_game_keeps_invariant(state: DbState, id: Seq<char>)
    requires
        state.wf(),
    ensures
        state.after_delete_game(id).wf(),
{
    let fewer = DbState {
        games: state.games,
        user_games: state.user_games.filter(for_other_games(id)),
    };
    lemma_fewer_entries_keep_invariant(state, for_other_games(id));
    let entry_places = lemma_filter_places(state.user_games, for_other_games(id));
    let places = lemma_filter_places(state.games, other_game(id));
    let after = state.after_delete_game(id);
    lemma_filter_keeps_order(state.games, other_game(id));
    assert forall|i: int, j: int| 0 <= i < j < after.games.len() implies (#[trigger] after.games[i]).id@
        != (#[trigger] after.games[j]).id@ by {
        assert(places[i] < places[j]);
        assert(after.games[i] == state.games[places[i]] && after.games[j] == state.games[places[j]]);
    }
    assert forall|e: int| 0 <= e < after.user_games.len() implies after.has_game(
        (#[trigger] after.user_games[e]).game_id@,
    ) by {
        assert(after.user_games[e] == state.user_games[entry_places[e]]);
        let g = state.game_index(after.user_games[e].game_id@);
        assert(other_game(id)(state.games[g]));
        let k = choose|k: int| 0 <= k < places.len() && #[trigger] places[k] == g;
        assert(after.games[k] == state.games[g]);
    }
}

/// The catalog store and the library store.
pub struct Database {
    games: Vec<Game>,
    user_games: Vec<UserGame>,
}

impl View for Database {
    type V = DbState;

    closed spec fn view(&self) -> DbState {
        DbState { games: self.games@, user_games: self.user_games@ }
    }
}

impl Database {
    /// The invariant of the database: that of its two stores.
    pub open spec fn wf(&self) -> bool {
        self@.wf()
    }

    /// A database with no games and no entries.
    pub fn new() -> (db: Database)
        ensures
            db.wf(),
            db@.games.len() == 0,
            db@.user_games.len() == 0,
    {
        Database { games: Vec::new(), user_games: Vec::new() }
    }

    /// A database over stored rows, if they meet the invariant: no id twice,
    /// one entry for an account and a game, every entry for a game of the
    /// catalog, no negative counter, and both tables oldest first.
    pub fn from_rows(games: Vec<Game>, user_games: Vec<UserGame>) -> (loaded: Option<Database>)
        ensures
            match loaded {
                Some(db) => db.wf() && db@ == (DbState { games: games@, user_games: user_games@ }),
                None => !(DbState { games: games@, user_games: user_games@ }).wf(),
            },
    {
        let ghost state = DbState { games: games@, user_games: user_games@ };
        let mut game_ids: Vec<String> = Vec::new();
        let mut i: usize = 0;
        while i < games.len()
            invariant
                i <= games.len(),
                game_ids.len() == i,
                forall|j: int| 0 <= j < i ==> (#[trigger] game_ids@[j])@ == games@[j].id@,
            decreases games.len() - i,
        {
            game_ids.push(games[i].id.clone());
            i = i + 1;
        }
        let mut entry_ids: Vec<String> = Vec::new();
        let mut pairs: Vec<(String, String)> = Vec::new();
        let mut sound: bool = true;
        let mut k: usize = 0;
        while k < user_games.len()
            invariant
                k <= user_games.len(),
                entry_ids.len() == k,
                pairs.len() == k,
                game_ids.len() == games.len(),
                state == (DbState { games: games@, user_games: user_games@ }),
                forall|j: int| 0 <= j < game_ids.len() ==> (#[trigger] game_ids@[j])@ == games@[j].id@,
                forall|j: int| 0 <= j < k ==> (#[trigger] entry_ids@[j])@ == user_games@[j].id@,
                forall|j: int|
                    0 <= j < k ==> (#[trigger] pairs@[j]).0@ == user_games@[j].user_id@ && pairs@[j].1@
                        == user_games@[j].game_id@,
                sound <==> forall|j: int|
                    0 <= j < k ==> state.has_game((#[trigger] user_games@[j]).game_id@)
                        && user_games@[j].play_time_minutes >= 0,
            decreases user_games.len() - k,
        {
            let known = holds_text(&game_ids, &user_games[k].game_id);
            proof {
                let wanted = user_games@[k as int].game_id@;
                if known {
                    let g = choose|g: int| 0 <= g < game_ids.len() && (#[trigger] game_ids@[g])@ == wanted;
                    assert(state.games[g].id@ == wanted);
                } else if state.has_game(wanted) {
                    let g = state.game_index(wanted);
                    assert(game_ids@[g]@ == wanted);
                }
            }
            if !known || user_games[k].play_time_minutes < 0 {
                sound = false;
            }
            entry_ids.push(user_games[k].id.clone());
            pairs.push((user_games[k].user_id.clone(), user_games[k].game_id.clone()));
            k = k + 1;
        }
        let games_fine = all_distinct(&game_ids);
        let entries_fine = all_distinct(&entry_ids);
        let pairs_fine = all_pairs_distinct(&pairs);
        let games_ordered = is_oldest_first(&games);
        let entries_ordered = is_oldest_first(&user_games);
        proof {
            assert(distinct_texts(game_ids@) <==> state.distinct_game_ids()) by {
                if distinct_texts(game_ids@) {
                    assert forall|a: int, b: int| 0 <= a < b < state.games.len() implies (
                    #[trigger] state.games[a]).id@ != (#[trigger] state.games[b]).id@ by {
                        assert(game_ids@[a]@ != game_ids@[b]@);
                    }
                }
                if state.distinct_game_ids() {
                    assert forall|a: int, b: int| 0 <= a < b < game_ids.len() implies (
                    #[trigger] game_ids@[a])@ != (#[trigger] game_ids@[b])@ by {
                        assert(state.games[a].id@ != state.games[b].id@);
                    }
                }
            }
            assert(distinct_texts(entry_ids@) <==> state.distinct_entry_ids()) by {
                if distinct_texts(entry_ids@) {
                    assert forall|a: int, b: int| 0 <= a < b < state.user_games.len() implies (
                    #[trigger] state.user_games[a]).id@ != (#[trigger] state.user_games[b]).id@ by {
                        assert(entry_ids@[a]@ != entry_ids@[b]@);
                    }
                }
                if state.distinct_entry_ids() {
                    assert forall|a: int, b: int| 0 <= a < b < entry_ids.len() implies (
                    #[trigger] entry_ids@[a])@ != (#[trigger] entry_ids@[b])@ by {
                        assert(state.user_games[a].id@ != state.user_games[b].id@);
                    }
                }
            }
            assert(distinct_pairs(pairs@) <==> state.one_entry_per_pair()) by {
                if distinct_pairs(pairs@) {
                    assert forall|a: int, b: int| 0 <= a < b < state.user_games.len() implies !((
                    #[trigger] state.user_games[a]).user_id@ == (
                    #[trigger] state.user_games[b]).user_id@ && state.user_games[a].game_id@
                        == state.user_games[b].game_id@) by {
                        assert(!(pairs@[a].0@ == pairs@[b].0@ && pairs@[a].1@ == pairs@[b].1@));
                    }
                }
                if state.one_entry_per_pair() {
                    assert forall|a: int, b: int| 0 <= a < b < pairs.len() implies !((
                    #[trigger] pairs@[a]).0@ == (#[trigger] pairs@[b]).0@ && pairs@[a].1@
                        == pairs@[b].1@) by {
                        assert(!(state.user_games[a].user_id@ == state.user_games[b].user_id@
                            && state.user_games[a].game_id@ == state.user_games[b].game_id@));
                    }
                }
            }
        }
        if sound && games_fine && entries_fine && pairs_fine && games_ordered && entries_ordered {
            Some(Database { games, user_games })
        } else {
            None
        }
    }

    /// Every game of the catalog, the oldest first.
    pub fn games(&self) -> (rows: Vec<Game>)
        ensures
            rows@ == self@.games,
    {
        let mut rows: Vec<Game> = Vec::new();
        let mut i: usize = 0;
        while i < self.games.len()
            invariant
                i <= self.games.len(),
                rows@ == self.games@.subrange(0, i as int),
            decreases self.games.len() - i,
        {
            rows.push(self.games[i].clone());
            assert(rows@ =~= self.games@.subrange(0, i + 1));
            i = i + 1;
        }
        assert(self.games@.subrange(0, i as int) =~= self.games@);
        rows
    }

    /// Every library entry, the oldest first.
    pub fn user_games(&self) -> (rows: Vec<UserGame>)
        ensures
            rows@ == self@.user_games,
    {
        let mut rows: Vec<UserGame> = Vec::new();
        let mut i: usize = 0;
        while i < self.user_games.len()
            invariant
                i <= self.user_games.len(),
                rows@ == self.user_games@.subrange(0, i as int),
            decreases self.user_games.len() - i,
        {
            rows.push(self.user_games[i].clone());
            assert(rows@ =~= self.user_games@.subrange(0, i + 1));
            i = i + 1;
        }
        assert(self.user_games@.subrange(0, i as int) =~= self.user_games@);
        rows
    }

    fn locate_game(&self, id: &String) -> (found: Option<usize>)
        requires
            self.wf(),
        ensures
            match found {
                Some(i) => i < self@.games.len() && self@.games[i as int].id@ == id@
                    && self@.has_game(id@) && self@.game_index(id@) == i,
                None => !self@.has_game(id@),
            },
    {
        let mut i: usize = 0;
        while i < self.games.len()
            invariant
                self.wf(),
                i <= self.games.len(),
                forall|j: int| 0 <= j < i ==> (#[trigger] self.games@[j]).id@ != id@,
            decreases self.games.len() - i,
        {
            if self.games[i].id == *id {
                proof {
                    lemma_keys_are_exact(self@, i as int);
                }
                return Some(i);
            }
            i = i + 1;
        }
        None
    }

    fn locate_entry(&self, user_id: &String, game_id: &String) -> (found: Option<usize>)
        requires
            self.wf(),
        ensures
            match found {
                Some(i) => i < self@.user_games.len() && self@.user_games[i as int].user_id@
                    == user_id@ && self@.user_games[i as int].game_id@ == game_id@
                    && self@.has_entry(user_id@, game_id@) && self@.entry_index(user_id@, game_id@)
                    == i,
                None => !self@.has_entry(user_id@, game_id@),
            },
    {
        let mut i: usize = 0;
        while i < self.user_games.len()
            invariant
                self.wf(),
                i <= self.user_games.len(),
                forall|j: int|
                    0 <= j < i ==> !((#[trigger] self.user_games@[j]).user_id@ == user_id@
                        && self.user_games@[j].game_id@ == game_id@),
            decreases self.user_games.len() - i,
        {
            if self.user_games[i].user_id == *user_id && self.user_games[i].game_id == *game_id {
                proof {
                    lemma_keys_are_exact(self@, i as int);
                }
                return Some(i);
            }
            i = i + 1;
        }
        None
    }

    fn locate_entry_id(&self, id: &String) -> (found: Option<usize>)
        ensures
            match found {
                Some(i) => i < self@.user_games.len() && self@.user_games[i as int].id@ == id@,
                None => !self@.has_entry_id(id@),
            },
    {
        let mut i: usize = 0;
        while i < self.user_games.len()
            invariant
                i <= self.user_games.len(),
                forall|j: int| 0 <= j < i ==> (#[trigger] self.user_games@[j]).id@ != id@,
            decreases self.user_games.len() - i,
        {
            if self.user_games[i].id == *id {
                return Some(i);
            }
            i = i + 1;
        }
        None
    }

    /// Adds a game to the catalog under the given id.
    pub fn create_game_with(&mut self, request: CreateGameRequest, id: String, now: Timestamp) -> (r:
        Result<Game, DbError>)
        requires
            old(self).wf(),
        ensures
            final(self).wf(),
            r == old(self)@.create_game_outcome(request, id, now),
            final(self)@ == old(self)@.after_create_game(request, id, now),
    {
        if self.locate_game(&id).is_some() {
            return Err(DbError::DuplicateKey);
        }
        let game = Game {
            id,
            igdb_id: request.igdb_id,
            name: request.name,
            summary: None,
            storyline: None,
            rating: None,
            release_date: None,
            cover_url: None,
            screenshots: None,
            genres: None,
            platforms: None,
            developer: None,
            publisher: None,
            file_path: request.file_path,
            file_size: None,
            is_installed: false,
            is_available: true,
            added_by: None,
            created_at: now,
            updated_at: now,
        };
        let stored = game.clone();
        let k = find_insertion_index(&self.games, now);
        proof {
            lemma_create_game_keeps_invariant(self@, request, id, now);
        }
        self.games.insert(k, stored);
        Ok(game)
    }

    /// Adds a game to the catalog: the id is drawn at random and the clock
    /// gives the time of creation.
    pub fn create_game(&mut self, request: CreateGameRequest) -> (r: Result<Game, DbError>)
        requires
            old(self).wf(),
        ensures
            final(self).wf(),
            exists|id: String, now: Timestamp|
                id@.len() == ID_LENGTH && now.on_the_clock() && r == old(self)@.create_game_outcome(
                    request,
                    id,
                    now,
                ) && final(self)@ == #[trigger] old(self)@.after_create_game(request, id, now),
            match r {
                Ok(game) => game.id@.len() == ID_LENGTH && game.created_at.on_the_clock() && r
                    == old(self)@.create_game_outcome(
                    request,
                    game.id,
                    game.created_at,
                )
                    && final(self)@ == old(self)@.after_create_game(
                    request,
                    game.id,
                    game.created_at,
                ),
                Err(e) => e == DbError::DuplicateKey && final(self)@ == old(self)@,
            },
    {
        let id = fresh_id();
        let now = clock_now();
        self.create_game_with(request, id, now)
    }

    /// The game `id`, where the catalog has it.
    pub fn get_game_by_id(&self, id: &str) -> (r: Result<Option<Game>, DbError>)
        requires
            self.wf(),
        ensures
            r == Ok::<Option<Game>, DbError>(self@.find_game(id@)),
    {
        let key = id.to_owned();
        match self.locate_game(&key) {
            Some(i) => Ok(Some(self.games[i].clone())),
            None => Ok(None),
        }
    }

    /// One page of the whole catalog, youngest first, with the number of games.
    pub fn get_games(&self, page: i64, per_page: i64) -> (r: Result<(Vec<Game>, i64), DbError>)
        ensures
            r matches Ok((games, total)) && (games@, total) == self@.games_page(page, per_page),
    {
        let games = page_newest_first(&self.games, page, per_page);
        Ok((games, count_rows(self.games.len())))
    }

    /// One page of the available games, youngest first, with their number.
    pub fn get_available_games(&self, page: i64, per_page: i64) -> (r: Result<
        (Vec<Game>, i64),
        DbError,
    >)
        ensures
            r matches Ok((games, total)) && (games@, total) == self@.available_page(page, per_page),
    {
        let mut shown: Vec<Game> = Vec::new();
        let mut i: usize = 0;
        assert(self.games@.subrange(0, 0) =~= Seq::<Game>::empty());
        while i < self.games.len()
            invariant
                i <= self.games.len(),
                shown@ == self.games@.subrange(0, i as int).filter(available()),
            decreases self.games.len() - i,
        {
            proof {
                let before = self.games@.subrange(0, i as int);
                assert(self.games@.subrange(0, i + 1) =~= before.push(self.games@[i as int]));
                before.lemma_filter_push(self.games@[i as int], available());
            }
            if self.games[i].is_available {
                shown.push(self.games[i].clone());
            }
            i = i + 1;
        }
        assert(self.games@.subrange(0, i as int) =~= self.games@);
        let games = page_newest_first(&shown, page, per_page);
        Ok((games, count_rows(shown.len())))
    }

    /// Changes the name and the file path of the game `id` where the request
    /// holds them, stamps the time of the update, and answers with the game
    /// as it then is.
    ///
    /// The request's `is_installed` is not part of a game's update.
    pub fn update_game_at(&mut self, id: &str, request: UpdateGameRequest, now: Timestamp) -> (r:
        Result<Option<Game>, DbError>)
        requires
            old(self).wf(),
        ensures
            final(self).wf(),
            final(self)@ == old(self)@.after_update_game(id@, request, now),
            r == Ok::<Option<Game>, DbError>(final(self)@.find_game(id@)),
            r == Ok::<Option<Game>, DbError>(
                if old(self)@.has_game(id@) {
                    Some(DbState::changed_game(old(self)@.game_with_id(id@), request, now))
                } else {
                    None
                },
            ),
    {
        let key = id.to_owned();
        match self.locate_game(&key) {
            None => Ok(None),
            Some(i) => {
                let mut game = self.games[i].clone();
                match request.name {
                    Some(name) => {
                        game.name = name;
                    },
                    None => {},
                }
                match request.file_path {
                    Some(path) => {
                        game.file_path = Some(path);
                    },
                    None => {},
                }
                game.updated_at = now;
                let answer = game.clone();
                proof {
                    lemma_changed_game_keeps_invariant(self@, i as int, game);
                }
                self.games.set(i, game);
                proof {
                    lemma_keys_are_exact(self@, i as int);
                }
                Ok(Some(answer))
            },
        }
    }

    /// Changes the game `id` as [`Database::update_game_at`] does, at the clock's time.
    pub fn update_game(&mut self, id: &str, request: UpdateGameRequest) -> (r: Result<
        Option<Game>,
        DbError,
    >)
        requires
            old(self).wf(),
        ensures
            final(self).wf(),
            exists|now: Timestamp|
                now.on_the_clock() && final(self)@ == #[trigger] old(self)@.after_update_game(
                    id@,
                    request,
                    now,
                ),
            r == Ok::<Option<Game>, DbError>(final(self)@.find_game(id@)),
    {
        let now = clock_now();
        self.update_game_at(id, request, now)
    }

    /// Deletes the game `id` together with the library entries for it, and
    /// says whether there was such a game.
    pub fn delete_game(&mut self, id: &str) -> (r: Result<bool, DbError>)
        requires
            old(self).wf(),
        ensures
            final(self).wf(),
            r == Ok::<bool, DbError>(old(self)@.has_game(id@)),
            final(self)@ == old(self)@.after_delete_game(id@),
    {
        let key = id.to_owned();
        let found = self.locate_game(&key).is_some();
        let mut games: Vec<Game> = Vec::new();
        let mut i: usize = 0;
        assert(self.games@.subrange(0, 0) =~= Seq::<Game>::empty());
        while i < self.games.len()
            invariant
                i <= self.games.len(),
                key@ == id@,
                games@ == self.games@.subrange(0, i as int).filter(other_game(id@)),
            decreases self.games.len() - i,
        {
            proof {
                let before = self.games@.subrange(0, i as int);
                assert(self.games@.subrange(0, i + 1) =~= before.push(self.games@[i as int]));
                before.lemma_filter_push(self.games@[i as int], other_game(id@));
            }
            if !(self.games[i].id == key) {
                games.push(self.games[i].clone());
            }
            i = i + 1;
        }
        let mut entries: Vec<UserGame> = Vec::new();
        let mut k: usize = 0;
        assert(self.user_games@.subrange(0, 0) =~= Seq::<UserGame>::empty());
        while k < self.user_games.len()
            invariant
                k <= self.user_games.len(),
                key@ == id@,
                entries@ == self.user_games@.subrange(0, k as int).filter(for_other_games(id@)),
            decreases self.user_games.len() - k,
        {
            proof {
                let before = self.user_games@.subrange(0, k as int);
                assert(self.user_games@.subrange(0, k + 1) =~= before.push(
                    self.user_games@[k as int],
                ));
                before.lemma_filter_push(self.user_games@[k as int], for_other_games(id@));
            }
            if !(self.user_games[k].game_id == key) {
                entries.push(self.user_games[k].clone());
            }
            k = k + 1;
        }
        proof {
            assert(self.games@.subrange(0, i as int) =~= self.games@);
            assert(self.user_games@.subrange(0, k as int) =~= self.user_games@);
            lemma_delete_game_keeps_invariant(self@, id@);
        }
        self.games = games;
        self.user_games = entries;
        Ok(found)
    }

    /// Drops the library of the account `user_id`, as when the account is deleted.
    pub fn forget_user(&mut self, user_id: &str)
        requires
            old(self).wf(),
        ensures
            final(self).wf(),
            final(self)@ == old(self)@.after_forget_user(user_id@),
    {
        let key = user_id.to_owned();
        let mut entries: Vec<UserGame> = Vec::new();
        let mut k: usize = 0;
        assert(self.user_games@.subrange(0, 0) =~= Seq::<UserGame>::empty());
        while k < self.user_games.len()
            invariant
                k <= self.user_games.len(),
                key@ == user_id@,
                entries@ == self.user_games@.subrange(0, k as int).filter(owned_by_others(user_id@)),
            decreases self.user_games.len() - k,
        {
            proof {
                let before = self.user_games@.subrange(0, k as int);
                assert(self.user_games@.subrange(0, k + 1) =~= before.push(
                    self.user_games@[k as int],
                ));
                before.lemma_filter_push(self.user_games@[k as int], owned_by_others(user_id@));
            }
            if !(self.user_games[k].user_id == key) {
                entries.push(self.user_games[k].clone());
            }
            k = k + 1;
        }
        proof {
            assert(self.user_games@.subrange(0, k as int) =~= self.user_games@);
            lemma_fewer_entries_keep_invariant(self@, owned_by_others(user_id@));
        }
        self.user_games = entries;
    }

    /// Writes fresh metadata onto the game `id`. A game that does not exist
    /// is no error: nothing changes then.
    pub fn apply_metadata(&mut self, id: &str, metadata: GameMetadata, now: Timestamp) -> (r: Result<
        (),
        DbError,
    >)
        requires
            old(self).wf(),
        ensures
            final(self).wf(),
            r == Ok::<(), DbError>(()),
            final(self)@ == old(self)@.after_metadata(id@, metadata, now),
    {
        let key = id.to_owned();
        match self.locate_game(&key) {
            None => Ok(()),
            Some(i) => {
                let mut game = self.games[i].clone();
                game.summary = metadata.summary;
                game.storyline = metadata.storyline;
                game.rating = metadata.rating;
                game.release_date = metadata.release_date;
                game.cover_url = metadata.cover_url;
                game.screenshots = metadata.screenshots;
                game.genres = metadata.genres;
                game.platforms = metadata.platforms;
                game.developer = metadata.developer;
                game.publisher = metadata.publisher;
                game.updated_at = now;
                proof {
                    lemma_changed_game_keeps_invariant(self@, i as int, game);
                }
                self.games.set(i, game);
                Ok(())
            },
        }
    }

    /// Refreshes the metadata of the game `id` from a provider record, at
    /// the clock's time.
    pub fn update_game_metadata(&mut self, id: &str, igdb_game: &IgdbGame) -> (r: Result<(), DbError>)
        requires
            old(self).wf(),
        ensures
            final(self).wf(),
            r == Ok::<(), DbError>(()),
            exists|metadata: GameMetadata, now: Timestamp|
                metadata.describes(*igdb_game) && now.on_the_clock() && final(self)@ == #[trigger] old(self)@.after_metadata(
                    id@,
                    metadata,
                    now,
                ),
    {
        let now = clock_now();
        let metadata = denormalize(igdb_game);
        self.apply_metadata(id, metadata, now)
    }

    /// Installs a game into the library of an account; `entry_id` is the id
    /// of the entry if a new one is needed.
    pub fn install_game_for_user_with(
        &mut self,
        user_id: String,
        game_id: String,
        install_path: Option<String>,
        entry_id: String,
        now: Timestamp,
    ) -> (r: Result<bool, DbError>)
        requires
            old(self).wf(),
        ensures
            final(self).wf(),
            r == old(self)@.install_outcome(user_id@, game_id@, entry_id@),
            final(self)@ == old(self)@.after_install(user_id, game_id, install_path, entry_id, now),
    {
        match self.locate_game(&game_id) {
            None => {
                return Ok(false);
            },
            Some(g) => {
                if !self.games[g].is_available {
                    return Ok(false);
                }
            },
        }
        match self.locate_entry(&user_id, &game_id) {
            Some(i) => {
                let mut entry = self.user_games[i].clone();
                entry.is_installed = true;
                entry.install_path = install_path;
                entry.installed_at = Some(now);
                proof {
                    lemma_changed_entry_keeps_invariant(self@, i as int, entry);
                }
                self.user_games.set(i, entry);
                Ok(true)
            },
            None => {
                if self.locate_entry_id(&entry_id).is_some() {
                    return Err(DbError::DuplicateKey);
                }
                let entry = UserGame {
                    id: entry_id,
                    user_id,
                    game_id,
                    is_installed: true,
                    install_path,
                    installed_at: Some(now),
                    last_played: None,
                    play_time_minutes: 0,
                    created_at: now,
                };
                let k = find_insertion_index(&self.user_games, now);
                proof {
                    lemma_new_entry_keeps_invariant(self@, entry);
                }
                self.user_games.insert(k, entry);
                Ok(true)
            },
        }
    }

    /// Installs a game into the library of an account: the id of a new
    /// entry is drawn at random and the clock gives the time.
    pub fn install_game_for_user(
        &mut self,
        user_id: &str,
        game_id: &str,
        install_path: Option<String>,
    ) -> (r: Result<bool, DbError>)
        requires
            old(self).wf(),
        ensures
            final(self).wf(),
            !old(self)@.installable(game_id@) ==> r == Ok::<bool, DbError>(false),
            old(self)@.installable(game_id@) && old(self)@.has_entry(user_id@, game_id@) ==> r == Ok::<
                bool,
                DbError,
            >(true),
            r != Ok::<bool, DbError>(true) ==> final(self)@ == old(self)@,
            exists|user: String, game: String, entry_id: String, now: Timestamp|
                user@ == user_id@ && game@ == game_id@ && entry_id@.len() == ID_LENGTH
                    && now.on_the_clock() && r == old(self)@.install_outcome(
                    user@,
                    game@,
                    entry_id@,
                ) && final(self)@ == #[trigger] old(self)@.after_install(
                    user,
                    game,
                    install_path,
                    entry_id,
                    now,
                ),
    {
        let entry_id = fresh_id();
        let now = clock_now();
        self.install_game_for_user_with(
            user_id.to_owned(),
            game_id.to_owned(),
            install_path,
            entry_id,
            now,
        )
    }

    /// Marks a game as uninstalled in the library of an account and says
    /// whether there was an entry. The entry stays, and so does its play time.
    pub fn uninstall_game_for_user(&mut self, user_id: &str, game_id: &str) -> (r: Result<
        bool,
        DbError,
    >)
        requires
            old(self).wf(),
        ensures
            final(self).wf(),
            r == Ok::<bool, DbError>(old(self)@.has_entry(user_id@, game_id@)),
            final(self)@ == old(self)@.after_uninstall(user_id@, game_id@),
    {
        let user = user_id.to_owned();
        let game = game_id.to_owned();
        match self.locate_entry(&user, &game) {
            None => Ok(false),
            Some(i) => {
                let mut entry = self.user_games[i].clone();
                entry.is_installed = false;
                entry.install_path = None;
                proof {
                    lemma_changed_entry_keeps_invariant(self@, i as int, entry);
                }
                self.user_games.set(i, entry);
                Ok(true)
            },
        }
    }

    /// The entry of an account for a game, joined with the game.
    pub fn get_user_game(&self, user_id: &str, game_id: &str) -> (r: Result<
        Option<UserGameWithDetails>,
        DbError,
    >)
        requires
            self.wf(),
        ensures
            r == Ok::<Option<UserGameWithDetails>, DbError>(self@.find_user_game(user_id@, game_id@)),
    {
        let user = user_id.to_owned();
        let game = game_id.to_owned();
        match self.locate_entry(&user, &game) {
            None => Ok(None),
            Some(i) => {
                match self.locate_game(&self.user_games[i].game_id) {
                    Some(g) => Ok(Some(UserGameWithDetails::join(&self.user_games[i], &self.games[g]))),
                    None => Ok(None),
                }
            },
        }
    }

    /// One page of the library of an account, the youngest entry first,
    /// with the number of entries of the account.
    pub fn get_user_library(&self, user_id: &str, page: i64, per_page: i64) -> (r: Result<
        (Vec<UserGameWithDetails>, i64),
        DbError,
    >)
        requires
            self.wf(),
        ensures
            r matches Ok((entries, total)) && (entries@, total) == self@.library_page(
                user_id@,
                page,
                per_page,
            ),
    {
        let key = user_id.to_owned();
        let mut mine: Vec<UserGame> = Vec::new();
        let mut i: usize = 0;
        assert(self.user_games@.subrange(0, 0) =~= Seq::<UserGame>::empty());
        while i < self.user_games.len()
            invariant
                i <= self.user_games.len(),
                key@ == user_id@,
                mine@ == self.user_games@.subrange(0, i as int).filter(owned_by(user_id@)),
            decreases self.user_games.len() - i,
        {
            proof {
                let before = self.user_games@.subrange(0, i as int);
                assert(self.user_games@.subrange(0, i + 1) =~= before.push(
                    self.user_games@[i as int],
                ));
                before.lemma_filter_push(self.user_games@[i as int], owned_by(user_id@));
            }
            if self.user_games[i].user_id == key {
                mine.push(self.user_games[i].clone());
            }
            i = i + 1;
        }
        assert(self.user_games@.subrange(0, i as int) =~= self.user_games@);
        let shown = page_newest_first(&mine, page, per_page);
        proof {
            lemma_page_rows_stand_in_table(
                self.user_games@,
                owned_by(user_id@),
                page as int,
                per_page as int,
            );
        }
        let mut entries: Vec<UserGameWithDetails> = Vec::new();
        let mut k: usize = 0;
        while k < shown.len()
            invariant
                self.wf(),
                k <= shown.len(),
                entries.len() == k,
                forall|j: int|
                    0 <= j < shown.len() ==> crate::table::stands_in(
                        self.user_games@,
                        owned_by(user_id@),
                        #[trigger] shown@[j],
                    ),
                forall|j: int| 0 <= j < k ==> #[trigger] entries@[j] == self@.details_of(shown@[j]),
            decreases shown.len() - k,
        {
            proof {
                let row = shown@[k as int];
                let e = choose|e: int|
                    0 <= e < self.user_games@.len() && #[trigger] self.user_games@[e] == row
                        && owned_by(user_id@)(self.user_games@[e]);
                assert(self@.has_game(self@.user_games[e].game_id@));
            }
            match self.locate_game(&shown[k].game_id) {
                Some(g) => {
                    entries.push(UserGameWithDetails::join(&shown[k], &self.games[g]));
                },
                None => {
                    assert(false);
                },
            }
            k = k + 1;
        }
        assert(entries@ =~= self@.library_page(user_id@, page, per_page).0);
        Ok((entries, count_rows(mine.len())))
    }

    /// Adds minutes to the play time of a game in the library of an account
    /// and stamps the time of the last play.
    pub fn update_user_game_playtime_at(
        &mut self,
        user_id: &str,
        game_id: &str,
        additional_minutes: i64,
        now: Timestamp,
    ) -> (r: Result<bool, DbError>)
        requires
            old(self).wf(),
        ensures
            final(self).wf(),
            r == old(self)@.playtime_outcome(user_id@, game_id@, additional_minutes),
            final(self)@ == old(self)@.after_playtime(user_id@, game_id@, additional_minutes, now),
    {
        let user = user_id.to_owned();
        let game = game_id.to_owned();
        match self.locate_entry(&user, &game) {
            None => Ok(false),
            Some(i) => {
                if additional_minutes < 0 {
                    return Err(DbError::CounterOutOfRange);
                }
                let total = match self.user_games[i].play_time_minutes.checked_add(additional_minutes) {
                    Some(total) => total,
                    None => {
                        return Err(DbError::CounterOutOfRange);
                    },
                };
                let mut entry = self.user_games[i].clone();
                entry.play_time_minutes = total;
                entry.last_played = Some(now);
                proof {
                    lemma_changed_entry_keeps_invariant(self@, i as int, entry);
                }
                self.user_games.set(i, entry);
                Ok(true)
            },
        }
    }

    /// Adds minutes to the play time of a game, at the clock's time.
    pub fn update_user_game_playtime(
        &mut self,
        user_id: &str,
        game_id: &str,
        additional_minutes: i64,
    ) -> (r: Result<bool, DbError>)
        requires
            old(self).wf(),
        ensures
            final(self).wf(),
            r == old(self)@.playtime_outcome(user_id@, game_id@, additional_minutes),
            exists|now: Timestamp|
                now.on_the_clock() && final(self)@ == #[trigger] old(self)@.after_playtime(
                    user_id@,
                    game_id@,
                    additional_minutes,
                    now,
                ),
    {
        let now = clock_now();
        self.update_user_game_playtime_at(user_id, game_id, additional_minutes, now)
    }
}

/// What a successful install leaves: the entry of the account for the game,
/// refreshed if there was one and new otherwise; no other row is added.
pub proof fn lemma_install_effect(
    state: DbState,
    user_id: String,
    game_id: String,
    install_path: Option<String>,
    entry_id: String,
    now: Timestamp,
)
    requires
        state.wf(),
        state.install_outcome(user_id@, game_id@, entry_id@) == Ok::<bool, DbError>(true),
    ensures
        ({
            let after = state.after_install(user_id, game_id, install_path, entry_id, now);
            &&& after.wf()
            &&& after.games == state.games
            &&& after.has_entry(user_id@, game_id@)
            &&& state.has_entry(user_id@, game_id@) ==> after.user_games.len()
                == state.user_games.len() && after.entry_of(user_id@, game_id@)
                == DbState::installed_entry(state.entry_of(user_id@, game_id@), install_path, now)
            &&& !state.has_entry(user_id@, game_id@) ==> after.user_games.len()
                == state.user_games.len() + 1 && after.entry_of(user_id@, game_id@)
                == DbState::new_entry(user_id, game_id, install_path, entry_id, now)
        }),
{
    let after = state.after_install(user_id, game_id, install_path, entry_id, now);
    if state.has_entry(user_id@, game_id@) {
        let i = state.entry_index(user_id@, game_id@);
        let entry = DbState::installed_entry(state.entry_of(user_id@, game_id@), install_path, now);
        lemma_changed_entry_keeps_invariant(state, i, entry);
        assert(after.user_games[i] == entry);
        lemma_keys_are_exact(after, i);
    } else {
        let entry = DbState::new_entry(user_id, game_id, install_path, entry_id, now);
        lemma_new_entry_keeps_invariant(state, entry);
        lemma_insertion_index_splits(state.user_games, now);
        let k = insertion_index(state.user_games, now);
        assert(after.user_games[k] == entry);
        lemma_keys_are_exact(after, k);
    }
}

/// What an uninstall leaves of an entry: the row itself, marked as not
/// installed and without a path.
pub proof fn lemma_uninstall_effect(state: DbState, user_id: Seq<char>, game_id: Seq<char>)
    requires
        state.wf(),
        state.has_entry(user_id, game_id),
    ensures
        ({
            let after = state.after_uninstall(user_id, game_id);
            &&& after.wf()
            &&& after.games == state.games
            &&& after.user_games.len() == state.user_games.len()
            &&& after.has_entry(user_id, game_id)
            &&& after.entry_of(user_id, game_id) == DbState::uninstalled_entry(
                state.entry_of(user_id, game_id),
            )
        }),
{
    let after = state.after_uninstall(user_id, game_id);
    let i = state.entry_index(user_id, game_id);
    let entry = DbState::uninstalled_entry(state.entry_of(user_id, game_id));
    lemma_changed_entry_keeps_invariant(state, i, entry);
    assert(after.user_games[i] == entry);
    lemma_keys_are_exact(after, i);
}

/// What added play time leaves of an entry: the counter grown by the
/// minutes, and the time of the last play.
pub proof fn lemma_playtime_effect(
    state: DbState,
    user_id: Seq<char>,
    game_id: Seq<char>,
    additional_minutes: i64,
    now: Timestamp,
)
    requires
        state.wf(),
        state.playtime_outcome(user_id, game_id, additional_minutes) == Ok::<bool, DbError>(true),
    ensures
        ({
            let after = state.after_playtime(user_id, game_id, additional_minutes, now);
            &&& after.wf()
            &&& after.games == state.games
            &&& after.user_games.len() == state.user_games.len()
            &&& after.has_entry(user_id, game_id)
            &&& after.entry_of(user_id, game_id) == DbState::played_entry(
                state.entry_of(user_id, game_id),
                additional_minutes,
                now,
            )
            &&& after.entry_of(user_id, game_id).play_time_minutes == state.entry_of(
                user_id,
                game_id,
            ).play_time_minutes + additional_minutes
        }),
{
    let after = state.after_playtime(user_id, game_id, additional_minutes, now);
    let i = state.entry_index(user_id, game_id);
    let entry = DbState::played_entry(state.entry_of(user_id, game_id), additional_minutes, now);
    lemma_changed_entry_keeps_invariant(state, i, entry);
    assert(after.user_games[i] == entry);
    lemma_keys_are_exact(after, i);
}

/// Installing twice: the second install succeeds, adds no row, leaves the
/// one entry of the account for the game with the path of the second call,
/// and keeps its play time.
pub proof fn lemma_install_twice(
    state: DbState,
    user_id: String,
    game_id: String,
    first_path: Option<String>,
    first_id: String,
    first_now: Timestamp,
    again_user: String,
    again_game: String,
    second_path: Option<String>,
    second_id: String,
    second_now: Timestamp,
)
    requires
        state.wf(),
        again_user@ == user_id@,
        again_game@ == game_id@,
        state.install_outcome(user_id@, game_id@, first_id@) == Ok::<bool, DbError>(true),
    ensures
        ({
            let between = state.after_install(user_id, game_id, first_path, first_id, first_now);
            let after = between.after_install(
                again_user,
                again_game,
                second_path,
                second_id,
                second_now,
            );
            &&& between.install_outcome(again_user@, again_game@, second_id@) == Ok::<bool, DbError>(
                true,
            )
            &&& after.wf()
            &&& after.user_games.len() == between.user_games.len()
            &&& after.has_entry(user_id@, game_id@)
            &&& after.entry_of(user_id@, game_id@).install_path == second_path
            &&& after.entry_of(user_id@, game_id@).is_installed
            &&& after.entry_of(user_id@, game_id@).play_time_minutes == between.entry_of(
                user_id@,
                game_id@,
            ).play_time_minutes
            &&& state.has_entry(user_id@, game_id@) ==> after.entry_of(
                user_id@,
                game_id@,
            ).play_time_minutes == state.entry_of(user_id@, game_id@).play_time_minutes
        }),
{
    let between = state.after_install(user_id, game_id, first_path, first_id, first_now);
    lemma_install_effect(state, user_id, game_id, first_path, first_id, first_now);
    lemma_install_effect(between, again_user, again_game, second_path, second_id, second_now);
}

/// Install, play, uninstall, install again: the play time is still what it
/// was after the play.
pub proof fn lemma_reinstall_keeps_play_time(
    state: DbState,
    user_id: String,
    game_id: String,
    first_path: Option<String>,
    first_id: String,
    first_now: Timestamp,
    additional_minutes: i64,
    played: Timestamp,
    second_path: Option<String>,
    second_id: String,
    second_now: Timestamp,
)
    requires
        state.wf(),
        state.install_outcome(user_id@, game_id@, first_id@) == Ok::<bool, DbError>(true),
        state.after_install(user_id, game_id, first_path, first_id, first_now).playtime_outcome(
            user_id@,
            game_id@,
            additional_minutes,
        ) == Ok::<bool, DbError>(true),
    ensures
        ({
            let installed = state.after_install(user_id, game_id, first_path, first_id, first_now);
            let after = installed.after_playtime(
                user_id@,
                game_id@,
                additional_minutes,
                played,
            ).after_uninstall(user_id@, game_id@).after_install(
                user_id,
                game_id,
                second_path,
                second_id,
                second_now,
            );
            &&& after.wf()
            &&& after.has_entry(user_id@, game_id@)
            &&& after.entry_of(user_id@, game_id@).is_installed
            &&& after.entry_of(user_id@, game_id@).play_time_minutes == installed.entry_of(
                user_id@,
                game_id@,
            ).play_time_minutes + additional_minutes
            &&& !state.has_entry(user_id@, game_id@) ==> after.entry_of(
                user_id@,
                game_id@,
            ).play_time_minutes == additional_minutes
            &&& after.entry_of(user_id@, game_id@).last_played == Some(played)
        }),
{
    let installed = state.after_install(user_id, game_id, first_path, first_id, first_now);
    lemma_install_effect(state, user_id, game_id, first_path, first_id, first_now);
    let played_state = installed.after_playtime(user_id@, game_id@, additional_minutes, played);
    lemma_playtime_effect(installed, user_id@, game_id@, additional_minutes, played);
    let removed = played_state.after_uninstall(user_id@, game_id@);
    lemma_uninstall_effect(played_state, user_id@, game_id@);
    lemma_install_effect(removed, user_id, game_id, second_path, second_id, second_now);
}

/// Refreshing metadata touches neither the library nor, in the game, its
/// availability, its file, its owner, its name or its ids.
pub proof fn lemma_metadata_leaves_the_rest(
    state: DbState,
    id: Seq<char>,
    metadata: GameMetadata,
    now: Timestamp,
)
    requires
        state.wf(),
    ensures
        ({
            let after = state.after_metadata(id, metadata, now);
            &&& after.wf()
            &&& after.user_games == state.user_games
            &&& after.games.len() == state.games.len()
            &&& forall|i: int|
                0 <= i < state.games.len() && i != state.game_index(id) ==> #[trigger] after.games[i]
                    == state.games[i]
            &&& state.has_game(id) ==> {
                let before = state.game_with_id(id);
                let game = after.game_with_id(id);
                &&& after.has_game(id)
                &&& game.is_available == before.is_available
                &&& game.file_path == before.file_path
                &&& game.file_size == before.file_size
                &&& game.added_by == before.added_by
                &&& game.is_installed == before.is_installed
                &&& game.id == before.id
                &&& game.igdb_id == before.igdb_id
                &&& game.name == before.name
                &&& game.created_at == before.created_at
                &&& game.developer == metadata.developer
                &&& game.publisher == metadata.publisher
            }
        }),
{
    if state.has_game(id) {
        let after = state.after_metadata(id, metadata, now);
        let i = state.game_index(id);
        let game = DbState::described_game(state.game_with_id(id), metadata, now);
        lemma_changed_game_keeps_invariant(state, i, game);
        assert(after.games[i] == game);
        lemma_keys_are_exact(after, i);
    }
}

/// Play time only grows: whatever is done to the library of an account, the
/// counter of an entry that was there is not below what it was.
pub proof fn lemma_play_time_only_grows(
    state: DbState,
    user_id: String,
    game_id: String,
    install_path: Option<String>,
    entry_id: String,
    additional_minutes: i64,
    now: Timestamp,
)
    requires
        state.wf(),
        state.has_entry(user_id@, game_id@),
    ensures
        ({
            let before = state.entry_of(user_id@, game_id@).play_time_minutes;
            let installed = state.after_install(user_id, game_id, install_path, entry_id, now);
            let removed = state.after_uninstall(user_id@, game_id@);
            let played = state.after_playtime(user_id@, game_id@, additional_minutes, now);
            &&& before >= 0
            &&& installed.has_entry(user_id@, game_id@)
            &&& installed.entry_of(user_id@, game_id@).play_time_minutes == before
            &&& removed.has_entry(user_id@, game_id@)
            &&& removed.entry_of(user_id@, game_id@).play_time_minutes == before
            &&& played.has_entry(user_id@, game_id@)
            &&& played.entry_of(user_id@, game_id@).play_time_minutes >= before
        }),
{
    lemma_keys_are_exact(state, state.entry_index(user_id@, game_id@));
    if state.install_outcome(user_id@, game_id@, entry_id@) == Ok::<bool, DbError>(true) {
        lemma_install_effect(state, user_id, game_id, install_path, entry_id, now);
    }
    lemma_uninstall_effect(state, user_id@, game_id@);
    if state.playtime_outcome(user_id@, game_id@, additional_minutes) == Ok::<bool, DbError>(true) {
        lemma_playtime_effect(state, user_id@, game_id@, additional_minutes, now);
    }
}

/// The store shows available games only, and every page of it is cut from
/// the catalog.
pub proof fn lemma_store_shows_available_games(state: DbState, page: i64, per_page: i64)
    ensures
        forall|k: int|
            0 <= k < state.available_page(page, per_page).0.len() ==> (
            #[trigger] state.available_page(page, per_page).0[k]).is_available && state.has_game(
                state.available_page(page, per_page).0[k].id@,
            ),
{
    lemma_page_rows_stand_in_table(state.games, available(), page as int, per_page as int);
    let shown = state.available_page(page, per_page).0;
    assert forall|k: int| 0 <= k < shown.len() implies (#[trigger] shown[k]).is_available
        && state.has_game(shown[k].id@) by {
        let row = shown[k];
        assert(crate::table::stands_in(state.games, available(), row));
        let i = choose|i: int|
            0 <= i < state.games.len() && #[trigger] state.games[i] == row && available()(
                state.games[i],
            );
        assert(state.games[i].id@ == row.id@);
    }
}

/// After a game is deleted it is gone, and so is every entry for it; the
/// other games stay.
pub proof fn lemma_deleted_game_is_gone(state: DbState, id: Seq<char>, other: Seq<char>)
    requires
        state.wf(),
    ensures
        state.after_delete_game(id).wf(),
        !state.after_delete_game(id).has_game(id),
        forall|i: int|
            0 <= i < state.after_delete_game(id).user_games.len() ==> (
            #[trigger] state.after_delete_game(id).user_games[i]).game_id@ != id,
        other != id && state.has_game(other) ==> state.after_delete_game(id).has_game(other)
            && state.after_delete_game(id).game_with_id(other) == state.game_with_id(other),
{
    let after = state.after_delete_game(id);
    lemma_delete_game_keeps_invariant(state, id);
    let places = lemma_filter_places(state.games, other_game(id));
    let entry_places = lemma_filter_places(state.user_games, for_other_games(id));
    assert forall|i: int| 0 <= i < after.games.len() implies (#[trigger] after.games[i]).id@ != id by {
        assert(after.games[i] == state.games[places[i]]);
    }
    assert forall|i: int| 0 <= i < after.user_games.len() implies (
    #[trigger] after.user_games[i]).game_id@ != id by {
        assert(after.user_games[i] == state.user_games[entry_places[i]]);
    }
    if other != id && state.has_game(other) {
        let g = state.game_index(other);
        assert(other_game(id)(state.games[g]));
        let k = choose|k: int| 0 <= k < places.len() && #[trigger] places[k] == g;
        assert(after.games[k] == state.games[g]);
        lemma_keys_are_exact(after, k);
    }
}

} // verus!
