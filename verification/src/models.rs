//! The catalog entry, the requests that create and change it, and the record
//! that the catalog provider returns for a game.

use vstd::prelude::*;
use crate::auth::clone_text;
use crate::table::Row;
use crate::time::Timestamp;

verus! {

/// A score on the provider's scale, carried as the bit pattern of its
/// IEEE-754 double. The library hands it on and never computes with it.
#[derive(Clone, Copy, Debug, PartialEq, Eq, Structural)]
pub struct Rating {
    pub bits: u64,
}

/// A game of the catalog.
#[derive(Debug)]
pub struct Game {
    pub id: String,
    pub igdb_id: Option<i64>,
    pub name: String,
    pub summary: Option<String>,
    pub storyline: Option<String>,
    pub rating: Option<Rating>,
    pub release_date: Option<Timestamp>,
    pub cover_url: Option<String>,
    /// A JSON array of screenshot addresses.
    pub screenshots: Option<String>,
    /// A JSON array of genres, each with its id and name.
    pub genres: Option<String>,
    /// A JSON array of platforms, each with its id and name.
    pub platforms: Option<String>,
    pub developer: Option<String>,
    pub publisher: Option<String>,
    pub file_path: Option<String>,
    pub file_size: Option<i64>,
    pub is_installed: bool,
    /// Only available games show in the store and can be installed.
    pub is_available: bool,
    /// The account that added the game, where it is known.
    pub added_by: Option<String>,
    pub created_at: Timestamp,
    pub updated_at: Timestamp,
}

impl Clone for Game {
    fn clone(&self) -> (copy: Game)
        ensures
            copy == *self,
    {
        Game {
            id: self.id.clone(),
            igdb_id: self.igdb_id,
            name: self.name.clone(),
            summary: clone_text(&self.summary),
            storyline: clone_text(&self.storyline),
            rating: self.rating,
            release_date: self.release_date,
            cover_url: clone_text(&self.cover_url),
            screenshots: clone_text(&self.screenshots),
            genres: clone_text(&self.genres),
            platforms: clone_text(&self.platforms),
            developer: clone_text(&self.developer),
            publisher: clone_text(&self.publisher),
            file_path: clone_text(&self.file_path),
            file_size: self.file_size,
            is_installed: self.is_installed,
            is_available: self.is_available,
            added_by: clone_text(&self.added_by),
            created_at: self.created_at,
            updated_at: self.updated_at,
        }
    }
}

impl Row for Game {
    open spec fn created(&self) -> Timestamp {
        self.created_at
    }

    fn created_at(&self) -> (t: Timestamp) {
        self.created_at
    }

    fn copy(&self) -> (row: Game) {
        self.clone()
    }
}

#[derive(Debug)]
pub struct CreateGameRequest {
    pub name: String,
    pub igdb_id: Option<i64>,
    pub file_path: Option<String>,
}

/// A partial update: a field that is absent is left as it is.
#[derive(Debug)]
pub struct UpdateGameRequest {
    pub name: Option<String>,
    pub file_path: Option<String>,
    pub is_installed: Option<bool>,
}

/// One page of the catalog together with the number of games in all.
#[derive(Debug)]
pub struct GameListResponse {
    pub games: Vec<Game>,
    pub total: i64,
    pub page: i64,
    pub per_page: i64,
}

/// A game as the catalog provider describes it.
#[derive(Debug)]
pub struct IgdbGame {
    pub id: i64,
    pub name: String,
    pub summary: Option<String>,
    pub storyline: Option<String>,
    pub rating: Option<Rating>,
    /// Seconds since the Unix epoch.
    pub first_release_date: Option<i64>,
    pub cover: Option<IgdbCover>,
    pub screenshots: Option<Vec<IgdbScreenshot>>,
    pub genres: Option<Vec<IgdbGenre>>,
    pub platforms: Option<Vec<IgdbPlatform>>,
    pub involved_companies: Option<Vec<IgdbInvolvedCompany>>,
}

#[derive(Debug)]
pub struct IgdbCover {
    pub id: i64,
    pub url: String,
}

#[derive(Debug)]
pub struct IgdbScreenshot {
    pub id: i64,
    pub url: String,
}

#[derive(Debug)]
pub struct IgdbGenre {
    pub id: i64,
    pub name: String,
}

#[derive(Debug)]
pub struct IgdbPlatform {
    pub id: i64,
    pub name: String,
}

#[derive(Debug)]
pub struct IgdbInvolvedCompany {
    pub company: IgdbCompany,
    pub developer: bool,
    pub publisher: bool,
}

#[derive(Debug)]
pub struct IgdbCompany {
    pub id: i64,
    pub name: String,
}

} // verus!
