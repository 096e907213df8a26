use game_library::database::{Database, DbError, UserGame};
use game_library::models::{CreateGameRequest, Game, UpdateGameRequest};
use game_library::time::Timestamp;

fn at(secs: i64) -> Timestamp {
    Timestamp::new(secs, 0)
}

fn new_game(name: &str) -> CreateGameRequest {
    CreateGameRequest { name: name.to_string(), igdb_id: None, file_path: None }
}

fn game_row(id: &str, created: i64, available: bool) -> Game {
    Game {
        id: id.to_string(),
        igdb_id: None,
        name: format!("Game {}", id),
        summary: None,
        storyline: None,
        rating: None,
        release_date: None,
        cover_url: None,
        screenshots: None,
        genres: None,
        platforms: None,
        developer: None,
        publisher: None,
        file_path: None,
        file_size: None,
        is_installed: false,
        is_available: available,
        added_by: None,
        created_at: at(created),
        updated_at: at(created),
    }
}

fn catalog_of(n: i64) -> Database {
    let mut db = Database::new();
    for i in 1..=n {
        db.create_game_with(new_game(&format!("Game {}", i)), format!("g{}", i), at(i)).unwrap();
    }
    db
}

fn ids(games: &[Game]) -> Vec<String> {
    games.iter().map(|g| g.id.clone()).collect()
}

#[test]
fn a_new_game_is_available_and_bare() {
    let mut db = Database::new();
    let game = db
        .create_game_with(
            CreateGameRequest {
                name: "Doom".to_string(),
                igdb_id: Some(7),
                file_path: Some("/games/doom".to_string()),
            },
            "g1".to_string(),
            at(42),
        )
        .unwrap();
    assert_eq!(game.id, "g1");
    assert_eq!(game.name, "Doom");
    assert_eq!(game.igdb_id, Some(7));
    assert_eq!(game.file_path.as_deref(), Some("/games/doom"));
    assert_eq!(game.file_size, None);
    assert!(game.is_available);
    assert!(!game.is_installed);
    assert_eq!(game.added_by, None);
    assert_eq!(game.summary, None);
    assert_eq!(game.developer, None);
    assert_eq!(game.created_at, at(42));
    assert_eq!(game.updated_at, at(42));
    assert_eq!(db.get_game_by_id("g1").unwrap().unwrap().name, "Doom");
}

#[test]
fn create_game_draws_an_id_and_reads_the_clock() {
    let mut db = Database::new();
    let first = db.create_game(new_game("A")).unwrap();
    let second = db.create_game(new_game("B")).unwrap();
    assert_eq!(first.id.len(), 36);
    assert_ne!(first.id, second.id);
    assert!(first.created_at.secs > 1_600_000_000);
    assert_eq!(db.get_games(1, 20).unwrap().1, 2);
}

#[test]
fn a_game_id_that_is_taken_is_refused() {
    let mut db = catalog_of(1);
    let clash = db.create_game_with(new_game("Other"), "g1".to_string(), at(9));
    assert_eq!(clash.err(), Some(DbError::DuplicateKey));
    assert_eq!(db.get_games(1, 20).unwrap().1, 1);
}

#[test]
fn an_unknown_game_is_not_found() {
    let db = catalog_of(2);
    assert!(db.get_game_by_id("g3").unwrap().is_none());
    assert!(db.get_game_by_id("").unwrap().is_none());
}

#[test]
fn the_second_page_of_twenty_five_games() {
    let db = catalog_of(25);
    let (games, total) = db.get_games(2, 10).unwrap();
    assert_eq!(total, 25);
    assert_eq!(games.len(), 10);
    let expected: Vec<String> = (6..=15).rev().map(|i| format!("g{}", i)).collect();
    assert_eq!(ids(&games), expected);
}

#[test]
fn the_first_and_the_last_page() {
    let db = catalog_of(25);
    let (first, _) = db.get_games(1, 10).unwrap();
    assert_eq!(first[0].id, "g25");
    assert_eq!(first[9].id, "g16");
    let (last, total) = db.get_games(3, 10).unwrap();
    assert_eq!(total, 25);
    assert_eq!(ids(&last), vec!["g5", "g4", "g3", "g2", "g1"]);
    let (beyond, total) = db.get_games(4, 10).unwrap();
    assert_eq!(total, 25);
    assert!(beyond.is_empty());
}

#[test]
fn pages_below_one_start_at_the_first_row() {
    let db = catalog_of(5);
    assert_eq!(ids(&db.get_games(0, 2).unwrap().0), vec!["g5", "g4"]);
    assert_eq!(ids(&db.get_games(-3, 2).unwrap().0), vec!["g5", "g4"]);
    assert_eq!(ids(&db.get_games(i64::MIN, 2).unwrap().0), vec!["g5", "g4"]);
}

#[test]
fn page_sizes_at_the_edges() {
    let db = catalog_of(5);
    assert!(db.get_games(1, 0).unwrap().0.is_empty());
    assert_eq!(db.get_games(1, -1).unwrap().0.len(), 5);
    assert_eq!(db.get_games(2, -1).unwrap().0.len(), 5);
    assert_eq!(db.get_games(1, i64::MAX).unwrap().0.len(), 5);
    assert!(db.get_games(i64::MAX, i64::MAX).unwrap().0.is_empty());
    assert_eq!(db.get_games(i64::MIN, i64::MIN).unwrap().0.len(), 0);
}

#[test]
fn games_are_listed_by_creation_not_by_insertion() {
    let mut db = Database::new();
    for (id, created) in [("a", 30), ("b", 10), ("c", 20), ("d", 20)] {
        db.create_game_with(new_game(id), id.to_string(), at(created)).unwrap();
    }
    assert_eq!(ids(&db.get_games(1, 10).unwrap().0), vec!["a", "d", "c", "b"]);
    assert_eq!(ids(&db.games()), vec!["b", "c", "d", "a"]);
}

#[test]
fn the_store_shows_available_games_only() {
    let db = Database::from_rows(
        vec![
            game_row("g1", 1, true),
            game_row("g2", 2, false),
            game_row("g3", 3, true),
            game_row("g4", 4, false),
            game_row("g5", 5, true),
        ],
        vec![],
    )
    .unwrap();
    let (games, total) = db.get_available_games(1, 2).unwrap();
    assert_eq!(total, 3);
    assert_eq!(ids(&games), vec!["g5", "g3"]);
    let (games, total) = db.get_available_games(2, 2).unwrap();
    assert_eq!(total, 3);
    assert_eq!(ids(&games), vec!["g1"]);
    assert_eq!(db.get_games(1, 20).unwrap().1, 5);
}

#[test]
fn an_update_changes_only_what_the_request_holds() {
    let mut db = Database::new();
    db.create_game_with(
        CreateGameRequest {
            name: "Old".to_string(),
            igdb_id: Some(3),
            file_path: Some("/old".to_string()),
        },
        "g1".to_string(),
        at(1),
    )
    .unwrap();
    let renamed = db
        .update_game_at(
            "g1",
            UpdateGameRequest { name: Some("New".to_string()), file_path: None, is_installed: None },
            at(50),
        )
        .unwrap()
        .unwrap();
    assert_eq!(renamed.name, "New");
    assert_eq!(renamed.file_path.as_deref(), Some("/old"));
    assert_eq!(renamed.updated_at, at(50));
    assert_eq!(renamed.created_at, at(1));
    assert_eq!(renamed.igdb_id, Some(3));
    let moved = db
        .update_game_at(
            "g1",
            UpdateGameRequest { name: None, file_path: Some("/new".to_string()), is_installed: None },
            at(60),
        )
        .unwrap()
        .unwrap();
    assert_eq!(moved.name, "New");
    assert_eq!(moved.file_path.as_deref(), Some("/new"));
    assert_eq!(moved.updated_at, at(60));
    assert_eq!(db.get_game_by_id("g1").unwrap().unwrap().file_path.as_deref(), Some("/new"));
}

#[test]
fn an_empty_update_stamps_the_time_and_nothing_else() {
    let mut db = catalog_of(1);
    let stamped = db
        .update_game_at(
            "g1",
            UpdateGameRequest { name: None, file_path: None, is_installed: None },
            at(99),
        )
        .unwrap()
        .unwrap();
    assert_eq!(stamped.name, "Game 1");
    assert_eq!(stamped.file_path, None);
    assert_eq!(stamped.updated_at, at(99));
    assert_eq!(stamped.created_at, at(1));
    assert_eq!(db.get_game_by_id("g1").unwrap().unwrap().updated_at, at(99));
}

#[test]
fn an_update_does_not_take_the_installed_flag() {
    let mut db = catalog_of(1);
    let same = db
        .update_game_at(
            "g1",
            UpdateGameRequest { name: None, file_path: None, is_installed: Some(true) },
            at(99),
        )
        .unwrap()
        .unwrap();
    assert!(!same.is_installed);
    assert_eq!(same.updated_at, at(99));
}

#[test]
fn updating_an_unknown_game_answers_nothing() {
    let mut db = catalog_of(1);
    let r = db.update_game_at(
        "g2",
        UpdateGameRequest { name: Some("X".to_string()), file_path: None, is_installed: None },
        at(5),
    );
    assert!(r.unwrap().is_none());
    let r = db.update_game(
        "g1",
        UpdateGameRequest { name: Some("Y".to_string()), file_path: None, is_installed: None },
    );
    let game = r.unwrap().unwrap();
    assert_eq!(game.name, "Y");
    assert!(game.updated_at.secs > 1_600_000_000);
}

#[test]
fn deleting_a_game_says_whether_it_was_there() {
    let mut db = catalog_of(3);
    assert_eq!(db.delete_game("g2"), Ok(true));
    assert_eq!(db.delete_game("g2"), Ok(false));
    assert_eq!(ids(&db.get_games(1, 10).unwrap().0), vec!["g3", "g1"]);
}

#[test]
fn deleting_a_game_takes_its_library_entries_along() {
    let mut db = catalog_of(2);
    db.install_game_for_user_with("u1".into(), "g1".into(), None, "e1".into(), at(10)).unwrap();
    db.install_game_for_user_with("u1".into(), "g2".into(), None, "e2".into(), at(11)).unwrap();
    db.install_game_for_user_with("u2".into(), "g1".into(), None, "e3".into(), at(12)).unwrap();
    assert_eq!(db.delete_game("g1"), Ok(true));
    let left: Vec<String> = db.user_games().into_iter().map(|e| e.id).collect();
    assert_eq!(left, vec!["e2"]);
    assert_eq!(db.get_user_library("u1", 1, 10).unwrap().1, 1);
    assert_eq!(db.get_user_library("u2", 1, 10).unwrap().1, 0);
}

fn entry_row(id: &str, user: &str, game: &str, created: i64, minutes: i64) -> UserGame {
    UserGame {
        id: id.to_string(),
        user_id: user.to_string(),
        game_id: game.to_string(),
        is_installed: true,
        install_path: None,
        installed_at: Some(at(created)),
        last_played: None,
        play_time_minutes: minutes,
        created_at: at(created),
    }
}

#[test]
fn from_rows_takes_rows_that_meet_the_database_invariant() {
    let db = Database::from_rows(
        vec![game_row("g1", 1, true), game_row("g2", 1, false)],
        vec![entry_row("e1", "u1", "g1", 5, 0), entry_row("e2", "u1", "g2", 6, 90)],
    )
    .unwrap();
    assert_eq!(db.games().len(), 2);
    assert_eq!(db.get_user_library("u1", 1, 10).unwrap().1, 2);
}

#[test]
fn from_rows_refuses_rows_that_break_the_database_invariant() {
    let games = || vec![game_row("g1", 1, true), game_row("g2", 2, true)];
    assert!(Database::from_rows(vec![game_row("g1", 1, true), game_row("g1", 2, true)], vec![])
        .is_none());
    assert!(Database::from_rows(vec![game_row("g1", 2, true), game_row("g2", 1, true)], vec![])
        .is_none());
    assert!(Database::from_rows(games(), vec![entry_row("e1", "u1", "g3", 5, 0)]).is_none());
    assert!(Database::from_rows(games(), vec![entry_row("e1", "u1", "g1", 5, -1)]).is_none());
    assert!(Database::from_rows(
        games(),
        vec![entry_row("e1", "u1", "g1", 5, 0), entry_row("e1", "u1", "g2", 6, 0)]
    )
    .is_none());
    assert!(Database::from_rows(
        games(),
        vec![entry_row("e1", "u1", "g1", 5, 0), entry_row("e2", "u1", "g1", 6, 0)]
    )
    .is_none());
    assert!(Database::from_rows(
        games(),
        vec![entry_row("e1", "u1", "g1", 6, 0), entry_row("e2", "u1", "g2", 5, 0)]
    )
    .is_none());
    assert!(Database::from_rows(
        games(),
        vec![entry_row("e1", "u1", "g1", 5, 0), entry_row("e2", "u2", "g1", 5, 0)]
    )
    .is_some());
}
