use game_library::database::Database;
use game_library::metadata::{
    cover_address, denormalize, encode_items, encoded_or_empty, first_developer, first_publisher,
    genre_list, named_item, platform_list, screenshot_address, screenshot_list, GameMetadata,
    JsonItem,
};
use game_library::models::{
    CreateGameRequest, IgdbCompany, IgdbCover, IgdbGame, IgdbGenre, IgdbInvolvedCompany,
    IgdbPlatform, IgdbScreenshot, Rating,
};
use game_library::time::{Timestamp, MAX_CALENDAR_SECOND, MIN_CALENDAR_SECOND};

fn bare(id: i64) -> IgdbGame {
    IgdbGame {
        id,
        name: "Record".to_string(),
        summary: None,
        storyline: None,
        rating: None,
        first_release_date: None,
        cover: None,
        screenshots: None,
        genres: None,
        platforms: None,
        involved_companies: None,
    }
}

fn company(id: i64, name: &str, developer: bool, publisher: bool) -> IgdbInvolvedCompany {
    IgdbInvolvedCompany { company: IgdbCompany { id, name: name.to_string() }, developer, publisher }
}

#[test]
fn a_bare_record_flattens_to_nothing() {
    let m = denormalize(&bare(1));
    assert_eq!(m.summary, None);
    assert_eq!(m.storyline, None);
    assert_eq!(m.rating, None);
    assert_eq!(m.release_date, None);
    assert_eq!(m.cover_url, None);
    assert_eq!(m.screenshots, None);
    assert_eq!(m.genres, None);
    assert_eq!(m.platforms, None);
    assert_eq!(m.developer, None);
    assert_eq!(m.publisher, None);
}

#[test]
fn the_cover_address_is_rewritten() {
    assert_eq!(
        cover_address("//images.igdb.com/igdb/image/upload/t_thumb/co1abc.jpg"),
        "https://images.igdb.com/igdb/image/upload/t_cover_big/co1abc.jpg"
    );
    assert_eq!(cover_address("//host/plain.jpg"), "https://host/plain.jpg");
    assert_eq!(cover_address(""), "https:");
    assert_eq!(cover_address("t_thumbt_thumb/t_thum"), "https:t_cover_bigt_cover_big/t_thum");
}

#[test]
fn the_screenshot_address_is_rewritten() {
    assert_eq!(
        screenshot_address("//images.igdb.com/igdb/image/upload/t_thumb/sc9.jpg"),
        "https://images.igdb.com/igdb/image/upload/t_screenshot_med/sc9.jpg"
    );
}

#[test]
fn screenshots_become_a_json_array_of_addresses() {
    let shots = vec![
        IgdbScreenshot { id: 1, url: "//h/t_thumb/a.jpg".to_string() },
        IgdbScreenshot { id: 2, url: "//h/t_thumb/b \"q\".jpg".to_string() },
    ];
    assert_eq!(
        screenshot_list(&shots),
        r#"["https://h/t_screenshot_med/a.jpg","https://h/t_screenshot_med/b \"q\".jpg"]"#
    );
    assert_eq!(screenshot_list(&Vec::new()), "[]");
}

#[test]
fn genres_and_platforms_become_json_arrays_of_objects() {
    let genres = vec![
        IgdbGenre { id: 12, name: "Role-playing (RPG)".to_string() },
        IgdbGenre { id: 31, name: "Adventure".to_string() },
    ];
    assert_eq!(
        genre_list(&genres),
        r#"[{"id":12,"name":"Role-playing (RPG)"},{"id":31,"name":"Adventure"}]"#
    );
    let platforms = vec![IgdbPlatform { id: -6, name: "PC \\ \u{e9}".to_string() }];
    assert_eq!(platform_list(&platforms), "[{\"id\":-6,\"name\":\"PC \\\\ \u{e9}\"}]");
    assert_eq!(genre_list(&Vec::new()), "[]");
    assert_eq!(platform_list(&Vec::new()), "[]");
}

#[test]
fn an_entry_is_written_under_the_names_of_its_members() {
    let items = vec![
        JsonItem::Text("plain".to_string()),
        named_item(3, "Three".to_string()),
        JsonItem::Entry {
            number_member: "year".to_string(),
            number: -1993,
            text_member: "title".to_string(),
            text: "Doom".to_string(),
        },
    ];
    assert_eq!(
        encode_items(&items).as_deref(),
        Some(r#"["plain",{"id":3,"name":"Three"},{"title":"Doom","year":-1993}]"#)
    );
    assert_eq!(encoded_or_empty(encode_items(&Vec::new())), "[]");
    assert_eq!(encoded_or_empty(None), "");
}

#[test]
fn developer_and_publisher_are_the_flagged_companies() {
    let companies = vec![company(1, "Studio", true, false), company(2, "Label", false, true)];
    assert_eq!(first_developer(&companies).as_deref(), Some("Studio"));
    assert_eq!(first_publisher(&companies).as_deref(), Some("Label"));
    let swapped = vec![company(2, "Label", false, true), company(1, "Studio", true, false)];
    assert_eq!(first_developer(&swapped).as_deref(), Some("Studio"));
    assert_eq!(first_publisher(&swapped).as_deref(), Some("Label"));
}

#[test]
fn the_first_flagged_company_wins() {
    let companies = vec![
        company(1, "Porting House", false, false),
        company(2, "First", true, true),
        company(3, "Second", true, true),
    ];
    assert_eq!(first_developer(&companies).as_deref(), Some("First"));
    assert_eq!(first_publisher(&companies).as_deref(), Some("First"));
    assert_eq!(first_developer(&vec![company(1, "None", false, true)]), None);
    assert_eq!(first_publisher(&vec![company(1, "None", true, false)]), None);
    assert_eq!(first_developer(&Vec::new()), None);
}

#[test]
fn the_release_date_is_taken_from_the_calendar() {
    let mut record = bare(1);
    record.first_release_date = Some(1_431_648_000);
    assert_eq!(denormalize(&record).release_date, Some(Timestamp::new(1_431_648_000, 0)));
    record.first_release_date = Some(0);
    assert_eq!(denormalize(&record).release_date, Some(Timestamp::new(0, 0)));
    record.first_release_date = Some(-1);
    assert_eq!(denormalize(&record).release_date, Some(Timestamp::new(-1, 0)));
}

#[test]
fn release_dates_outside_the_calendar_are_dropped() {
    let mut record = bare(1);
    record.first_release_date = Some(MAX_CALENDAR_SECOND);
    assert_eq!(denormalize(&record).release_date, Some(Timestamp::new(MAX_CALENDAR_SECOND, 0)));
    record.first_release_date = Some(MAX_CALENDAR_SECOND + 1);
    assert_eq!(denormalize(&record).release_date, None);
    record.first_release_date = Some(MIN_CALENDAR_SECOND);
    assert_eq!(denormalize(&record).release_date, Some(Timestamp::new(MIN_CALENDAR_SECOND, 0)));
    record.first_release_date = Some(MIN_CALENDAR_SECOND - 1);
    assert_eq!(denormalize(&record).release_date, None);
    record.first_release_date = Some(i64::MAX);
    assert_eq!(denormalize(&record).release_date, None);
    record.first_release_date = Some(i64::MIN);
    assert_eq!(denormalize(&record).release_date, None);
}

fn full_record() -> IgdbGame {
    IgdbGame {
        id: 99,
        name: "Provider's name".to_string(),
        summary: Some("Short".to_string()),
        storyline: Some("Long".to_string()),
        rating: Some(Rating { bits: 87.5f64.to_bits() }),
        first_release_date: Some(86_400),
        cover: Some(IgdbCover { id: 1, url: "//i/t_thumb/c.jpg".to_string() }),
        screenshots: Some(vec![IgdbScreenshot { id: 2, url: "//i/t_thumb/s.jpg".to_string() }]),
        genres: Some(vec![IgdbGenre { id: 5, name: "Shooter".to_string() }]),
        platforms: Some(vec![IgdbPlatform { id: 6, name: "PC".to_string() }]),
        involved_companies: Some(vec![
            company(1, "id Software", true, false),
            company(2, "GT Interactive", false, true),
        ]),
    }
}

#[test]
fn a_full_record_flattens_field_by_field() {
    let m: GameMetadata = denormalize(&full_record());
    assert_eq!(m.summary.as_deref(), Some("Short"));
    assert_eq!(m.storyline.as_deref(), Some("Long"));
    assert_eq!(m.rating.map(|r| f64::from_bits(r.bits)), Some(87.5));
    assert_eq!(m.release_date, Some(Timestamp::new(86_400, 0)));
    assert_eq!(m.cover_url.as_deref(), Some("https://i/t_cover_big/c.jpg"));
    assert_eq!(m.screenshots.as_deref(), Some(r#"["https://i/t_screenshot_med/s.jpg"]"#));
    assert_eq!(m.genres.as_deref(), Some(r#"[{"id":5,"name":"Shooter"}]"#));
    assert_eq!(m.platforms.as_deref(), Some(r#"[{"id":6,"name":"PC"}]"#));
    assert_eq!(m.developer.as_deref(), Some("id Software"));
    assert_eq!(m.publisher.as_deref(), Some("GT Interactive"));
}

#[test]
fn metadata_leaves_availability_and_file_untouched() {
    let mut db = Database::new();
    db.create_game_with(
        CreateGameRequest {
            name: "Doom".to_string(),
            igdb_id: Some(99),
            file_path: Some("/games/doom".to_string()),
        },
        "g1".to_string(),
        Timestamp::new(10, 0),
    )
    .unwrap();
    db.create_game_with(
        CreateGameRequest { name: "Other".to_string(), igdb_id: None, file_path: None },
        "g2".to_string(),
        Timestamp::new(11, 0),
    )
    .unwrap();
    let applied = db.apply_metadata("g1", denormalize(&full_record()), Timestamp::new(500, 0));
    assert_eq!(applied, Ok(()));
    let game = db.get_game_by_id("g1").unwrap().unwrap();
    assert_eq!(game.developer.as_deref(), Some("id Software"));
    assert_eq!(game.publisher.as_deref(), Some("GT Interactive"));
    assert_eq!(game.summary.as_deref(), Some("Short"));
    assert_eq!(game.cover_url.as_deref(), Some("https://i/t_cover_big/c.jpg"));
    assert_eq!(game.updated_at, Timestamp::new(500, 0));
    assert_eq!(game.name, "Doom");
    assert_eq!(game.igdb_id, Some(99));
    assert!(game.is_available);
    assert!(!game.is_installed);
    assert_eq!(game.file_path.as_deref(), Some("/games/doom"));
    assert_eq!(game.file_size, None);
    assert_eq!(game.added_by, None);
    assert_eq!(game.created_at, Timestamp::new(10, 0));
    let other = db.get_game_by_id("g2").unwrap().unwrap();
    assert_eq!(other.developer, None);
    assert_eq!(other.updated_at, Timestamp::new(11, 0));
}

#[test]
fn metadata_replaces_what_was_there() {
    let mut db = Database::new();
    db.create_game_with(
        CreateGameRequest { name: "Doom".to_string(), igdb_id: Some(99), file_path: None },
        "g1".to_string(),
        Timestamp::new(10, 0),
    )
    .unwrap();
    db.update_game_metadata("g1", &full_record()).unwrap();
    let first = db.get_game_by_id("g1").unwrap().unwrap();
    assert_eq!(first.genres.as_deref(), Some(r#"[{"id":5,"name":"Shooter"}]"#));
    assert!(first.updated_at.secs > 1_600_000_000);
    db.update_game_metadata("g1", &bare(99)).unwrap();
    let second = db.get_game_by_id("g1").unwrap().unwrap();
    assert_eq!(second.genres, None);
    assert_eq!(second.developer, None);
    assert_eq!(second.name, "Doom");
}

#[test]
fn metadata_for_an_unknown_game_changes_nothing() {
    let mut db = Database::new();
    assert_eq!(db.update_game_metadata("g1", &full_record()), Ok(()));
    assert!(db.games().is_empty());
}
