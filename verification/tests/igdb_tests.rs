use game_library::igdb_client::{decimal, IgdbClient};
use game_library::models::IgdbGame;

fn record(id: i64) -> IgdbGame {
    IgdbGame {
        id,
        name: format!("Record {}", id),
        summary: None,
        storyline: None,
        rating: None,
        first_release_date: None,
        cover: None,
        screenshots: None,
        genres: None,
        platforms: None,
        involved_companies: None,
    }
}

#[test]
fn decimal_texts() {
    for n in [0i64, 1, 9, 10, 11, 99, 100, 101, 1_000_000, -1, -10, -905, i64::MAX, i64::MIN] {
        assert_eq!(decimal(n), n.to_string());
    }
    assert_eq!(decimal(0), "0");
    assert_eq!(decimal(-42), "-42");
    assert_eq!(decimal(i64::MIN), "-9223372036854775808");
}

#[test]
fn the_search_body() {
    let expected = format!(
        r#"
            search "{}";
            fields id,name,summary,storyline,rating,first_release_date,
                   cover.url,screenshots.url,genres.name,platforms.name,
                   involved_companies.company.name,involved_companies.developer,
                   involved_companies.publisher;
            limit {};
            "#,
        "half life", 10
    );
    assert_eq!(IgdbClient::search_body("half life", 10), expected);
    assert!(IgdbClient::search_body("", 0).contains("search \"\";"));
    assert!(IgdbClient::search_body("x", u32::MAX).contains("limit 4294967295;"));
}

#[test]
fn the_body_of_a_request_by_id() {
    let expected = format!(
        r#"
            fields id,name,summary,storyline,rating,first_release_date,
                   cover.url,screenshots.url,genres.name,platforms.name,
                   involved_companies.company.name,involved_companies.developer,
                   involved_companies.publisher;
            where id = {};
            "#,
        1942
    );
    assert_eq!(IgdbClient::game_by_id_body(1942), expected);
    assert!(IgdbClient::game_by_id_body(-7).contains("where id = -7;"));
}

#[test]
fn the_authorization_header() {
    let client = IgdbClient::new("client".to_string(), "token-123".to_string());
    assert_eq!(client.client_id, "client");
    assert_eq!(client.authorization(), "Bearer token-123");
}

#[test]
fn the_last_record_answers_a_request_by_id() {
    assert!(IgdbClient::last_record(Vec::new()).is_none());
    assert_eq!(IgdbClient::last_record(vec![record(1)]).unwrap().id, 1);
    assert_eq!(IgdbClient::last_record(vec![record(1), record(2), record(3)]).unwrap().id, 3);
}
