//! Metadata sync: flattening a provider record into the columns of a catalog
//! entry.

use vstd::prelude::*;
use vstd::string::StringExecFns;
use crate::auth::clone_text;
use crate::models::{
    IgdbGame, IgdbGenre, IgdbInvolvedCompany, IgdbPlatform, IgdbScreenshot, Rating,
};
use crate::text::{replace_all, replaced};
use crate::time::{calendar_instant, calendar_instant_of, Timestamp};

verus! {

/// `serde_json::Error`, handed on unopened.
#[verifier::external_type_specification]
#[verifier::external_body]
pub struct ExJsonError(serde_json::Error);

/// One element of a JSON array: a text, or an object of two members, a
/// number and a text, each under its name.
#[derive(Debug)]
pub enum JsonItem {
    Text(String),
    Entry { number_member: String, number: i64, text_member: String, text: String },
}

/// A JSON element as the contracts see it: its texts by their characters.
pub enum JsonItemView {
    Text(Seq<char>),
    Entry { number_member: Seq<char>, number: i64, text_member: Seq<char>, text: Seq<char> },
}

impl View for JsonItem {
    type V = JsonItemView;

    open spec fn view(&self) -> JsonItemView {
        match *self {
            JsonItem::Text(text) => JsonItemView::Text(text@),
            JsonItem::Entry { number_member, number, text_member, text } => JsonItemView::Entry {
                number_member: number_member@,
                number,
                text_member: text_member@,
                text: text@,
            },
        }
    }
}

/// The JSON text that `serde_json::to_string` writes for an array of
/// elements, or nothing where it fails.
pub uninterp spec fn json_array(items: Seq<JsonItemView>) -> Option<Seq<char>>;

/// The elements of a list, as the contracts see them.
pub open spec fn items_of(items: Seq<JsonItem>) -> Seq<JsonItemView> {
    items.map_values(|item: JsonItem| item@)
}

/// Writes a list of elements as a JSON array with `serde_json::to_string`:
/// a text becomes a JSON string, an entry an object that holds its number
/// and its text under their names.
///
/// Trusted: what is written depends on the elements alone.
#[verifier::external_body]
pub(crate) fn encode_array(items: &Vec<JsonItem>) -> (r: Result<String, serde_json::Error>)
    ensures
        match r {
            Ok(text) => json_array(items_of(items@)) == Some(text@),
            Err(_) => json_array(items_of(items@)) is None,
        },
{
    let mut values: Vec<serde_json::Value> = Vec::new();
    for item in items {
        values.push(match item {
            JsonItem::Text(text) => serde_json::Value::from(text.as_str()),
            JsonItem::Entry { number_member, number, text_member, text } => {
                let mut object = serde_json::Map::new();
                object.insert(number_member.clone(), serde_json::Value::from(*number));
                object.insert(text_member.clone(), serde_json::Value::from(text.as_str()));
                serde_json::Value::Object(object)
            },
        });
    }
    serde_json::to_string(&values)
}

/// The characters of an optional text.
pub open spec fn text_of(text: Option<String>) -> Option<Seq<char>> {
    match text {
        Some(s) => Some(s@),
        None => None,
    }
}

/// An encoded list, or the empty text where encoding failed.
pub open spec fn or_empty(encoded: Option<Seq<char>>) -> Seq<char> {
    match encoded {
        Some(text) => text,
        None => Seq::empty(),
    }
}

/// The address of the large cover for a thumbnail address of the provider.
pub open spec fn cover_address_of(url: Seq<char>) -> Seq<char> {
    "https:"@ + replaced(url, "t_thumb"@, "t_cover_big"@)
}

/// The address of the medium screenshot for a thumbnail address of the provider.
pub open spec fn screenshot_address_of(url: Seq<char>) -> Seq<char> {
    "https:"@ + replaced(url, "t_thumb"@, "t_screenshot_med"@)
}

/// The screenshot addresses of a record, in the provider's order.
pub open spec fn screenshot_addresses_of(shots: Seq<IgdbScreenshot>) -> Seq<JsonItemView> {
    shots.map_values(|shot: IgdbScreenshot| JsonItemView::Text(screenshot_address_of(shot.url@)))
}

/// The object that stands for an id and a name: the id under `id`, the
/// name under `name`.
pub open spec fn named_entry(id: i64, name: Seq<char>) -> JsonItemView {
    JsonItemView::Entry { number_member: "id"@, number: id, text_member: "name"@, text: name }
}

/// The genres of a record with their ids and names.
pub open spec fn genre_entries_of(genres: Seq<IgdbGenre>) -> Seq<JsonItemView> {
    genres.map_values(|genre: IgdbGenre| named_entry(genre.id, genre.name@))
}

/// The platforms of a record with their ids and names.
pub open spec fn platform_entries_of(platforms: Seq<IgdbPlatform>) -> Seq<JsonItemView> {
    platforms.map_values(|platform: IgdbPlatform| named_entry(platform.id, platform.name@))
}

/// The name of the first company that is flagged as developer.
pub open spec fn first_developer_of(companies: Seq<IgdbInvolvedCompany>) -> Option<String>
    decreases companies.len(),
{
    if companies.len() == 0 {
        None
    } else if companies[0].developer {
        Some(companies[0].company.name)
    } else {
        first_developer_of(companies.drop_first())
    }
}

/// The name of the first company that is flagged as publisher.
pub open spec fn first_publisher_of(companies: Seq<IgdbInvolvedCompany>) -> Option<String>
    decreases companies.len(),
{
    if companies.len() == 0 {
        None
    } else if companies[0].publisher {
        Some(companies[0].company.name)
    } else {
        first_publisher_of(companies.drop_first())
    }
}

/// The metadata columns of a catalog entry.
#[derive(Debug)]
pub struct GameMetadata {
    pub summary: Option<String>,
    pub storyline: Option<String>,
    pub rating: Option<Rating>,
    pub release_date: Option<Timestamp>,
    pub cover_url: Option<String>,
    pub screenshots: Option<String>,
    pub genres: Option<String>,
    pub platforms: Option<String>,
    pub developer: Option<String>,
    pub publisher: Option<String>,
}

impl GameMetadata {
    /// `self` is what a provider record flattens to.
    pub open spec fn describes(self, game: IgdbGame) -> bool {
        &&& self.summary == game.summary
        &&& self.storyline == game.storyline
        &&& self.rating == game.rating
        &&& self.release_date == match game.first_release_date {
            Some(secs) => calendar_instant_of(secs),
            None => None,
        }
        &&& text_of(self.cover_url) == match game.cover {
            Some(cover) => Some(cover_address_of(cover.url@)),
            None => None,
        }
        &&& text_of(self.screenshots) == match game.screenshots {
            Some(shots) => Some(or_empty(json_array(screenshot_addresses_of(shots@)))),
            None => None,
        }
        &&& text_of(self.genres) == match game.genres {
            Some(genres) => Some(or_empty(json_array(genre_entries_of(genres@)))),
            None => None,
        }
        &&& text_of(self.platforms) == match game.platforms {
            Some(platforms) => Some(or_empty(json_array(platform_entries_of(platforms@)))),
            None => None,
        }
        &&& self.developer == match game.involved_companies {
            Some(companies) => first_developer_of(companies@),
            None => None,
        }
        &&& self.publisher == match game.involved_companies {
            Some(companies) => first_publisher_of(companies@),
            None => None,
        }
    }
}

/// The encoded list, or the empty text where encoding failed.
pub fn encoded_or_empty(encoded: Option<String>) -> (text: String)
    ensures
        text@ == or_empty(text_of(encoded)),
{
    match encoded {
        Some(text) => text,
        None => String::new(),
    }
}

/// Encodes a list of elements as a JSON array; `None` where encoding failed.
pub fn encode_items(items: &Vec<JsonItem>) -> (encoded: Option<String>)
    ensures
        text_of(encoded) == json_array(items_of(items@)),
{
    match encode_array(items) {
        Ok(text) => Some(text),
        Err(_) => None,
    }
}

/// The address of the large cover for a thumbnail address.
pub fn cover_address(url: &str) -> (address: String)
    ensures
        address@ == cover_address_of(url@),
{
    let sized = replace_all(url, "t_thumb", "t_cover_big");
    String::from_str("https:").concat(sized.as_str())
}

/// The address of the medium screenshot for a thumbnail address.
pub fn screenshot_address(url: &str) -> (address: String)
    ensures
        address@ == screenshot_address_of(url@),
{
    let sized = replace_all(url, "t_thumb", "t_screenshot_med");
    String::from_str("https:").concat(sized.as_str())
}

/// The screenshots of a record as the JSON array of their addresses.
pub fn screenshot_list(shots: &Vec<IgdbScreenshot>) -> (encoded: String)
    ensures
        encoded@ == or_empty(json_array(screenshot_addresses_of(shots@))),
{
    let mut addresses: Vec<JsonItem> = Vec::new();
    let mut i: usize = 0;
    while i < shots.len()
        invariant
            i <= shots.len(),
            addresses.len() == i,
            forall|j: int|
                0 <= j < i ==> (#[trigger] addresses@[j])@ == JsonItemView::Text(
                    screenshot_address_of(shots@[j].url@),
                ),
        decreases shots.len() - i,
    {
        addresses.push(JsonItem::Text(screenshot_address(shots[i].url.as_str())));
        i = i + 1;
    }
    assert(items_of(addresses@) =~= screenshot_addresses_of(shots@));
    encoded_or_empty(encode_items(&addresses))
}

/// The element that stands for an id and a name.
pub fn named_item(id: i64, name: String) -> (item: JsonItem)
    ensures
        item@ == named_entry(id, name@),
{
    JsonItem::Entry {
        number_member: String::from_str("id"),
        number: id,
        text_member: String::from_str("name"),
        text: name,
    }
}

/// The genres of a record as a JSON array.
pub fn genre_list(genres: &Vec<IgdbGenre>) -> (encoded: String)
    ensures
        encoded@ == or_empty(json_array(genre_entries_of(genres@))),
{
    let mut entries: Vec<JsonItem> = Vec::new();
    let mut i: usize = 0;
    while i < genres.len()
        invariant
            i <= genres.len(),
            entries.len() == i,
            forall|j: int|
                0 <= j < i ==> (#[trigger] entries@[j])@ == named_entry(
                    genres@[j].id,
                    genres@[j].name@,
                ),
        decreases genres.len() - i,
    {
        entries.push(named_item(genres[i].id, genres[i].name.clone()));
        i = i + 1;
    }
    assert(items_of(entries@) =~= genre_entries_of(genres@));
    encoded_or_empty(encode_items(&entries))
}

/// The platforms of a record as a JSON array.
pub fn platform_list(platforms: &Vec<IgdbPlatform>) -> (encoded: String)
    ensures
        encoded@ == or_empty(json_array(platform_entries_of(platforms@))),
{
    let mut entries: Vec<JsonItem> = Vec::new();
    let mut i: usize = 0;
    while i < platforms.len()
        invariant
            i <= platforms.len(),
            entries.len() == i,
            forall|j: int|
                0 <= j < i ==> (#[trigger] entries@[j])@ == named_entry(
                    platforms@[j].id,
                    platforms@[j].name@,
                ),
        decreases platforms.len() - i,
    {
        entries.push(named_item(platforms[i].id, platforms[i].name.clone()));
        i = i + 1;
    }
    assert(items_of(entries@) =~= platform_entries_of(platforms@));
    encoded_or_empty(encode_items(&entries))
}

/// The name of the first company flagged as developer: the provider's order decides.
pub fn first_developer(companies: &Vec<IgdbInvolvedCompany>) -> (name: Option<String>)
    ensures
        name == first_developer_of(companies@),
{
    let n: usize = companies.len();
    let mut i: usize = 0;
    assert(companies@.subrange(0, n as int) =~= companies@);
    while i < n
        invariant
            i <= n,
            n == companies.len(),
            first_developer_of(companies@) == first_developer_of(
                companies@.subrange(i as int, n as int),
            ),
        decreases n - i,
    {
        let ghost rest = companies@.subrange(i as int, n as int);
        assert(rest[0] == companies@[i as int]);
        if companies[i].developer {
            return Some(companies[i].company.name.clone());
        }
        assert(rest.drop_first() =~= companies@.subrange(i + 1, n as int));
        i = i + 1;
    }
    None
}

/// The name of the first company flagged as publisher: the provider's order decides.
pub fn first_publisher(companies: &Vec<IgdbInvolvedCompany>) -> (name: Option<String>)
    ensures
        name == first_publisher_of(companies@),
{
    let n: usize = companies.len();
    let mut i: usize = 0;
    assert(companies@.subrange(0, n as int) =~= companies@);
    while i < n
        invariant
            i <= n,
            n == companies.len(),
            first_publisher_of(companies@) == first_publisher_of(
                companies@.subrange(i as int, n as int),
            ),
        decreases n - i,
    {
        let ghost rest = companies@.subrange(i as int, n as int);
        assert(rest[0] == companies@[i as int]);
        if companies[i].publisher {
            return Some(companies[i].company.name.clone());
        }
        assert(rest.drop_first() =~= companies@.subrange(i + 1, n as int));
        i = i + 1;
    }
    None
}

/// Flattens a provider record into the metadata columns of a catalog entry.
pub fn denormalize(game: &IgdbGame) -> (metadata: GameMetadata)
    ensures
        metadata.describes(*game),
{
    let release_date = match game.first_release_date {
        Some(secs) => calendar_instant(secs),
        None => None,
    };
    let cover_url = match &game.cover {
        Some(cover) => Some(cover_address(cover.url.as_str())),
        None => None,
    };
    let screenshots = match &game.screenshots {
        Some(shots) => Some(screenshot_list(shots)),
        None => None,
    };
    let genres = match &game.genres {
        Some(genres) => Some(genre_list(genres)),
        None => None,
    };
    let platforms = match &game.platforms {
        Some(platforms) => Some(platform_list(platforms)),
        None => None,
    };
    let developer = match &game.involved_companies {
        Some(companies) => first_developer(companies),
        None => None,
    };
    let publisher = match &game.involved_companies {
        Some(companies) => first_publisher(companies),
        None => None,
    };
    GameMetadata {
        summary: clone_text(&game.summary),
        storyline: clone_text(&game.storyline),
        rating: game.rating,
        release_date,
        cover_url,
        screenshots,
        genres,
        platforms,
        developer,
        publisher,
    }
}

/// Where a record names two companies, one flagged as developer only and
/// the other as publisher only, they are the developer and the publisher,
/// whichever comes first.
pub proof fn lemma_two_companies(first: IgdbInvolvedCompany, second: IgdbInvolvedCompany)
    ensures
        first.developer && !first.publisher && second.publisher && !second.developer ==> {
            &&& first_developer_of(seq![first, second]) == Some(first.company.name)
            &&& first_publisher_of(seq![first, second]) == Some(second.company.name)
        },
        first.publisher && !first.developer && second.developer && !second.publisher ==> {
            &&& first_developer_of(seq![first, second]) == Some(second.company.name)
            &&& first_publisher_of(seq![first, second]) == Some(first.company.name)
        },
{
    let both = seq![first, second];
    assert(both.drop_first() =~= seq![second]);
    assert(seq![second].drop_first() =~= Seq::<IgdbInvolvedCompany>::empty());
    reveal_with_fuel(first_developer_of, 3);
    reveal_with_fuel(first_publisher_of, 3);
}

} // verus!
