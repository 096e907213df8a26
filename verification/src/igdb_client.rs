//! What is said to the catalog provider: the credentials and the text of the
//! two queries. Sending them is left to the caller.

use vstd::prelude::*;
use vstd::string::StringExecFns;
use crate::models::IgdbGame;
use crate::text::push_char;

verus! {

/// The character of a decimal digit.
pub open spec fn digit_of(d: int) -> char {
    if d == 0 {
        '0'
    } else if d == 1 {
        '1'
    } else if d == 2 {
        '2'
    } else if d == 3 {
        '3'
    } else if d == 4 {
        '4'
    } else if d == 5 {
        '5'
    } else if d == 6 {
        '6'
    } else if d == 7 {
        '7'
    } else if d == 8 {
        '8'
    } else {
        '9'
    }
}

/// The decimal digits of a natural number, without leading zeros.
pub open spec fn digits_of(n: nat) -> Seq<char>
    decreases n,
{
    if n < 10 {
        seq![digit_of(n as int)]
    } else {
        digits_of(n / 10).push(digit_of((n % 10) as int))
    }
}

/// The decimal text of an integer, with a minus sign where it is negative.
pub open spec fn decimal_of(n: int) -> Seq<char> {
    if n < 0 {
        seq!['-'] + digits_of((-n) as nat)
    } else {
        digits_of(n as nat)
    }
}

fn digit(d: u64) -> (c: char)
    requires
        d < 10,
    ensures
        c == digit_of(d as int),
{
    if d == 0 {
        '0'
    } else if d == 1 {
        '1'
    } else if d == 2 {
        '2'
    } else if d == 3 {
        '3'
    } else if d == 4 {
        '4'
    } else if d == 5 {
        '5'
    } else if d == 6 {
        '6'
    } else if d == 7 {
        '7'
    } else if d == 8 {
        '8'
    } else {
        '9'
    }
}

/// Appends the decimal digits of `n` to `out`.
fn push_digits(out: &mut String, n: u64)
    ensures
        final(out)@ == old(out)@ + digits_of(n as nat),
{
    let mut low: Vec<char> = Vec::new();
    let mut rest: u64 = n;
    while rest >= 10
        invariant
            digits_of(n as nat) == digits_of(rest as nat) + low@.reverse(),
        decreases rest,
    {
        let ghost before = low@;
        low.push(digit(rest % 10));
        assert(low@.reverse() =~= seq![digit_of((rest % 10) as int)] + before.reverse());
        assert(digits_of(rest as nat) + before.reverse() =~= digits_of((rest / 10) as nat)
            + low@.reverse());
        rest = rest / 10;
    }
    push_char(out, digit(rest));
    let mut k: usize = low.len();
    while k > 0
        invariant
            k <= low.len(),
            out@ == old(out)@ + digits_of(rest as nat) + low@.reverse().subrange(
                0,
                low.len() - k,
            ),
        decreases k,
    {
        k = k - 1;
        let ghost so_far = out@;
        push_char(out, low[k]);
        assert(low@.reverse().subrange(0, low.len() - k) =~= low@.reverse().subrange(
            0,
            low.len() - k - 1,
        ).push(low@[k as int]));
        assert(out@ =~= old(out)@ + digits_of(rest as nat) + low@.reverse().subrange(
            0,
            low.len() - k,
        ));
    }
    assert(low@.reverse().subrange(0, low.len() as int) =~= low@.reverse());
    assert(out@ =~= old(out)@ + (digits_of(rest as nat) + low@.reverse()));
}

/// The decimal text of an integer.
pub fn decimal(n: i64) -> (text: String)
    ensures
        text@ == decimal_of(n as int),
{
    let mut text = String::new();
    if n < 0 {
        push_char(&mut text, '-');
        let magnitude: u64 = if n == i64::MIN {
            0x8000_0000_0000_0000
        } else {
            (-n) as u64
        };
        push_digits(&mut text, magnitude);
        assert(text@ =~= decimal_of(n as int));
    } else {
        push_digits(&mut text, n as u64);
        assert(text@ =~= decimal_of(n as int));
    }
    text
}

/// The fields that both queries ask for.
pub open spec fn fields_clause() -> Seq<char> {
    "\n            fields id,name,summary,storyline,rating,first_release_date,\n                   cover.url,screenshots.url,genres.name,platforms.name,\n                   involved_companies.company.name,involved_companies.developer,\n                   involved_companies.publisher;"@
}

/// The query that searches the provider's catalog for `query` and asks for
/// at most `limit` records.
pub open spec fn search_body_of(query: Seq<char>, limit: u32) -> Seq<char> {
    "\n            search \""@ + query + "\";"@ + fields_clause() + "\n            limit "@
        + decimal_of(limit as int) + ";\n            "@
}

/// The query that asks for the record with the id `igdb_id`.
pub open spec fn game_by_id_body_of(igdb_id: i64) -> Seq<char> {
    fields_clause() + "\n            where id = "@ + decimal_of(igdb_id as int)
        + ";\n            "@
}

/// The credentials for the catalog provider.
#[derive(Debug)]
pub struct IgdbClient {
    pub client_id: String,
    pub access_token: String,
}

impl IgdbClient {
    pub fn new(client_id: String, access_token: String) -> (client: IgdbClient)
        ensures
            client.client_id == client_id,
            client.access_token == access_token,
    {
        IgdbClient { client_id, access_token }
    }

    /// The value of the `Authorization` header: the access token as a bearer token.
    pub fn authorization(&self) -> (value: String)
        ensures
            value@ == "Bearer "@ + self.access_token@,
    {
        String::from_str("Bearer ").concat(self.access_token.as_str())
    }

    /// The body of a search for `query` with at most `limit` results.
    pub fn search_body(query: &str, limit: u32) -> (body: String)
        ensures
            body@ == search_body_of(query@, limit),
    {
        let number = decimal(limit as i64);
        let mut body = String::from_str("\n            search \"");
        body.append(query);
        body.append("\";");
        body.append(
            "\n            fields id,name,summary,storyline,rating,first_release_date,\n                   cover.url,screenshots.url,genres.name,platforms.name,\n                   involved_companies.company.name,involved_companies.developer,\n                   involved_companies.publisher;",
        );
        body.append("\n            limit ");
        body.append(number.as_str());
        body.append(";\n            ");
        body
    }

    /// The body of the request for the record with the id `igdb_id`.
    pub fn game_by_id_body(igdb_id: i64) -> (body: String)
        ensures
            body@ == game_by_id_body_of(igdb_id),
    {
        let number = decimal(igdb_id);
        let mut body = String::from_str(
            "\n            fields id,name,summary,storyline,rating,first_release_date,\n                   cover.url,screenshots.url,genres.name,platforms.name,\n                   involved_companies.company.name,involved_companies.developer,\n                   involved_companies.publisher;",
        );
        body.append("\n            where id = ");
        body.append(number.as_str());
        body.append(";\n            ");
        body
    }

    /// The record that answers a request by id: the last of those returned.
    pub fn last_record(games: Vec<IgdbGame>) -> (record: Option<IgdbGame>)
        ensures
            record == if games@.len() == 0 {
                None
            } else {
                Some(games@.last())
            },
    {
        let mut games = games;
        games.pop()
    }
}

} // verus!
