//! What the four tables share: rows that carry their creation instant, kept
//! oldest first, and the window that a page request cuts out of a listing.

use vstd::prelude::*;
use crate::time::Timestamp;

verus! {

/// A table row: it knows when it was created and can be copied.
pub trait Row: Sized {
    /// The instant at which the row was created.
    spec fn created(&self) -> Timestamp;

    fn created_at(&self) -> (t: Timestamp)
        ensures
            t == self.created(),
    ;

    fn copy(&self) -> (row: Self)
        ensures
            row == *self,
    ;
}

/// No row is created later than a row that stands behind it.
pub open spec fn oldest_first<R: Row>(rows: Seq<R>) -> bool {
    forall|i: int, j: int|
        0 <= i <= j < rows.len() ==> (#[trigger] rows[i]).created().at_or_before(
            (#[trigger] rows[j]).created(),
        )
}

/// Where a row created at `at` enters a table: behind the last row that is
/// not younger than it.
pub open spec fn insertion_index<R: Row>(rows: Seq<R>, at: Timestamp) -> int
    decreases rows.len(),
{
    if rows.len() == 0 {
        0
    } else if rows.last().created().at_or_before(at) {
        rows.len() as int
    } else {
        insertion_index(rows.drop_last(), at)
    }
}

/// The insertion index splits the table: nothing before it is younger than
/// `at`, everything from it on is.
pub proof fn lemma_insertion_index_splits<R: Row>(rows: Seq<R>, at: Timestamp)
    requires
        oldest_first(rows),
    ensures
        0 <= insertion_index(rows, at) <= rows.len(),
        forall|i: int|
            0 <= i < insertion_index(rows, at) ==> (#[trigger] rows[i]).created().at_or_before(at),
        forall|i: int|
            insertion_index(rows, at) <= i < rows.len() ==> at.before((#[trigger] rows[i]).created()),
    decreases rows.len(),
{
    if rows.len() == 0 {
    } else if rows.last().created().at_or_before(at) {
        assert forall|i: int| 0 <= i < rows.len() implies (#[trigger] rows[i]).created().at_or_before(
            at,
        ) by {
            assert(rows[i].created().at_or_before(rows[rows.len() - 1].created()));
        }
    } else {
        let shorter = rows.drop_last();
        assert forall|i: int, j: int| 0 <= i <= j < shorter.len() implies (#[trigger] shorter[i]).created().at_or_before(
            (#[trigger] shorter[j]).created(),
        ) by {
            assert(shorter[i] == rows[i] && shorter[j] == rows[j]);
        }
        lemma_insertion_index_splits(shorter, at);
        let k = insertion_index(shorter, at);
        assert forall|i: int| 0 <= i < k implies (#[trigger] rows[i]).created().at_or_before(at) by {
            assert(shorter[i] == rows[i]);
        }
        assert forall|i: int| k <= i < rows.len() implies at.before((#[trigger] rows[i]).created()) by {
            if i < rows.len() - 1 {
                assert(shorter[i] == rows[i]);
            }
        }
    }
}

/// A table that takes a row at its insertion index stays oldest first.
pub proof fn lemma_insert_keeps_order<R: Row>(rows: Seq<R>, row: R)
    requires
        oldest_first(rows),
    ensures
        oldest_first(rows.insert(insertion_index(rows, row.created()), row)),
{
    let k = insertion_index(rows, row.created());
    lemma_insertion_index_splits(rows, row.created());
    let grown = rows.insert(k, row);
    assert forall|i: int, j: int| 0 <= i <= j < grown.len() implies (#[trigger] grown[i]).created().at_or_before(
        (#[trigger] grown[j]).created(),
    ) by {
        if j < k {
            assert(grown[i] == rows[i] && grown[j] == rows[j]);
        } else if i > k {
            assert(grown[i] == rows[i - 1] && grown[j] == rows[j - 1]);
        } else if i == k && j == k {
        } else if i == k {
            assert(grown[j] == rows[j - 1]);
        } else if j == k {
            assert(grown[i] == rows[i]);
        } else {
            assert(grown[i] == rows[i] && grown[j] == rows[j - 1]);
        }
    }
}

/// The rows that a filter keeps stand in the table, in the same order: row
/// `k` of the filtered table is row `places[k]` of the table, and every row
/// that the filter accepts has its place.
pub proof fn lemma_filter_places<T>(rows: Seq<T>, keep: spec_fn(T) -> bool) -> (places: Seq<int>)
    ensures
        places.len() == rows.filter(keep).len(),
        forall|k: int|
            0 <= k < places.len() ==> 0 <= #[trigger] places[k] < rows.len() && rows.filter(keep)[k]
                == rows[places[k]] && keep(rows[places[k]]),
        forall|a: int, b: int| 0 <= a < b < places.len() ==> #[trigger] places[a] < #[trigger] places[b],
        forall|i: int|
            0 <= i < rows.len() && keep(#[trigger] rows[i]) ==> exists|k: int|
                0 <= k < places.len() && #[trigger] places[k] == i,
    decreases rows.len(),
{
    reveal(Seq::filter);
    if rows.len() == 0 {
        Seq::empty()
    } else {
        let shorter = rows.drop_last();
        let before = lemma_filter_places(shorter, keep);
        let places = if keep(rows.last()) {
            before.push(rows.len() - 1)
        } else {
            before
        };
        assert forall|i: int| 0 <= i < rows.len() && keep(#[trigger] rows[i]) implies exists|k: int|
            0 <= k < places.len() && #[trigger] places[k] == i by {
            if i < rows.len() - 1 {
                assert(shorter[i] == rows[i]);
                let k = choose|k: int| 0 <= k < before.len() && #[trigger] before[k] == i;
                assert(places[k] == i);
            } else {
                assert(places[places.len() - 1] == i);
            }
        }
        places
    }
}

/// A filter changes nothing in a table whose rows it all accepts.
pub proof fn lemma_filter_of_accepted<T>(rows: Seq<T>, keep: spec_fn(T) -> bool)
    requires
        forall|i: int| 0 <= i < rows.len() ==> keep(#[trigger] rows[i]),
    ensures
        rows.filter(keep) == rows,
    decreases rows.len(),
{
    reveal(Seq::filter);
    if rows.len() > 0 {
        let shorter = rows.drop_last();
        assert forall|i: int| 0 <= i < shorter.len() implies keep(#[trigger] shorter[i]) by {
            assert(shorter[i] == rows[i]);
        }
        lemma_filter_of_accepted(shorter, keep);
        assert(shorter.push(rows.last()) =~= rows);
    }
}

/// A filter keeps a table oldest first.
pub proof fn lemma_filter_keeps_order<R: Row>(rows: Seq<R>, keep: spec_fn(R) -> bool)
    requires
        oldest_first(rows),
    ensures
        oldest_first(rows.filter(keep)),
{
    let places = lemma_filter_places(rows, keep);
    let kept = rows.filter(keep);
    assert forall|i: int, j: int| 0 <= i <= j < kept.len() implies (#[trigger] kept[i]).created().at_or_before(
        (#[trigger] kept[j]).created(),
    ) by {
        if i < j {
            assert(places[i] < places[j]);
        }
        assert(kept[i] == rows[places[i]] && kept[j] == rows[places[j]]);
    }
}

/// Finds where a row created at `at` enters the table.
pub fn find_insertion_index<R: Row>(rows: &Vec<R>, at: Timestamp) -> (k: usize)
    ensures
        k == insertion_index(rows@, at),
        k <= rows.len(),
{
    let mut k: usize = rows.len();
    assert(rows@.subrange(0, k as int) =~= rows@);
    while k > 0
        invariant
            k <= rows.len(),
            insertion_index(rows@, at) == insertion_index(rows@.subrange(0, k as int), at),
        decreases k,
    {
        let ghost prefix = rows@.subrange(0, k as int);
        assert(prefix.last() == rows@[k - 1]);
        let born: Timestamp = rows[k - 1].created_at();
        if !at.is_before(&born) {
            return k;
        }
        assert(prefix.drop_last() =~= rows@.subrange(0, k - 1));
        k = k - 1;
    }
    k
}

/// The listing of a table: its rows, youngest first.
pub open spec fn newest_first<R>(rows: Seq<R>) -> Seq<R> {
    Seq::new(rows.len(), |k: int| rows[rows.len() - 1 - k])
}

/// How many rows of a listing a page request skips: `(page - 1) * per_page`,
/// and nothing where that is negative.
pub open spec fn page_start(len: int, page: int, per_page: int) -> int {
    let offset = (page - 1) * per_page;
    if offset <= 0 {
        0
    } else if offset >= len {
        len
    } else {
        offset
    }
}

/// Where the page ends: `per_page` rows after its start, or at the end of the
/// listing; a negative `per_page` sets no limit.
pub open spec fn page_end(len: int, page: int, per_page: int) -> int {
    let start = page_start(len, page, per_page);
    if per_page < 0 || start + per_page >= len {
        len
    } else {
        start + per_page
    }
}

/// The page that a request cuts out of a listing. Pages are numbered from 1.
pub open spec fn page_of<R>(listing: Seq<R>, page: int, per_page: int) -> Seq<R> {
    listing.subrange(
        page_start(listing.len() as int, page, per_page),
        page_end(listing.len() as int, page, per_page),
    )
}

/// Computes the bounds of a page in a listing of `len` rows.
pub fn page_bounds(len: usize, page: i64, per_page: i64) -> (bounds: (usize, usize))
    ensures
        bounds.0 == page_start(len as int, page as int, per_page as int),
        bounds.1 == page_end(len as int, page as int, per_page as int),
        bounds.0 <= bounds.1 <= len,
{
    let wide_len: i128 = len as i128;
    let before: i128 = page as i128 - 1;
    assert(-0x8000_0000_0000_0001 <= before < 0x8000_0000_0000_0000);
    assert(-0x4000_0000_0000_0000_8000_0000_0000_0000 <= before * (per_page as i128)
        <= 0x4000_0000_0000_0000_8000_0000_0000_0000) by (nonlinear_arith)
        requires
            -0x8000_0000_0000_0001 <= before < 0x8000_0000_0000_0000,
            -0x8000_0000_0000_0000 <= per_page < 0x8000_0000_0000_0000,
    ;
    let offset: i128 = before * (per_page as i128);
    let start: usize = if offset <= 0 {
        0
    } else if offset >= wide_len {
        len
    } else {
        offset as usize
    };
    let end: usize = if per_page < 0 || start as i128 + per_page as i128 >= wide_len {
        len
    } else {
        (start as i128 + per_page as i128) as usize
    };
    (start, end)
}

/// The page of the youngest-first listing of `rows` that a request asks for.
pub fn page_newest_first<R: Row>(rows: &Vec<R>, page: i64, per_page: i64) -> (out: Vec<R>)
    ensures
        out@ == page_of(newest_first(rows@), page as int, per_page as int),
{
    let n: usize = rows.len();
    let (start, end) = page_bounds(n, page, per_page);
    let ghost listing = newest_first(rows@);
    let mut out: Vec<R> = Vec::new();
    let mut k: usize = start;
    while k < end
        invariant
            start <= k <= end <= n,
            n == rows.len(),
            listing == newest_first(rows@),
            out@ == listing.subrange(start as int, k as int),
        decreases end - k,
    {
        out.push(rows[n - 1 - k].copy());
        assert(out@ =~= listing.subrange(start as int, k + 1));
        k = k + 1;
    }
    out
}

/// The number of rows as the 64-bit count that a listing reports: it stops at
/// the largest such number.
pub open spec fn row_count(len: int) -> i64 {
    if len > i64::MAX {
        i64::MAX
    } else {
        len as i64
    }
}

/// The count that a listing reports for `len` rows.
pub fn count_rows(len: usize) -> (count: i64)
    ensures
        count == row_count(len as int),
{
    if len as u64 > 0x7fff_ffff_ffff_ffff {
        i64::MAX
    } else {
        len as i64
    }
}

/// `row` is a row of the table, and one that the filter accepts.
pub open spec fn stands_in<R>(rows: Seq<R>, keep: spec_fn(R) -> bool, row: R) -> bool {
    exists|i: int| 0 <= i < rows.len() && #[trigger] rows[i] == row && keep(rows[i])
}

/// Every row of a page of the filtered, youngest-first listing stands in the
/// table and is one that the filter accepts.
pub proof fn lemma_page_rows_stand_in_table<R>(
    rows: Seq<R>,
    keep: spec_fn(R) -> bool,
    page: int,
    per_page: int,
)
    ensures
        forall|k: int|
            0 <= k < page_of(newest_first(rows.filter(keep)), page, per_page).len() ==> stands_in(
                rows,
                keep,
                #[trigger] page_of(newest_first(rows.filter(keep)), page, per_page)[k],
            ),
{
    let places = lemma_filter_places(rows, keep);
    let kept = rows.filter(keep);
    let listing = newest_first(kept);
    let shown = page_of(listing, page, per_page);
    let start = page_start(listing.len() as int, page, per_page);
    assert forall|k: int| 0 <= k < shown.len() implies stands_in(rows, keep, #[trigger] shown[k]) by {
        let j = kept.len() - 1 - (start + k);
        assert(shown[k] == kept[j]);
        assert(kept[j] == rows[places[j]]);
    }
}

/// Page `page` of a listing holds the rows from `(page - 1) * per_page` on,
/// `per_page` of them or as many as are left.
pub proof fn lemma_page_contents<R>(listing: Seq<R>, page: int, per_page: int)
    requires
        page >= 1,
        per_page >= 0,
    ensures
        ({
            let offset = (page - 1) * per_page;
            let shown = page_of(listing, page, per_page);
            &&& offset >= 0
            &&& offset + per_page <= listing.len() ==> shown.len() == per_page
            &&& offset <= listing.len() < offset + per_page ==> shown.len() == listing.len() - offset
            &&& offset > listing.len() ==> shown.len() == 0
            &&& forall|k: int| 0 <= k < shown.len() ==> #[trigger] shown[k] == listing[offset + k]
        }),
{
    assert((page - 1) * per_page >= 0) by (nonlinear_arith)
        requires
            page >= 1,
            per_page >= 0,
    ;
}

/// In the listing of a table no row is older than a row that stands behind it.
pub proof fn lemma_listing_is_youngest_first<R: Row>(rows: Seq<R>)
    requires
        oldest_first(rows),
    ensures
        newest_first(rows).len() == rows.len(),
        forall|i: int, j: int|
            0 <= i <= j < rows.len() ==> (#[trigger] newest_first(rows)[j]).created().at_or_before(
                (#[trigger] newest_first(rows)[i]).created(),
            ),
{
    let listing = newest_first(rows);
    assert forall|i: int, j: int| 0 <= i <= j < rows.len() implies (#[trigger] listing[j]).created().at_or_before(
        (#[trigger] listing[i]).created(),
    ) by {
        assert(listing[j] == rows[rows.len() - 1 - j]);
        assert(listing[i] == rows[rows.len() - 1 - i]);
    }
}

/// No two texts of the list are the same.
pub open spec fn distinct_texts(keys: Seq<String>) -> bool {
    forall|i: int, j: int| 0 <= i < j < keys.len() ==> (#[trigger] keys[i])@ != (#[trigger] keys[j])@
}

/// No two pairs of the list are the same.
pub open spec fn distinct_pairs(pairs: Seq<(String, String)>) -> bool {
    forall|i: int, j: int|
        0 <= i < j < pairs.len() ==> !((#[trigger] pairs[i]).0@ == (#[trigger] pairs[j]).0@
            && pairs[i].1@ == pairs[j].1@)
}

/// Whether no two texts of the list are the same.
pub fn all_distinct(keys: &Vec<String>) -> (distinct: bool)
    ensures
        distinct == distinct_texts(keys@),
{
    let n: usize = keys.len();
    let mut j: usize = 0;
    while j < n
        invariant
            j <= n,
            n == keys.len(),
            forall|a: int, b: int| 0 <= a < b < j ==> (#[trigger] keys@[a])@ != (#[trigger] keys@[b])@,
        decreases n - j,
    {
        let mut i: usize = 0;
        while i < j
            invariant
                i <= j < n,
                n == keys.len(),
                forall|a: int| 0 <= a < i ==> (#[trigger] keys@[a])@ != keys@[j as int]@,
            decreases j - i,
        {
            if keys[i] == keys[j] {
                return false;
            }
            i = i + 1;
        }
        j = j + 1;
    }
    true
}

/// Whether no two pairs of the list are the same.
pub fn all_pairs_distinct(pairs: &Vec<(String, String)>) -> (distinct: bool)
    ensures
        distinct == distinct_pairs(pairs@),
{
    let n: usize = pairs.len();
    let mut j: usize = 0;
    while j < n
        invariant
            j <= n,
            n == pairs.len(),
            forall|a: int, b: int|
                0 <= a < b < j ==> !((#[trigger] pairs@[a]).0@ == (#[trigger] pairs@[b]).0@
                    && pairs@[a].1@ == pairs@[b].1@),
        decreases n - j,
    {
        let mut i: usize = 0;
        while i < j
            invariant
                i <= j < n,
                n == pairs.len(),
                forall|a: int|
                    0 <= a < i ==> !((#[trigger] pairs@[a]).0@ == pairs@[j as int].0@
                        && pairs@[a].1@ == pairs@[j as int].1@),
            decreases j - i,
        {
            if pairs[i].0 == pairs[j].0 && pairs[i].1 == pairs[j].1 {
                return false;
            }
            i = i + 1;
        }
        j = j + 1;
    }
    true
}

/// Whether the list holds the text `key`.
pub fn holds_text(keys: &Vec<String>, key: &String) -> (found: bool)
    ensures
        found == exists|i: int| 0 <= i < keys.len() && (#[trigger] keys@[i])@ == key@,
{
    let mut i: usize = 0;
    while i < keys.len()
        invariant
            i <= keys.len(),
            forall|j: int| 0 <= j < i ==> (#[trigger] keys@[j])@ != key@,
        decreases keys.len() - i,
    {
        if keys[i] == *key {
            return true;
        }
        i = i + 1;
    }
    false
}

/// Whether the rows stand oldest first.
pub fn is_oldest_first<R: Row>(rows: &Vec<R>) -> (ordered: bool)
    ensures
        ordered == oldest_first(rows@),
{
    let n: usize = rows.len();
    if n == 0 {
        return true;
    }
    let mut k: usize = 1;
    while k < n
        invariant
            1 <= k <= n,
            n == rows.len(),
            forall|i: int, j: int|
                0 <= i <= j < k ==> (#[trigger] rows@[i]).created().at_or_before(
                    (#[trigger] rows@[j]).created(),
                ),
        decreases n - k,
    {
        let earlier: Timestamp = rows[k - 1].created_at();
        let later: Timestamp = rows[k].created_at();
        if later.is_before(&earlier) {
            assert(!rows@[k - 1].created().at_or_before(rows@[k as int].created()));
            return false;
        }
        assert forall|i: int, j: int| 0 <= i <= j < k + 1 implies (#[trigger] rows@[i]).created().at_or_before(
            (#[trigger] rows@[j]).created(),
        ) by {
            if j == k && i < k {
                assert(rows@[i].created().at_or_before(rows@[k - 1].created()));
            }
        }
        k = k + 1;
    }
    true
}

/// The whole youngest-first listing of `rows`.
pub fn list_newest_first<R: Row>(rows: &Vec<R>) -> (out: Vec<R>)
    ensures
        out@ == newest_first(rows@),
{
    let n: usize = rows.len();
    let ghost listing = newest_first(rows@);
    let mut out: Vec<R> = Vec::new();
    let mut k: usize = 0;
    while k < n
        invariant
            k <= n,
            n == rows.len(),
            listing == newest_first(rows@),
            out@ == listing.subrange(0, k as int),
        decreases n - k,
    {
        out.push(rows[n - 1 - k].copy());
        assert(out@ =~= listing.subrange(0, k + 1));
        k = k + 1;
    }
    assert(listing.subrange(0, n as int) =~= listing);
    out
}

} // verus!
