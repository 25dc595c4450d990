//! The page model of the thread listing, built from the rows of the data source.

use std::fmt::Write;
use vstd::prelude::*;
use crate::order::{is_newest_first, lists_once, newest_first, ThreadRow};
use crate::text::{shorten, shortened, CONTENT_CHAR_LIMIT, TITLE_CHAR_LIMIT};

verus! {

/// One thread as the listing shows it.
#[derive(Clone, Debug)]
pub struct Thread {
    pub thread_id: String,
    pub user_id: String,
    pub created: String,
    pub last_updated: String,
    pub title: String,
    pub content: String,
    pub overflow: bool,
    pub num_comments: i32,
    pub multiple_comments: bool,
}

/// Everything the listing template is rendered from.
#[derive(Clone, Debug)]
pub struct PageState {
    pub num_threads: usize,
    pub threads: Vec<Thread>,
    pub user_id: String,
}

/// Why a listing could not be prepared.
#[derive(Clone, Copy, Debug, PartialEq, Eq, Structural)]
pub enum ListingError {
    /// A timestamp lies outside the calendar range, or the date pattern
    /// holds a specifier that cannot be rendered.
    UnformattableTimestamp,
}

/// The text that chrono renders for the instant `micros` (microseconds since
/// the Unix epoch, read as a naive UTC date and time) under the strftime
/// pattern `pattern`; `None` where the instant is out of range or the pattern
/// cannot be rendered.
pub uninterp spec fn formatted_time(micros: int, pattern: Seq<char>) -> Option<Seq<char>>;

/// Relies on chrono's `DateTime::from_timestamp_micros` (`None` out of range)
/// and on `NaiveDateTime::format`, whose `Display` fails on a pattern it
/// cannot render. The text depends on the instant and the pattern alone.
#[verifier::external_body]
fn format_timestamp(micros: i64, pattern: &str) -> (r: Option<String>)
    ensures
        match formatted_time(micros as int, pattern@) {
            Some(t) => r is Some && r->0@ == t,
            None => r is None,
        },
{
    let at = chrono::DateTime::from_timestamp_micros(micros)?;
    let mut out = String::new();
    match write!(out, "{}", at.naive_utc().format(pattern)) {
        Ok(()) => Some(out),
        Err(_) => None,
    }
}

/// Both timestamps of `row` can be rendered under `pattern`.
pub open spec fn row_formats(row: ThreadRow, pattern: Seq<char>) -> bool {
    &&& formatted_time(row.created.micros as int, pattern) is Some
    &&& formatted_time(row.last_updated.micros as int, pattern) is Some
}

/// `t` is `row` as listed, with `created` and `last_updated` as the rendered
/// timestamps: title and body shortened, the comment count carried over and
/// flagged when there is more than one comment.
pub open spec fn shows(t: Thread, row: ThreadRow, created: Seq<char>, last_updated: Seq<char>) -> bool {
    &&& t.thread_id@ == row.thread_id@
    &&& t.user_id@ == row.user_id@
    &&& t.created@ == created
    &&& t.last_updated@ == last_updated
    &&& t.title@ == shortened(row.title@, TITLE_CHAR_LIMIT as nat)
    &&& t.content@ == shortened(row.content@, CONTENT_CHAR_LIMIT as nat)
    &&& t.overflow == (row.content@.len() > CONTENT_CHAR_LIMIT)
    &&& t.num_comments == row.num_comments
    &&& t.multiple_comments == (row.num_comments > 1)
}

/// `t` is `row` as listed, with both timestamps rendered under `pattern`.
pub open spec fn lists_row(t: Thread, row: ThreadRow, pattern: Seq<char>) -> bool {
    &&& row_formats(row, pattern)
    &&& shows(
        t,
        row,
        formatted_time(row.created.micros as int, pattern)->0,
        formatted_time(row.last_updated.micros as int, pattern)->0,
    )
}

/// `page` lists `rows` newest first for the user `user_id`, under `pattern`.
pub open spec fn is_listing_of(
    page: PageState,
    rows: Seq<ThreadRow>,
    user_id: Seq<char>,
    pattern: Seq<char>,
) -> bool {
    &&& page.num_threads == rows.len()
    &&& page.threads@.len() == rows.len()
    &&& page.user_id@ == user_id
    &&& exists|order: Seq<int>|
        {
            &&& is_newest_first(rows, order)
            &&& forall|k: int|
                0 <= k < order.len() ==> lists_row(#[trigger] page.threads@[k], rows[order[k]], pattern)
        }
}

/// A listing counts every input row, and lists each of them exactly once.
pub proof fn listing_keeps_every_row(
    page: PageState,
    rows: Seq<ThreadRow>,
    user_id: Seq<char>,
    pattern: Seq<char>,
)
    requires
        is_listing_of(page, rows, user_id, pattern),
    ensures
        page.num_threads == rows.len(),
        page.threads@.len() == rows.len(),
        exists|order: Seq<int>|
            {
                &&& order.len() == rows.len()
                &&& forall|k: int|
                    0 <= k < order.len() ==> lists_row(#[trigger] page.threads@[k], rows[order[k]], pattern)
                &&& forall|i: int| 0 <= i < rows.len() ==> #[trigger] lists_once(order, i)
            },
{
    let order = choose|order: Seq<int>|
        {
            &&& is_newest_first(rows, order)
            &&& forall|k: int|
                0 <= k < order.len() ==> lists_row(#[trigger] page.threads@[k], rows[order[k]], pattern)
        };
    crate::order::newest_first_is_permutation(rows, order);
}

/// Builds the listed form of `row`, given its two timestamps as text.
pub fn summarize(row: &ThreadRow, created: String, last_updated: String) -> (t: Thread)
    ensures
        shows(t, *row, created@, last_updated@),
{
    let (title, _) = shorten(row.title.clone(), TITLE_CHAR_LIMIT);
    let (content, overflow) = shorten(row.content.clone(), CONTENT_CHAR_LIMIT);
    Thread {
        thread_id: row.thread_id.clone(),
        user_id: row.user_id.clone(),
        created,
        last_updated,
        title,
        content,
        overflow,
        num_comments: row.num_comments,
        multiple_comments: row.num_comments > 1,
    }
}

/// Orders `rows` newest first and turns each into its listed form, with
/// timestamps rendered under `date_pattern`. Fails exactly when some
/// timestamp cannot be rendered.
pub fn prepare(rows: Vec<ThreadRow>, user_id: String, date_pattern: &str) -> (r: Result<
    PageState,
    ListingError,
>)
    ensures
        r is Ok <==> forall|i: int| 0 <= i < rows@.len() ==> #[trigger] row_formats(rows@[i], date_pattern@),
        r matches Ok(page) ==> is_listing_of(page, rows@, user_id@, date_pattern@),
        r matches Err(e) ==> e == ListingError::UnformattableTimestamp,
{
    let order = newest_first(&rows);
    let ghost o = order@.map_values(|k: usize| k as int);
    let mut threads: Vec<Thread> = Vec::new();
    let mut k: usize = 0;
    while k < order.len()
        invariant
            is_newest_first(rows@, o),
            o.len() == order@.len(),
            forall|j: int| 0 <= j < order@.len() ==> #[trigger] o[j] == order@[j] as int,
            k <= order@.len(),
            threads@.len() == k,
            forall|j: int|
                0 <= j < k ==> lists_row(#[trigger] threads@[j], rows@[o[j]], date_pattern@),
        decreases order@.len() - k,
    {
        proof {
            assert(0 <= o[k as int] < rows@.len());
        }
        let row = &rows[order[k]];
        let created = match format_timestamp(row.created.micros, date_pattern) {
            Some(s) => s,
            None => {
                proof {
                    assert(!row_formats(rows@[o[k as int]], date_pattern@));
                }
                return Err(ListingError::UnformattableTimestamp);
            },
        };
        let last_updated = match format_timestamp(row.last_updated.micros, date_pattern) {
            Some(s) => s,
            None => {
                proof {
                    assert(!row_formats(rows@[o[k as int]], date_pattern@));
                }
                return Err(ListingError::UnformattableTimestamp);
            },
        };
        let t = summarize(row, created, last_updated);
        threads.push(t);
        k += 1;
    }
    proof {
        assert forall|i: int| 0 <= i < rows@.len() implies #[trigger] row_formats(rows@[i], date_pattern@) by {
            assert(crate::order::lists(o, i));
            let j = choose|j: int| 0 <= j < o.len() && o[j] == i;
            assert(lists_row(threads@[j], rows@[o[j]], date_pattern@));
        }
    }
    let num_threads = threads.len();
    let page = PageState { num_threads, threads, user_id };
    proof {
        assert(is_newest_first(rows@, o));
    }
    Ok(page)
}

} // verus!
