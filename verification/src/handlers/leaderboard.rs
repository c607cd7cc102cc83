//! The leaderboard endpoint: page size, the extra row that tells whether a
//! next page exists, and the cursor for it.

use vstd::prelude::*;
use crate::entities::StoreError;
use crate::services::leaderboard::{page, page_start, LeaderboardEntry, UserStats};
use crate::services::traits::LeaderboardServiceTrait;
use crate::sorting::{ascending_places, as_places, places_ascending};
use crate::text::same_text;

verus! {

/// What a client asks of the leaderboard.
#[derive(Debug, PartialEq, Eq)]
pub struct LeaderboardQuery {
    pub limit: u64,
    pub after_rank: Option<i64>,
}

/// The page size where the client names none.
pub fn default_limit() -> (limit: u64)
    ensures
        limit == 20,
{
    20
}

/// One page of the leaderboard as the client gets it.
#[derive(Debug, PartialEq, Eq)]
pub struct LeaderboardResponse {
    pub entries: Vec<LeaderboardEntry>,
    pub has_next: bool,
    pub next_cursor: Option<i64>,
}

/// The largest page that is served.
pub open spec fn max_page_size() -> u64 {
    100
}

/// The page size that is served for a requested one.
pub open spec fn served_limit(requested: u64) -> u64 {
    if requested < max_page_size() {
        requested
    } else {
        max_page_size()
    }
}

/// The rows shown of those fetched for a page of `limit`: all of them, or,
/// where more than `limit` came back, all but the last.
pub open spec fn shown_rows(limit: u64, fetched: Seq<LeaderboardEntry>) -> Seq<LeaderboardEntry> {
    if fetched.len() > limit {
        fetched.drop_last()
    } else {
        fetched
    }
}

/// The cursor for the next page: the rank of the last row shown, where more
/// than `limit` rows came back.
pub open spec fn next_cursor_of(limit: u64, fetched: Seq<LeaderboardEntry>) -> Option<i64> {
    if fetched.len() > limit && shown_rows(limit, fetched).len() > 0 {
        Some(shown_rows(limit, fetched).last().rank)
    } else {
        None
    }
}

/// `response` is the page of `limit` made of the rows `fetched`.
pub open spec fn is_response_to(
    response: LeaderboardResponse,
    limit: u64,
    fetched: Seq<LeaderboardEntry>,
) -> bool {
    &&& response.entries@ == shown_rows(limit, fetched)
    &&& response.has_next == (fetched.len() > limit)
    &&& response.next_cursor == next_cursor_of(limit, fetched)
}

/// The page size that is served for a requested one: at most 100.
pub fn page_size(requested: u64) -> (limit: u64)
    ensures
        limit == served_limit(requested),
{
    if requested < 100 {
        requested
    } else {
        100
    }
}

/// The page of `limit` made of the rows fetched for it. One row more than
/// `limit` is asked of the leaderboard; where it comes back, a next page
/// exists, and the row is dropped.
pub fn leaderboard_response(
    limit: u64,
    fetched: Vec<LeaderboardEntry>,
) -> (response: LeaderboardResponse)
    ensures
        is_response_to(response, limit, fetched@),
{
    let has_next = fetched.len() as u64 > limit;
    let mut entries = fetched;
    if has_next {
        entries.pop();
    }
    let next_cursor = if has_next && entries.len() > 0 {
        Some(entries[entries.len() - 1].rank)
    } else {
        None
    };
    LeaderboardResponse { entries, has_next, next_cursor }
}

/// `answer` is what the endpoint makes of `fetched`, and `fetched` is what
/// `service` may give when asked for one row more than the served page.
pub open spec fn serves_page<S: LeaderboardServiceTrait>(
    service: S,
    query: LeaderboardQuery,
    fetched: Result<Vec<LeaderboardEntry>, StoreError>,
    answer: Result<LeaderboardResponse, StoreError>,
) -> bool {
    &&& service.may_get_leaderboard_page(
        (served_limit(query.limit) + 1) as u64,
        query.after_rank,
        fetched,
    )
    &&& match fetched {
        Ok(rows) => answer matches Ok(response) && is_response_to(
            response,
            served_limit(query.limit),
            rows@,
        ),
        Err(error) => answer == Err::<LeaderboardResponse, StoreError>(error),
    }
}

/// Served from a snapshot, the page of the endpoint is the page of the
/// snapshot at the served size, and it has a next page exactly when the
/// ranking goes on after it.
pub proof fn lemma_served_page_of_snapshot(
    population: Seq<UserStats>,
    requested: u64,
    after_rank: Option<i64>,
)
    ensures
        ({
            let limit = served_limit(requested);
            let fetched = page(population, (limit + 1) as u64, after_rank);
            &&& shown_rows(limit, fetched) == page(population, limit, after_rank)
            &&& (fetched.len() > limit) == (page_start(population, after_rank) + limit
                < population.len())
        }),
{
    let limit = served_limit(requested);
    let fetched = page(population, (limit + 1) as u64, after_rank);
    assert(shown_rows(limit, fetched) =~= page(population, limit, after_rank));
}

/// Serves one page of the leaderboard: asks the service, cached or not, for
/// one row more than the served page size, and builds the page from what
/// comes back.
pub fn get_leaderboard<S: LeaderboardServiceTrait>(
    service: &mut S,
    query: &LeaderboardQuery,
) -> (answer: Result<LeaderboardResponse, StoreError>)
    ensures
        exists|fetched: Result<Vec<LeaderboardEntry>, StoreError>| #[trigger]
            serves_page(*old(service), *query, fetched, answer),
        old(service).is_steady() ==> *final(service) == *old(service),
{
    let limit = page_size(query.limit);
    let fetched = service.get_leaderboard_page(limit + 1, query.after_rank);
    let ghost witness = fetched;
    let answer = match fetched {
        Ok(rows) => Ok(leaderboard_response(limit, rows)),
        Err(error) => Err(error),
    };
    proof {
        assert(serves_page(*old(service), *query, witness, answer));
    }
    answer
}

/// How many rows the top of the leaderboard holds in a user's view.
pub fn top_size() -> (size: u64)
    ensures
        size == 10,
{
    10
}

/// Whether the top of the leaderboard is the whole view of a user at
/// `position`.
pub fn is_in_top(position: i64) -> (in_top: bool)
    ensures
        in_top == (position < 10),
{
    position < 10
}

/// The page around a user at `position`: three rows that start with the
/// user's.
pub fn surrounding_page(position: i64) -> (window: (u64, Option<i64>))
    requires
        position > i64::MIN,
    ensures
        window == (3u64, Some((position - 1) as i64)),
{
    (3, Some(position - 1))
}

/// The first row of a user among `rows`, where there is one.
pub open spec fn own_row(
    rows: Seq<LeaderboardEntry>,
    user_id: Seq<char>,
) -> Option<LeaderboardEntry> {
    if exists|i: int| 0 <= i < rows.len() && (#[trigger] rows[i]).user_id@ == user_id {
        Some(
            rows[choose|i: int|
                0 <= i < rows.len() && (#[trigger] rows[i]).user_id@ == user_id && forall|j: int|
                    0 <= j < i ==> (#[trigger] rows[j]).user_id@ != user_id],
        )
    } else {
        None
    }
}

/// The ranks of rows as numbers to order them by.
pub open spec fn rank_keys(rows: Seq<LeaderboardEntry>) -> Seq<i128> {
    Seq::new(rows.len(), |i: int| rows[i].rank as i128)
}

/// Rows by rank ascending, rows of the same rank in the order given.
pub open spec fn by_rank(rows: Seq<LeaderboardEntry>) -> Seq<LeaderboardEntry> {
    Seq::new(rows.len(), |k: int| rows[ascending_places(rank_keys(rows))[k]])
}

/// Rows without those that repeat the user of the row kept before them.
pub open spec fn without_repeats(rows: Seq<LeaderboardEntry>) -> Seq<LeaderboardEntry>
    decreases rows.len(),
{
    if rows.len() == 0 {
        rows
    } else {
        let front = without_repeats(rows.drop_last());
        if front.len() > 0 && front.last().user_id@ == rows.last().user_id@ {
            front
        } else {
            front.push(rows.last())
        }
    }
}

/// The view of a user who is not in the top: the top, and the user's own
/// row from the page around them, put in by rank and not repeated.
pub open spec fn user_view(
    top: Seq<LeaderboardEntry>,
    surrounding: Seq<LeaderboardEntry>,
    user_id: Seq<char>,
) -> Seq<LeaderboardEntry> {
    match own_row(surrounding, user_id) {
        Some(row) => without_repeats(by_rank(top.push(row))),
        None => top,
    }
}

/// The first row of a user among `rows`, where there is one.
fn find_own_row(rows: &Vec<LeaderboardEntry>, user_id: &str) -> (found: Option<usize>)
    ensures
        match found {
            Some(i) => i < rows@.len() && own_row(rows@, user_id@) == Some(rows@[i as int]),
            None => own_row(rows@, user_id@) is None,
        },
{
    let mut i: usize = 0;
    while i < rows.len()
        invariant
            i <= rows@.len(),
            forall|j: int| 0 <= j < i ==> (#[trigger] rows@[j]).user_id@ != user_id@,
        decreases rows@.len() - i,
    {
        if same_text(rows[i].user_id.as_str(), user_id) {
            proof {
                let chosen = choose|c: int|
                    0 <= c < rows@.len() && (#[trigger] rows@[c]).user_id@ == user_id@
                        && forall|j: int| 0 <= j < c ==> (#[trigger] rows@[j]).user_id@ != user_id@;
                assert(chosen == i);
            }
            return Some(i);
        }
        i = i + 1;
    }
    None
}

/// Rows by rank ascending, rows of the same rank in the order given.
fn sort_by_rank(rows: &Vec<LeaderboardEntry>) -> (sorted: Vec<LeaderboardEntry>)
    ensures
        sorted@ == by_rank(rows@),
{
    let mut keys: Vec<i128> = Vec::new();
    let mut i: usize = 0;
    while i < rows.len()
        invariant
            i <= rows@.len(),
            keys@.len() == i,
            forall|j: int| 0 <= j < i ==> keys@[j] == rows@[j].rank as i128,
        decreases rows@.len() - i,
    {
        keys.push(rows[i].rank as i128);
        i = i + 1;
    }
    assert(keys@ =~= rank_keys(rows@));
    let order = places_ascending(&keys);
    let mut sorted: Vec<LeaderboardEntry> = Vec::new();
    let mut k: usize = 0;
    while k < order.len()
        invariant
            k <= order@.len(),
            order@.len() == rows@.len(),
            sorted@.len() == k,
            as_places(order@) == ascending_places(rank_keys(rows@)),
            forall|j: int| 0 <= j < order@.len() ==> #[trigger] order@[j] < rows@.len(),
            forall|j: int| 0 <= j < k ==> sorted@[j] == by_rank(rows@)[j],
        decreases order@.len() - k,
    {
        assert(as_places(order@)[k as int] == order@[k as int] as int);
        sorted.push(rows[order[k]].clone());
        k = k + 1;
    }
    assert(sorted@ =~= by_rank(rows@));
    sorted
}

/// Rows without those that repeat the user of the row kept before them.
fn drop_repeats(rows: Vec<LeaderboardEntry>) -> (kept: Vec<LeaderboardEntry>)
    ensures
        kept@ == without_repeats(rows@),
{
    let mut kept: Vec<LeaderboardEntry> = Vec::new();
    let mut i: usize = 0;
    assert(rows@.subrange(0, 0) =~= Seq::<LeaderboardEntry>::empty());
    while i < rows.len()
        invariant
            i <= rows@.len(),
            kept@ == without_repeats(rows@.subrange(0, i as int)),
        decreases rows@.len() - i,
    {
        proof {
            let upto = rows@.subrange(0, i + 1);
            assert(upto.drop_last() =~= rows@.subrange(0, i as int));
            assert(upto.last() == rows@[i as int]);
        }
        let repeats = kept.len() > 0 && same_text(
            kept[kept.len() - 1].user_id.as_str(),
            rows[i].user_id.as_str(),
        );
        if !repeats {
            kept.push(rows[i].clone());
        }
        i = i + 1;
    }
    assert(rows@.subrange(0, rows@.len() as int) =~= rows@);
    kept
}

/// The view of a user who is not in the top, from the top and the page
/// around the user.
pub fn get_user_leaderboard(
    top: Vec<LeaderboardEntry>,
    surrounding: &Vec<LeaderboardEntry>,
    user_id: &str,
) -> (rows: Vec<LeaderboardEntry>)
    ensures
        rows@ == user_view(top@, surrounding@, user_id@),
{
    match find_own_row(surrounding, user_id) {
        None => top,
        Some(place) => {
            let mut all = top;
            all.push(surrounding[place].clone());
            let sorted = sort_by_rank(&all);
            drop_repeats(sorted)
        },
    }
}

/// What a user sees of the leaderboard, from what the service answered:
/// the top alone for a user in it, else the top with the user's own row
/// from the page around them; the first failure is passed on.
pub open spec fn user_view_of(
    top: Result<Vec<LeaderboardEntry>, StoreError>,
    position: Result<i64, StoreError>,
    surrounding: Result<Vec<LeaderboardEntry>, StoreError>,
    user_id: Seq<char>,
) -> Result<Seq<LeaderboardEntry>, StoreError> {
    match top {
        Err(error) => Err(error),
        Ok(top_rows) => match position {
            Err(error) => Err(error),
            Ok(place) => if place < 10 {
                Ok(top_rows@)
            } else {
                match surrounding {
                    Err(error) => Err(error),
                    Ok(rows) => Ok(user_view(top_rows@, rows@, user_id)),
                }
            },
        },
    }
}

/// `answer` is the view of `user_id` made of `top`, `position` and
/// `surrounding`, which are what the service may give, as it is at each
/// call, when asked for the first ten rows, for the user's rank, and for the
/// three rows that start with the user's.
pub open spec fn serves_user_view<S: LeaderboardServiceTrait>(
    first: S,
    second: S,
    third: S,
    user_id: Seq<char>,
    top: Result<Vec<LeaderboardEntry>, StoreError>,
    position: Result<i64, StoreError>,
    surrounding: Result<Vec<LeaderboardEntry>, StoreError>,
    answer: Result<Vec<LeaderboardEntry>, StoreError>,
) -> bool {
    &&& first.may_get_leaderboard_page(10, None, top)
    &&& top is Ok ==> second.may_get_user_leaderboard_position(user_id, position)
    &&& top is Ok && position is Ok && position->Ok_0 >= 10 ==> third.may_get_leaderboard_page(
        3,
        Some((position->Ok_0 - 1) as i64),
        surrounding,
    )
    &&& match answer {
        Ok(rows) => user_view_of(top, position, surrounding, user_id) == Ok::<
            Seq<LeaderboardEntry>,
            StoreError,
        >(rows@),
        Err(error) => user_view_of(top, position, surrounding, user_id) == Err::<
            Seq<LeaderboardEntry>,
            StoreError,
        >(error),
    }
}

/// Serves what a user sees of the leaderboard: asks the service, cached or
/// not, for the first ten rows and for the user's rank, and, for a user
/// below the top, for the page around them.
pub fn user_leaderboard<S: LeaderboardServiceTrait>(
    service: &mut S,
    user_id: &str,
) -> (answer: Result<Vec<LeaderboardEntry>, StoreError>)
    ensures
        exists|
            second: S,
            third: S,
            top: Result<Vec<LeaderboardEntry>, StoreError>,
            position: Result<i64, StoreError>,
            surrounding: Result<Vec<LeaderboardEntry>, StoreError>,
        | #[trigger]
            serves_user_view(
                *old(service),
                second,
                third,
                user_id@,
                top,
                position,
                surrounding,
                answer,
            ) && (old(service).is_steady() ==> second == *old(service) && third == *old(
                service,
            )),
        old(service).is_steady() ==> *final(service) == *old(service),
{
    let ghost first = *service;
    let top = service.get_leaderboard_page(top_size(), None);
    let ghost second = *service;
    let ghost seen_top = top;
    let top_rows = match top {
        Ok(rows) => rows,
        Err(error) => {
            proof {
                let nothing: Result<i64, StoreError> = Err(error);
                assert(serves_user_view(
                    first,
                    first,
                    first,
                    user_id@,
                    seen_top,
                    nothing,
                    seen_top,
                    Err::<Vec<LeaderboardEntry>, StoreError>(error),
                ));
            }
            return Err(error);
        },
    };
    let position = service.get_user_leaderboard_position(user_id);
    let ghost third = *service;
    let ghost seen_position = position;
    let place = match position {
        Ok(place) => place,
        Err(error) => {
            proof {
                assert(serves_user_view(
                    first,
                    second,
                    second,
                    user_id@,
                    seen_top,
                    seen_position,
                    seen_top,
                    Err::<Vec<LeaderboardEntry>, StoreError>(error),
                ));
            }
            return Err(error);
        },
    };
    if is_in_top(place) {
        proof {
            assert(serves_user_view(
                first,
                second,
                second,
                user_id@,
                seen_top,
                seen_position,
                seen_top,
                Ok::<Vec<LeaderboardEntry>, StoreError>(top_rows),
            ));
        }
        return Ok(top_rows);
    }
    let (limit, cursor) = surrounding_page(place);
    let surrounding = service.get_leaderboard_page(limit, cursor);
    let ghost seen_surrounding = surrounding;
    let answer = match surrounding {
        Ok(rows) => Ok(get_user_leaderboard(top_rows, &rows, user_id)),
        Err(error) => Err(error),
    };
    proof {
        assert(serves_user_view(
            first,
            second,
            third,
            user_id@,
            seen_top,
            seen_position,
            seen_surrounding,
            answer,
        ));
    }
    answer
}

} // verus!
