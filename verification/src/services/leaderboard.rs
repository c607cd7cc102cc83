//! The leaderboard ranking engine: a total order over a snapshot of the
//! user population, dense ranks, pages by rank cursor and single positions.

use vstd::prelude::*;
use vstd::string::*;
use vstd::utf8::*;
use crate::entities::StoreError;
use crate::services::traits::LeaderboardServiceTrait;
use crate::text::{
    copy_optional_text, lemma_lex_asymmetric, lemma_lex_irreflexive, lemma_lex_total,
    lemma_lex_transitive, order_text, same_text, text_before, Order,
};

verus! {

/// One user of the population with the three aggregated facts that rank them.
#[derive(Debug, PartialEq, Eq)]
pub struct UserStats {
    pub user_id: String,
    pub name: String,
    pub dorm: Option<String>,
    pub coins_earned: i64,
    pub coins_spent: i64,
    pub challenges_completed: i64,
}

impl Clone for UserStats {
    fn clone(&self) -> (copy: Self)
        ensures
            copy == *self,
    {
        UserStats {
            user_id: self.user_id.clone(),
            name: self.name.clone(),
            dorm: copy_optional_text(&self.dorm),
            coins_earned: self.coins_earned,
            coins_spent: self.coins_spent,
            challenges_completed: self.challenges_completed,
        }
    }
}

/// A user with the sums that the store found for them: none where the user
/// has no completions or no purchases.
#[derive(Debug, PartialEq, Eq)]
pub struct UserSums {
    pub user_id: String,
    pub name: String,
    pub dorm: Option<String>,
    pub total_earned: Option<i64>,
    pub total_spent: Option<i64>,
    pub challenge_count: Option<i64>,
}

/// A sum that the store found, or 0 where it found nothing to add up.
pub open spec fn sum_or_zero(sum: Option<i64>) -> i64 {
    match sum {
        Some(s) => s,
        None => 0,
    }
}

/// The user of the population that a user with their sums becomes: a user
/// without completions or purchases takes part with zeros.
pub open spec fn stats_of(sums: UserSums) -> UserStats {
    UserStats {
        user_id: sums.user_id,
        name: sums.name,
        dorm: sums.dorm,
        coins_earned: sum_or_zero(sums.total_earned),
        coins_spent: sum_or_zero(sums.total_spent),
        challenges_completed: sum_or_zero(sums.challenge_count),
    }
}

/// A sum that the store found, or 0 where it found nothing to add up.
fn or_zero(sum: Option<i64>) -> (n: i64)
    ensures
        n == sum_or_zero(sum),
{
    match sum {
        Some(s) => s,
        None => 0,
    }
}

/// The snapshot of the population from the users with their sums, user for
/// user in the order given: every user takes part, also one for whom the
/// store found nothing to add up.
pub fn population_of(rows: Vec<UserSums>) -> (population: Vec<UserStats>)
    ensures
        population@.len() == rows@.len(),
        forall|i: int| 0 <= i < rows@.len() ==> #[trigger] population@[i] == stats_of(rows@[i]),
{
    let mut population: Vec<UserStats> = Vec::new();
    let mut i: usize = 0;
    while i < rows.len()
        invariant
            i <= rows@.len(),
            population@.len() == i,
            forall|j: int| 0 <= j < i ==> #[trigger] population@[j] == stats_of(rows@[j]),
        decreases rows@.len() - i,
    {
        let row = &rows[i];
        population.push(
            UserStats {
                user_id: row.user_id.clone(),
                name: row.name.clone(),
                dorm: copy_optional_text(&row.dorm),
                coins_earned: or_zero(row.total_earned),
                coins_spent: or_zero(row.total_spent),
                challenges_completed: or_zero(row.challenge_count),
            },
        );
        i = i + 1;
    }
    population
}

/// One row of the leaderboard: a user with the rank assigned to them.
#[derive(Debug, PartialEq, Eq)]
pub struct LeaderboardEntry {
    pub rank: i64,
    pub user_id: String,
    pub name: String,
    pub dorm: Option<String>,
    pub coins_earned: i64,
    pub coins_spent: i64,
    pub challenges_completed: i64,
}

impl Clone for LeaderboardEntry {
    fn clone(&self) -> (copy: Self)
        ensures
            copy == *self,
    {
        LeaderboardEntry {
            rank: self.rank,
            user_id: self.user_id.clone(),
            name: self.name.clone(),
            dorm: copy_optional_text(&self.dorm),
            coins_earned: self.coins_earned,
            coins_spent: self.coins_spent,
            challenges_completed: self.challenges_completed,
        }
    }
}

/// Net coins: what a user earned less what they spent.
pub open spec fn net_coins(user: UserStats) -> int {
    user.coins_earned - user.coins_spent
}

/// `a` outranks `b` by the ranking keys: more net coins; with equal net
/// coins, more challenges completed; with both equal, the name that comes
/// first.
pub open spec fn outranks(a: UserStats, b: UserStats) -> bool {
    ||| net_coins(a) > net_coins(b)
    ||| net_coins(a) == net_coins(b) && a.challenges_completed > b.challenges_completed
    ||| net_coins(a) == net_coins(b) && a.challenges_completed == b.challenges_completed
        && text_before(a.name@, b.name@)
}

/// `a` and `b` tie on all three ranking keys.
pub open spec fn same_keys(a: UserStats, b: UserStats) -> bool {
    &&& net_coins(a) == net_coins(b)
    &&& a.challenges_completed == b.challenges_completed
    &&& encode_utf8(a.name@) == encode_utf8(b.name@)
}

/// The user at place `i` of the snapshot stands ahead of the user at place
/// `j`: by the ranking keys, or, where all three tie, by coming first in the
/// snapshot.
pub open spec fn ahead(population: Seq<UserStats>, i: int, j: int) -> bool {
    outranks(population[i], population[j]) || (!outranks(population[j], population[i]) && i < j)
}

/// The places of the users who stand ahead of the user at place `i`.
pub open spec fn ahead_of(population: Seq<UserStats>, i: int) -> Set<int> {
    Set::new(|j: int| 0 <= j < population.len() && ahead(population, j, i))
}

/// The rank of the user at place `i`: one more than the number of users who
/// stand ahead of them.
pub open spec fn rank_of(population: Seq<UserStats>, i: int) -> int {
    1 + ahead_of(population, i).len() as int
}

/// The place in the snapshot of the user who holds `rank`.
pub open spec fn place_of_rank(population: Seq<UserStats>, rank: int) -> int {
    choose|i: int| 0 <= i < population.len() && rank_of(population, i) == rank
}

/// The leaderboard row of `user` at `rank`.
pub open spec fn entry_for(user: UserStats, rank: int) -> LeaderboardEntry {
    LeaderboardEntry {
        rank: rank as i64,
        user_id: user.user_id,
        name: user.name,
        dorm: user.dorm,
        coins_earned: user.coins_earned,
        coins_spent: user.coins_spent,
        challenges_completed: user.challenges_completed,
    }
}

/// The whole leaderboard of a snapshot, by rank ascending.
pub open spec fn ranking(population: Seq<UserStats>) -> Seq<LeaderboardEntry> {
    Seq::new(
        population.len(),
        |k: int| entry_for(population[place_of_rank(population, k + 1)], k + 1),
    )
}

/// How many rows precede a page that starts after `after_rank`.
pub open spec fn page_start(population: Seq<UserStats>, after_rank: Option<i64>) -> int {
    match after_rank {
        Some(rank) => if rank <= 0 {
            0
        } else if rank >= population.len() {
            population.len() as int
        } else {
            rank as int
        },
        None => 0,
    }
}

/// Where a page of at most `limit` rows that starts after `after_rank` ends.
pub open spec fn page_end(population: Seq<UserStats>, limit: u64, after_rank: Option<i64>) -> int {
    let start = page_start(population, after_rank);
    if start + limit >= population.len() {
        population.len() as int
    } else {
        start + limit
    }
}

/// The page of at most `limit` rows whose ranks are above `after_rank`, by
/// rank ascending.
pub open spec fn page(
    population: Seq<UserStats>,
    limit: u64,
    after_rank: Option<i64>,
) -> Seq<LeaderboardEntry> {
    ranking(population).subrange(
        page_start(population, after_rank),
        page_end(population, limit, after_rank),
    )
}

/// The first place in the snapshot that holds the user `user_id`, where
/// there is one.
pub open spec fn place_of_user(population: Seq<UserStats>, user_id: Seq<char>) -> Option<int> {
    if exists|i: int| 0 <= i < population.len() && population[i].user_id@ == user_id {
        Some(
            choose|i: int|
                0 <= i < population.len() && population[i].user_id@ == user_id && forall|j: int|
                    0 <= j < i ==> population[j].user_id@ != user_id,
        )
    } else {
        None
    }
}

/// Of any two users exactly one outranks the other, or they tie on all keys.
pub proof fn lemma_outranks_trichotomy(a: UserStats, b: UserStats)
    ensures
        outranks(a, b) || outranks(b, a) || same_keys(a, b),
        !(outranks(a, b) && outranks(b, a)),
        !(outranks(a, b) && same_keys(a, b)),
{
    let x = encode_utf8(a.name@);
    let y = encode_utf8(b.name@);
    lemma_lex_asymmetric(x, y);
    lemma_lex_irreflexive(x);
    if x != y {
        lemma_lex_total(x, y);
    }
}

/// To outrank is transitive, also across ties.
pub proof fn lemma_outranks_transitive(a: UserStats, b: UserStats, c: UserStats)
    ensures
        outranks(a, b) && outranks(b, c) ==> outranks(a, c),
        outranks(a, b) && same_keys(b, c) ==> outranks(a, c),
        same_keys(a, b) && outranks(b, c) ==> outranks(a, c),
        same_keys(a, b) && same_keys(b, c) ==> same_keys(a, c),
{
    let x = encode_utf8(a.name@);
    let y = encode_utf8(b.name@);
    let z = encode_utf8(c.name@);
    if text_before(a.name@, b.name@) && text_before(b.name@, c.name@) {
        lemma_lex_transitive(x, y, z);
    }
}

/// Standing is a strict total order on the places of a snapshot: of two
/// different places exactly one stands ahead of the other.
pub proof fn lemma_ahead_total(population: Seq<UserStats>, i: int, j: int)
    ensures
        i != j ==> (ahead(population, i, j) || ahead(population, j, i)),
        !(ahead(population, i, j) && ahead(population, j, i)),
        !ahead(population, i, i),
{
    lemma_outranks_trichotomy(population[i], population[j]);
    lemma_outranks_trichotomy(population[i], population[i]);
}

/// Standing is transitive.
pub proof fn lemma_ahead_transitive(population: Seq<UserStats>, i: int, j: int, k: int)
    requires
        ahead(population, i, j),
        ahead(population, j, k),
    ensures
        ahead(population, i, k),
{
    let a = population[i];
    let b = population[j];
    let c = population[k];
    lemma_outranks_trichotomy(a, b);
    lemma_outranks_trichotomy(b, a);
    lemma_outranks_trichotomy(b, c);
    lemma_outranks_trichotomy(c, b);
    lemma_outranks_trichotomy(a, c);
    lemma_outranks_trichotomy(c, a);
    lemma_outranks_transitive(a, b, c);
    lemma_outranks_transitive(c, a, b);
    lemma_outranks_transitive(b, c, a);
}

/// Whether the user at place `i` stands ahead of the user at place `j`.
fn stands_ahead(population: &Vec<UserStats>, i: usize, j: usize) -> (is_ahead: bool)
    requires
        i < population@.len(),
        j < population@.len(),
    ensures
        is_ahead == ahead(population@, i as int, j as int),
{
    let a = &population[i];
    let b = &population[j];
    proof {
        lemma_outranks_trichotomy(*a, *b);
        lemma_outranks_trichotomy(*b, *a);
        let x = encode_utf8(a.name@);
        let y = encode_utf8(b.name@);
        lemma_lex_irreflexive(x);
        if x != y {
            lemma_lex_total(x, y);
        }
    }
    let net_a: i128 = a.coins_earned as i128 - a.coins_spent as i128;
    let net_b: i128 = b.coins_earned as i128 - b.coins_spent as i128;
    if net_a != net_b {
        return net_a > net_b;
    }
    if a.challenges_completed != b.challenges_completed {
        return a.challenges_completed > b.challenges_completed;
    }
    match order_text(a.name.as_str(), b.name.as_str()) {
        Order::Before => true,
        Order::After => false,
        Order::Same => i < j,
    }
}

/// `order` lists places of the snapshot, each ahead of all that follow it.
pub open spec fn by_standing(population: Seq<UserStats>, order: Seq<usize>) -> bool {
    &&& forall|p: int| 0 <= p < order.len() ==> #[trigger] order[p] < population.len()
    &&& forall|p: int, q: int|
        0 <= p < q < order.len() ==> ahead(population, order[p] as int, order[q] as int)
}

/// Merges two lists of places that are each in standing order.
fn merge_by_standing(
    population: &Vec<UserStats>,
    left: &Vec<usize>,
    right: &Vec<usize>,
) -> (merged: Vec<usize>)
    requires
        by_standing(population@, left@),
        by_standing(population@, right@),
        forall|p: int, q: int|
            0 <= p < left@.len() && 0 <= q < right@.len() ==> left@[p] != right@[q],
    ensures
        by_standing(population@, merged@),
        merged@.len() == left@.len() + right@.len(),
        forall|p: int|
            0 <= p < merged@.len() ==> left@.contains(#[trigger] merged@[p]) || right@.contains(
                merged@[p],
            ),
        forall|p: int| 0 <= p < left@.len() ==> merged@.contains(#[trigger] left@[p]),
        forall|q: int| 0 <= q < right@.len() ==> merged@.contains(#[trigger] right@[q]),
{
    let mut merged: Vec<usize> = Vec::new();
    let mut i: usize = 0;
    let mut j: usize = 0;
    while i < left.len() || j < right.len()
        invariant
            by_standing(population@, left@),
            by_standing(population@, right@),
            forall|p: int, q: int|
                0 <= p < left@.len() && 0 <= q < right@.len() ==> left@[p] != right@[q],
            i <= left@.len(),
            j <= right@.len(),
            merged@.len() == i + j,
            by_standing(population@, merged@),
            forall|p: int, q: int|
                0 <= p < merged@.len() && i <= q < left@.len() ==> ahead(
                    population@,
                    merged@[p] as int,
                    left@[q] as int,
                ),
            forall|p: int, q: int|
                0 <= p < merged@.len() && j <= q < right@.len() ==> ahead(
                    population@,
                    merged@[p] as int,
                    right@[q] as int,
                ),
            forall|p: int|
                0 <= p < merged@.len() ==> left@.contains(#[trigger] merged@[p])
                    || right@.contains(merged@[p]),
            forall|p: int| 0 <= p < i ==> merged@.contains(#[trigger] left@[p]),
            forall|q: int| 0 <= q < j ==> merged@.contains(#[trigger] right@[q]),
        decreases left@.len() - i + right@.len() - j,
    {
        let ghost before = merged@;
        let from_left = if j >= right.len() {
            true
        } else if i >= left.len() {
            false
        } else {
            stands_ahead(population, left[i], right[j])
        };
        if from_left {
            let place = left[i];
            merged.push(place);
            proof {
                assert(left@.contains(place));
                assert forall|q: int| i + 1 <= q < left@.len() implies ahead(
                    population@,
                    place as int,
                    left@[q] as int,
                ) by {}
                assert forall|q: int| j <= q < right@.len() implies ahead(
                    population@,
                    place as int,
                    right@[q] as int,
                ) by {
                    if q > j {
                        lemma_ahead_transitive(
                            population@,
                            place as int,
                            right@[j as int] as int,
                            right@[q] as int,
                        );
                    }
                }
                assert forall|p: int| 0 <= p < i + 1 implies merged@.contains(
                    #[trigger] left@[p],
                ) by {
                    if p < i {
                        let k = choose|k: int| 0 <= k < before.len() && before[k] == left@[p];
                        assert(merged@[k] == left@[p]);
                    } else {
                        assert(merged@[before.len() as int] == left@[p]);
                    }
                }
                assert forall|q: int| 0 <= q < j implies merged@.contains(
                    #[trigger] right@[q],
                ) by {
                    let k = choose|k: int| 0 <= k < before.len() && before[k] == right@[q];
                    assert(merged@[k] == right@[q]);
                }
            }
            i = i + 1;
        } else {
            let place = right[j];
            merged.push(place);
            proof {
                assert(right@.contains(place));
                assert forall|q: int| j + 1 <= q < right@.len() implies ahead(
                    population@,
                    place as int,
                    right@[q] as int,
                ) by {}
                assert forall|q: int| i <= q < left@.len() implies ahead(
                    population@,
                    place as int,
                    left@[q] as int,
                ) by {
                    lemma_ahead_total(population@, left@[i as int] as int, place as int);
                    if q > i {
                        lemma_ahead_transitive(
                            population@,
                            place as int,
                            left@[i as int] as int,
                            left@[q] as int,
                        );
                    }
                }
                assert forall|p: int| 0 <= p < i implies merged@.contains(#[trigger] left@[p]) by {
                    let k = choose|k: int| 0 <= k < before.len() && before[k] == left@[p];
                    assert(merged@[k] == left@[p]);
                }
                assert forall|q: int| 0 <= q < j + 1 implies merged@.contains(
                    #[trigger] right@[q],
                ) by {
                    if q < j {
                        let k = choose|k: int| 0 <= k < before.len() && before[k] == right@[q];
                        assert(merged@[k] == right@[q]);
                    } else {
                        assert(merged@[before.len() as int] == right@[q]);
                    }
                }
            }
            j = j + 1;
        }
    }
    merged
}

/// The places `lo..hi` of the snapshot in standing order.
fn order_places(population: &Vec<UserStats>, lo: usize, hi: usize) -> (order: Vec<usize>)
    requires
        lo <= hi <= population@.len(),
    ensures
        by_standing(population@, order@),
        order@.len() == hi - lo,
        forall|p: int| 0 <= p < order@.len() ==> lo <= #[trigger] order@[p] < hi,
        forall|x: usize| lo <= x < hi ==> #[trigger] order@.contains(x),
    decreases hi - lo,
{
    if hi - lo == 0 {
        Vec::new()
    } else if hi - lo == 1 {
        let mut order: Vec<usize> = Vec::new();
        order.push(lo);
        assert(order@[0] == lo);
        order
    } else {
        let mid: usize = lo + (hi - lo) / 2;
        let left = order_places(population, lo, mid);
        let right = order_places(population, mid, hi);
        let order = merge_by_standing(population, &left, &right);
        proof {
            assert forall|p: int| 0 <= p < order@.len() implies lo <= #[trigger] order@[p]
                < hi by {
                let x = order@[p];
                if left@.contains(x) {
                    let k = choose|k: int| 0 <= k < left@.len() && left@[k] == x;
                    assert(lo <= left@[k] < mid);
                } else {
                    let k = choose|k: int| 0 <= k < right@.len() && right@[k] == x;
                    assert(mid <= right@[k] < hi);
                }
            }
            assert forall|x: usize| lo <= x < hi implies #[trigger] order@.contains(x) by {
                if x < mid {
                    assert(left@.contains(x));
                    let k = choose|k: int| 0 <= k < left@.len() && left@[k] == x;
                    assert(order@.contains(left@[k]));
                } else {
                    assert(right@.contains(x));
                    let k = choose|k: int| 0 <= k < right@.len() && right@[k] == x;
                    assert(order@.contains(right@[k]));
                }
            }
        }
        order
    }
}

/// `order` lists the place `x`.
pub open spec fn lists_place(order: Seq<usize>, x: int) -> bool {
    exists|q: int| 0 <= q < order.len() && order[q] as int == x
}

/// `order` lists every place of the snapshot once, in standing order.
pub open spec fn full_standing(population: Seq<UserStats>, order: Seq<usize>) -> bool {
    &&& by_standing(population, order)
    &&& order.len() == population.len()
    &&& forall|x: int| 0 <= x < population.len() ==> #[trigger] lists_place(order, x)
}

/// In a full standing order the place at position `k` holds rank `k + 1`.
pub proof fn lemma_rank_by_standing(population: Seq<UserStats>, order: Seq<usize>, k: int)
    requires
        full_standing(population, order),
        0 <= k < order.len(),
    ensures
        rank_of(population, order[k] as int) == k + 1,
{
    let place = order[k] as int;
    let prefix = Seq::new(k as nat, |p: int| order[p] as int);
    assert forall|p: int, q: int|
        0 <= p < prefix.len() && 0 <= q < prefix.len() && p != q implies prefix[p] != prefix[q] by {
        lemma_ahead_total(population, prefix[p], prefix[p]);
        if p < q {
            assert(ahead(population, order[p] as int, order[q] as int));
        } else {
            assert(ahead(population, order[q] as int, order[p] as int));
        }
    }
    assert(prefix.no_duplicates());
    prefix.unique_seq_to_set();
    assert forall|j: int|
        ahead_of(population, place).contains(j) implies prefix.to_set().contains(j) by {
        assert(lists_place(order, j));
        let q = choose|q: int| 0 <= q < order.len() && order[q] as int == j;
        lemma_ahead_total(population, j, place);
        if q > k {
            assert(ahead(population, order[k] as int, order[q] as int));
        }
        assert(q < k);
        assert(prefix[q] == j);
    }
    assert forall|j: int|
        prefix.to_set().contains(j) implies ahead_of(population, place).contains(j) by {
        let p = choose|p: int| 0 <= p < prefix.len() && prefix[p] == j;
        assert(ahead(population, order[p] as int, order[k] as int));
    }
    assert(ahead_of(population, place) =~= prefix.to_set());
}

/// The places below `k` of the users who stand ahead of the user at place `i`.
pub open spec fn ahead_among(population: Seq<UserStats>, i: int, k: int) -> Set<int> {
    Set::new(|j: int| 0 <= j < k && ahead(population, j, i))
}

/// The users ahead of one user, counted place by place.
pub proof fn lemma_ahead_among(population: Seq<UserStats>, i: int, k: int)
    requires
        0 <= k,
    ensures
        ahead_among(population, i, k).finite(),
        ahead_among(population, i, k).len() <= k,
        ahead_among(population, i, k + 1).finite(),
        ahead_among(population, i, k + 1).len() == ahead_among(population, i, k).len() + (if ahead(
            population,
            k,
            i,
        ) {
            1nat
        } else {
            0nat
        }),
    decreases k,
{
    let here = ahead_among(population, i, k);
    if k == 0 {
        assert(here =~= Set::<int>::empty());
    } else {
        lemma_ahead_among(population, i, k - 1);
    }
    if ahead(population, k, i) {
        assert(ahead_among(population, i, k + 1) =~= here.insert(k));
    } else {
        assert(ahead_among(population, i, k + 1) =~= here);
    }
}

/// Every rank of a snapshot of `n` users lies between 1 and `n`.
pub proof fn lemma_rank_bounds(population: Seq<UserStats>, i: int)
    requires
        0 <= i < population.len(),
    ensures
        ahead_of(population, i).finite(),
        1 <= rank_of(population, i) <= population.len(),
{
    let n = population.len() as int;
    lemma_ahead_among(population, i, n);
    assert(ahead_of(population, i) =~= ahead_among(population, i, n));
    lemma_ahead_among(population, i, i);
    lemma_ahead_total(population, i, i);
    lemma_ahead_among_above(population, i, n);
}

proof fn lemma_ahead_among_above(population: Seq<UserStats>, i: int, k: int)
    requires
        0 <= i < k,
    ensures
        ahead_among(population, i, k).len() <= k - 1,
    decreases k,
{
    lemma_ahead_total(population, i, i);
    if k == i + 1 {
        lemma_ahead_among(population, i, i);
    } else {
        lemma_ahead_among_above(population, i, k - 1);
        lemma_ahead_among(population, i, k - 1);
    }
}

/// The leaderboard over one snapshot of the user population.
pub struct LeaderboardService {
    population: Vec<UserStats>,
}

impl LeaderboardService {
    /// Every rank of the snapshot fits the rank type.
    #[verifier::type_invariant]
    pub closed spec fn fits(self) -> bool {
        self.population@.len() < i64::MAX
    }

    /// The snapshot that the service ranks.
    pub closed spec fn population(self) -> Seq<UserStats> {
        self.population@
    }

    /// A service over the given snapshot of the population.
    pub fn new(population: Vec<UserStats>) -> (service: Self)
        requires
            population@.len() < i64::MAX,
        ensures
            service.population() == population@,
    {
        LeaderboardService { population }
    }

    /// A service over the given snapshot of the population, or nothing
    /// where the snapshot holds more users than there are ranks.
    pub fn try_new(population: Vec<UserStats>) -> (service: Option<Self>)
        ensures
            match service {
                Some(s) => s.population() == population@,
                None => population@.len() >= i64::MAX,
            },
    {
        if (population.len() as u64) < 0x7fff_ffff_ffff_ffff {
            Some(LeaderboardService { population })
        } else {
            None
        }
    }

    /// The number of users in the snapshot.
    pub fn population_len(&self) -> (n: usize)
        ensures
            n == self.population().len(),
    {
        self.population.len()
    }

    /// The page of at most `limit` rows whose ranks are above `after_rank`
    /// (from rank 1 where it is absent), by rank ascending.
    pub fn get_leaderboard_page(
        &self,
        limit: u64,
        after_rank: Option<i64>,
    ) -> (answer: Result<Vec<LeaderboardEntry>, StoreError>)
        ensures
            answer matches Ok(rows) && rows@ == page(self.population(), limit, after_rank),
    {
        proof {
            use_type_invariant(self);
        }
        let n: usize = self.population.len();
        let order = order_places(&self.population, 0, n);
        let ghost snapshot = self.population@;
        proof {
            assert forall|x: int| 0 <= x < snapshot.len() implies #[trigger] lists_place(
                order@,
                x,
            ) by {
                let place = x as usize;
                assert(order@.contains(place));
                let q = choose|q: int| 0 <= q < order@.len() && order@[q] == place;
                assert(order@[q] as int == x);
            }
            assert(full_standing(snapshot, order@));
        }
        let start: usize = match after_rank {
            Some(rank) => if rank <= 0 {
                0
            } else if rank as u64 >= n as u64 {
                n
            } else {
                rank as usize
            },
            None => 0,
        };
        let room: usize = n - start;
        let count: usize = if limit >= room as u64 {
            room
        } else {
            limit as usize
        };
        let end: usize = start + count;
        assert(start == page_start(snapshot, after_rank));
        assert(end == page_end(snapshot, limit, after_rank));
        let mut rows: Vec<LeaderboardEntry> = Vec::new();
        let mut k: usize = start;
        while k < end
            invariant
                start <= k <= end <= n,
                n == snapshot.len(),
                n < i64::MAX,
                snapshot == self.population@,
                full_standing(snapshot, order@),
                rows@ == ranking(snapshot).subrange(start as int, k as int),
            decreases end - k,
        {
            let place: usize = order[k];
            let user = &self.population[place];
            let row = LeaderboardEntry {
                rank: (k + 1) as i64,
                user_id: user.user_id.clone(),
                name: user.name.clone(),
                dorm: copy_optional_text(&user.dorm),
                coins_earned: user.coins_earned,
                coins_spent: user.coins_spent,
                challenges_completed: user.challenges_completed,
            };
            proof {
                lemma_place_of_rank(snapshot, order@, k as int);
                assert(row == ranking(snapshot)[k as int]);
            }
            rows.push(row);
            proof {
                assert(rows@ =~= ranking(snapshot).subrange(start as int, k + 1));
            }
            k = k + 1;
        }
        Ok(rows)
    }

    /// The rank of the user `user_id`, or a failure where the snapshot holds
    /// no such user.
    pub fn get_user_leaderboard_position(&self, user_id: &str) -> (answer: Result<i64, StoreError>)
        ensures
            match place_of_user(self.population(), user_id@) {
                Some(place) => answer matches Ok(rank) && rank == rank_of(
                    self.population(),
                    place,
                ),
                None => answer matches Err(StoreError::RecordNotFound(message)) && message@
                    == "User not found"@,
            },
    {
        proof {
            use_type_invariant(self);
        }
        let n: usize = self.population.len();
        match find_user(&self.population, user_id) {
            None => Err(StoreError::RecordNotFound(String::from_str("User not found"))),
            Some(place) => {
                let ghost snapshot = self.population@;
                let mut count: usize = 0;
                let mut k: usize = 0;
                proof {
                    lemma_ahead_among(snapshot, place as int, 0);
                }
                while k < n
                    invariant
                        k <= n,
                        n == snapshot.len(),
                        place < n,
                        snapshot == self.population@,
                        count == ahead_among(snapshot, place as int, k as int).len(),
                        count <= k,
                        k > place ==> count < k,
                    decreases n - k,
                {
                    proof {
                        lemma_ahead_among(snapshot, place as int, k as int);
                        if k >= place {
                            lemma_ahead_among_above(snapshot, place as int, k + 1);
                        }
                    }
                    if stands_ahead(&self.population, k, place) {
                        count = count + 1;
                    }
                    k = k + 1;
                }
                proof {
                    assert(ahead_of(snapshot, place as int) =~= ahead_among(
                        snapshot,
                        place as int,
                        n as int,
                    ));
                }
                Ok((count + 1) as i64)
            },
        }
    }
}

/// In a full standing order the user who holds rank `k + 1` is the one at
/// position `k`.
pub proof fn lemma_place_of_rank(population: Seq<UserStats>, order: Seq<usize>, k: int)
    requires
        full_standing(population, order),
        0 <= k < order.len(),
    ensures
        place_of_rank(population, k + 1) == order[k] as int,
{
    lemma_rank_by_standing(population, order, k);
    let found = place_of_rank(population, k + 1);
    assert(0 <= found < population.len() && rank_of(population, found) == k + 1);
    assert(lists_place(order, found));
    let q = choose|q: int| 0 <= q < order.len() && order[q] as int == found;
    lemma_rank_by_standing(population, order, q);
}

/// The first place of the snapshot that holds the user `user_id`.
fn find_user(population: &Vec<UserStats>, user_id: &str) -> (found: Option<usize>)
    ensures
        match found {
            Some(place) => place < population@.len() && place_of_user(population@, user_id@)
                == Some(place as int),
            None => place_of_user(population@, user_id@) is None,
        },
{
    let mut i: usize = 0;
    while i < population.len()
        invariant
            i <= population@.len(),
            forall|j: int| 0 <= j < i ==> population@[j].user_id@ != user_id@,
        decreases population@.len() - i,
    {
        if same_text(population[i].user_id.as_str(), user_id) {
            proof {
                let chosen = choose|c: int|
                    0 <= c < population@.len() && population@[c].user_id@ == user_id@
                        && forall|j: int| 0 <= j < c ==> population@[j].user_id@ != user_id@;
                assert(chosen == i);
            }
            return Some(i);
        }
        i = i + 1;
    }
    None
}

/// No two users of a snapshot share a rank.
pub proof fn lemma_ranks_distinct(population: Seq<UserStats>, i: int, j: int)
    requires
        0 <= i < population.len(),
        0 <= j < population.len(),
        i != j,
    ensures
        rank_of(population, i) != rank_of(population, j),
{
    lemma_ahead_total(population, i, j);
    if ahead(population, i, j) {
        lemma_fewer_ahead(population, i, j);
    } else {
        lemma_fewer_ahead(population, j, i);
    }
}

/// Who stands ahead of another user has fewer users ahead of them, and so a
/// smaller rank.
pub proof fn lemma_fewer_ahead(population: Seq<UserStats>, i: int, j: int)
    requires
        0 <= i < population.len(),
        0 <= j < population.len(),
        ahead(population, i, j),
    ensures
        rank_of(population, i) < rank_of(population, j),
{
    lemma_rank_bounds(population, i);
    lemma_rank_bounds(population, j);
    let ahead_i = ahead_of(population, i);
    let ahead_j = ahead_of(population, j);
    lemma_ahead_total(population, i, i);
    assert forall|x: int| ahead_i.contains(x) implies ahead_j.remove(i).contains(x) by {
        lemma_ahead_transitive(population, x, i, j);
    }
    assert(ahead_i.subset_of(ahead_j.remove(i)));
    assert(ahead_j.contains(i));
    vstd::set_lib::lemma_len_subset(ahead_i, ahead_j.remove(i));
}

/// Every rank from 1 to the number of users is held by a user of the snapshot.
pub proof fn lemma_every_rank_held(population: Seq<UserStats>, rank: int)
    requires
        1 <= rank <= population.len(),
    ensures
        0 <= place_of_rank(population, rank) < population.len(),
        rank_of(population, place_of_rank(population, rank)) == rank,
{
    let n = population.len() as int;
    let ranks = Seq::new(n as nat, |i: int| rank_of(population, i));
    assert forall|i: int, j: int|
        0 <= i < ranks.len() && 0 <= j < ranks.len() && i != j implies ranks[i] != ranks[j] by {
        lemma_ranks_distinct(population, i, j);
    }
    assert(ranks.no_duplicates());
    ranks.unique_seq_to_set();
    vstd::set_lib::lemma_int_range(1, n + 1);
    let all = vstd::set_lib::set_int_range(1, n + 1);
    assert forall|r: int| ranks.to_set().contains(r) implies all.contains(r) by {
        let i = choose|i: int| 0 <= i < ranks.len() && ranks[i] == r;
        lemma_rank_bounds(population, i);
    }
    assert(ranks.to_set().subset_of(all));
    vstd::seq_lib::seq_to_set_is_finite(ranks);
    vstd::set_lib::lemma_subset_equality(ranks.to_set(), all);
    assert(all.contains(rank));
    assert(ranks.to_set().contains(rank));
    let i = choose|i: int| 0 <= i < ranks.len() && ranks[i] == rank;
    assert(0 <= i < population.len() && rank_of(population, i) == rank);
}

/// The user who holds the rank of the user at place `i` is that user.
pub proof fn lemma_rank_round_trip(population: Seq<UserStats>, i: int)
    requires
        0 <= i < population.len(),
    ensures
        place_of_rank(population, rank_of(population, i)) == i,
{
    let found = place_of_rank(population, rank_of(population, i));
    if found != i {
        lemma_ranks_distinct(population, found, i);
    }
}

/// The leaderboard lists every user of the snapshot exactly once, by rank
/// ascending from 1: the row at position `k` holds rank `k + 1` and the one
/// user with that rank, and every user stands in the row of their rank.
pub proof fn lemma_ranking_lists_each_user_once(population: Seq<UserStats>)
    requires
        population.len() <= i64::MAX,
    ensures
        ranking(population).len() == population.len(),
        forall|k: int|
            0 <= k < population.len() ==> {
                let place = place_of_rank(population, k + 1);
                &&& (#[trigger] ranking(population)[k]).rank == k + 1
                &&& 0 <= place < population.len()
                &&& rank_of(population, place) == k + 1
                &&& ranking(population)[k] == entry_for(population[place], k + 1)
            },
        forall|i: int|
            0 <= i < population.len() ==> {
                &&& 1 <= #[trigger] rank_of(population, i) <= population.len()
                &&& ranking(population)[rank_of(population, i) - 1] == entry_for(
                    population[i],
                    rank_of(population, i),
                )
            },
        forall|i: int, j: int|
            0 <= i < population.len() && 0 <= j < population.len() && i != j ==> rank_of(
                population,
                i,
            ) != rank_of(population, j),
{
    assert forall|k: int| 0 <= k < population.len() implies {
        let place = place_of_rank(population, k + 1);
        &&& (#[trigger] ranking(population)[k]).rank == k + 1
        &&& 0 <= place < population.len()
        &&& rank_of(population, place) == k + 1
        &&& ranking(population)[k] == entry_for(population[place], k + 1)
    } by {
        lemma_every_rank_held(population, k + 1);
    }
    assert forall|i: int| 0 <= i < population.len() implies {
        &&& 1 <= #[trigger] rank_of(population, i) <= population.len()
        &&& ranking(population)[rank_of(population, i) - 1] == entry_for(
            population[i],
            rank_of(population, i),
        )
    } by {
        lemma_rank_bounds(population, i);
        lemma_rank_round_trip(population, i);
    }
    assert forall|i: int, j: int|
        0 <= i < population.len() && 0 <= j < population.len() && i != j implies rank_of(
        population,
        i,
    ) != rank_of(population, j) by {
        lemma_ranks_distinct(population, i, j);
    }
}

/// A page holds the rows of consecutive ranks that follow its cursor: row
/// `k` of the page holds the rank `k + 1` places after the cursor.
pub proof fn lemma_page_ranks(population: Seq<UserStats>, limit: u64, after_rank: Option<i64>)
    requires
        population.len() <= i64::MAX,
    ensures
        page(population, limit, after_rank).len() <= limit,
        page(population, limit, after_rank).len() == page_end(population, limit, after_rank)
            - page_start(population, after_rank),
        forall|k: int|
            0 <= k < page(population, limit, after_rank).len() ==> (#[trigger] page(
                population,
                limit,
                after_rank,
            )[k]).rank == page_start(population, after_rank) + k + 1,
{
    lemma_ranking_lists_each_user_once(population);
    let start = page_start(population, after_rank);
    let rows = page(population, limit, after_rank);
    assert forall|k: int| 0 <= k < rows.len() implies (#[trigger] rows[k]).rank == start + k
        + 1 by {
        assert(page(population, limit, after_rank)[k] == ranking(population)[start + k]);
    }
}

/// The same query on the same snapshot gives the same rows with the same
/// ranks, whenever it is run.
pub proof fn lemma_page_deterministic(
    population: Seq<UserStats>,
    limit: u64,
    after_rank: Option<i64>,
    first: Seq<LeaderboardEntry>,
    second: Seq<LeaderboardEntry>,
)
    requires
        first == page(population, limit, after_rank),
        second == page(population, limit, after_rank),
    ensures
        first == second,
        forall|k: int| 0 <= k < first.len() ==> (#[trigger] first[k]).rank == second[k].rank,
{
}

/// The rows that successive pages of `limit` rows give from `cursor` on,
/// where each page starts after the last rank of the page before it and the
/// first page that comes back short is the last.
pub open spec fn pages_from(
    population: Seq<UserStats>,
    limit: u64,
    cursor: Option<i64>,
) -> Seq<LeaderboardEntry>
    decreases population.len() - page_start(population, cursor),
    when limit > 0 && population.len() <= i64::MAX
    via pages_from_decreases
{
    let rows = page(population, limit, cursor);
    if rows.len() < limit {
        rows
    } else {
        rows + pages_from(population, limit, Some(rows.last().rank))
    }
}

#[via_fn]
proof fn pages_from_decreases(population: Seq<UserStats>, limit: u64, cursor: Option<i64>) {
    lemma_page_ranks(population, limit, cursor);
    let rows = page(population, limit, cursor);
    if rows.len() >= limit {
        assert(rows[rows.len() - 1].rank == page_start(population, cursor) + limit);
    }
}

/// Successive pages, each starting after the last rank of the page before
/// it, give from `cursor` on every remaining row of the leaderboard once, by
/// rank ascending.
pub proof fn lemma_pages_from(population: Seq<UserStats>, limit: u64, cursor: Option<i64>)
    requires
        limit > 0,
        population.len() <= i64::MAX,
    ensures
        pages_from(population, limit, cursor) == ranking(population).subrange(
            page_start(population, cursor),
            population.len() as int,
        ),
    decreases population.len() - page_start(population, cursor),
{
    lemma_page_ranks(population, limit, cursor);
    let rows = page(population, limit, cursor);
    let start = page_start(population, cursor);
    let n = population.len() as int;
    if rows.len() < limit {
        assert(rows =~= ranking(population).subrange(start, n));
    } else {
        let next = Some(rows.last().rank);
        assert(rows[rows.len() - 1].rank == start + limit);
        assert(page_start(population, next) == start + limit);
        lemma_pages_from(population, limit, next);
        assert(rows + ranking(population).subrange(start + limit, n) =~= ranking(
            population,
        ).subrange(start, n));
    }
}

/// Pagination is exhaustive and without overlap: the pages from the first
/// on, put one after the other, are the whole leaderboard, which lists every
/// user exactly once by rank ascending.
pub proof fn lemma_pages_cover_ranking(population: Seq<UserStats>, limit: u64)
    requires
        limit > 0,
        population.len() <= i64::MAX,
    ensures
        pages_from(population, limit, None) == ranking(population),
{
    lemma_pages_from(population, limit, None);
    assert(ranking(population).subrange(0, population.len() as int) =~= ranking(population));
}

impl LeaderboardServiceTrait for LeaderboardService {
    /// The service ranks one snapshot: no call changes it.
    open spec fn is_steady(&self) -> bool {
        true
    }

    /// The one answer to a page query: the page of the snapshot.
    open spec fn may_get_leaderboard_page(
        &self,
        limit: u64,
        after_rank: Option<i64>,
        answer: Result<Vec<LeaderboardEntry>, StoreError>,
    ) -> bool {
        answer matches Ok(rows) && rows@ == page(self.population(), limit, after_rank)
    }

    fn get_leaderboard_page(
        &mut self,
        limit: u64,
        after_rank: Option<i64>,
    ) -> (answer: Result<Vec<LeaderboardEntry>, StoreError>) {
        LeaderboardService::get_leaderboard_page(self, limit, after_rank)
    }

    /// The one answer to a position query: the user's rank, or that the
    /// snapshot holds no such user.
    open spec fn may_get_user_leaderboard_position(
        &self,
        user_id: Seq<char>,
        answer: Result<i64, StoreError>,
    ) -> bool {
        match place_of_user(self.population(), user_id) {
            Some(place) => answer matches Ok(rank) && rank == rank_of(self.population(), place),
            None => answer matches Err(StoreError::RecordNotFound(message)) && message@
                == "User not found"@,
        }
    }

    fn get_user_leaderboard_position(
        &mut self,
        user_id: &str,
    ) -> (answer: Result<i64, StoreError>) {
        LeaderboardService::get_user_leaderboard_position(self, user_id)
    }
}

} // verus!
