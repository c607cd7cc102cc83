//! The cache manager: it owns every partition, offers a typed lookup and
//! store for each cached call, and invalidates partitions by group.

use vstd::prelude::*;
use vstd::string::*;
use crate::entities::{Challenge, JournalRecord, Reward, TextMap, Timestamp};
use crate::services::leaderboard::LeaderboardEntry;
use crate::cache::partition::{CacheValue, CachedData, Entries, Partition};
use crate::text::{
    decimal, lemma_decimal_has_no_colon, lemma_decimal_injective, lemma_same_start,
    lemma_signed_decimal_chars, lemma_signed_decimal_injective, lemma_split_at_first_colon,
    lemma_split_at_last_colon, push_decimal, push_signed_decimal, signed_decimal,
};

verus! {

/// The partitions of the cache, one for each shape of cached call.
#[derive(Clone, Copy, Debug, PartialEq, Eq, Structural)]
pub enum PartitionId {
    /// The list of all challenges.
    Challenges,
    /// One challenge by name, or that there is none.
    ChallengeByName,
    /// The number of challenges in each category.
    ChallengeCounts,
    /// The number of challenges.
    TotalChallengeCount,
    /// A user's completions: challenge name to time of completion.
    UserCompletions,
    /// The number of a user's completions.
    UserCompletionCounts,
    /// The coins that a user earned.
    UserCoinsEarned,
    /// The number of a user's completions in each category.
    UserCompletionsByCategory,
    /// A user's completions with the challenges completed.
    UserCompletionsWithChallenges,
    /// The days on which a user was active, by user and window.
    UserRecentActivity,
    /// The list of all rewards.
    Rewards,
    /// One reward by name, or that there is none.
    RewardByName,
    /// Leaderboard pages by limit and cursor.
    LeaderboardPages,
    /// A user's rank on the leaderboard.
    UserPositions,
}

/// The bound on the resident entries of each partition.
pub open spec fn capacity_of(id: PartitionId) -> u64 {
    match id {
        PartitionId::Challenges => 10,
        PartitionId::ChallengeByName => 1000,
        PartitionId::ChallengeCounts => 10,
        PartitionId::TotalChallengeCount => 1,
        PartitionId::UserCompletions => 10000,
        PartitionId::UserCompletionCounts => 10000,
        PartitionId::UserCoinsEarned => 10000,
        PartitionId::UserCompletionsByCategory => 10000,
        PartitionId::UserCompletionsWithChallenges => 10000,
        PartitionId::UserRecentActivity => 10000,
        PartitionId::Rewards => 10,
        PartitionId::RewardByName => 100,
        PartitionId::LeaderboardPages => 100,
        PartitionId::UserPositions => 10000,
    }
}

/// The namespace that starts every key of a partition.
pub open spec fn prefix_of(id: PartitionId) -> Seq<char> {
    match id {
        PartitionId::Challenges => "challenges:all"@,
        PartitionId::ChallengeByName => "challenge:name:"@,
        PartitionId::ChallengeCounts => "counts"@,
        PartitionId::TotalChallengeCount => "total"@,
        PartitionId::UserCompletions => "user:completions:"@,
        PartitionId::UserCompletionCounts => "completion_count:"@,
        PartitionId::UserCoinsEarned => "coins_earned:"@,
        PartitionId::UserCompletionsByCategory => "completions_by_category:"@,
        PartitionId::UserCompletionsWithChallenges => "completions_with_challenges:"@,
        PartitionId::UserRecentActivity => "recent_activity:"@,
        PartitionId::Rewards => "rewards:all"@,
        PartitionId::RewardByName => "reward:name:"@,
        PartitionId::LeaderboardPages => "leaderboard:page:"@,
        PartitionId::UserPositions => "user:position:"@,
    }
}

/// The key of a partition for a subject: the namespace, then what
/// identifies the call.
pub open spec fn key_for(id: PartitionId, subject: Seq<char>) -> Seq<char> {
    prefix_of(id) + subject
}

/// What identifies a recent-activity call: the user, then the window in days.
pub open spec fn activity_subject(user_id: Seq<char>, num_days_back: i64) -> Seq<char> {
    user_id + seq![':'] + signed_decimal(num_days_back as int)
}

/// The cursor of a page call as a number: an absent cursor counts as 0.
pub open spec fn cursor_of(after_rank: Option<i64>) -> int {
    match after_rank {
        Some(rank) => rank as int,
        None => 0,
    }
}

/// What identifies a page call: the limit, then the cursor.
pub open spec fn page_subject(limit: u64, after_rank: Option<i64>) -> Seq<char> {
    decimal(limit as nat) + seq![':'] + signed_decimal(cursor_of(after_rank))
}

/// The partitions that hold challenges and their counts.
pub open spec fn challenge_group() -> Set<PartitionId> {
    set![
        PartitionId::Challenges,
        PartitionId::ChallengeByName,
        PartitionId::ChallengeCounts,
        PartitionId::TotalChallengeCount,
    ]
}

/// The partitions that hold rewards.
pub open spec fn reward_group() -> Set<PartitionId> {
    set![PartitionId::Rewards, PartitionId::RewardByName]
}

/// The partitions that hold leaderboard pages and positions.
pub open spec fn leaderboard_group() -> Set<PartitionId> {
    set![PartitionId::LeaderboardPages, PartitionId::UserPositions]
}

/// The partitions that are keyed by a user id alone.
pub open spec fn user_group() -> Set<PartitionId> {
    set![
        PartitionId::UserCompletions,
        PartitionId::UserCompletionCounts,
        PartitionId::UserCoinsEarned,
        PartitionId::UserCompletionsByCategory,
        PartitionId::UserCompletionsWithChallenges,
        PartitionId::UserPositions,
    ]
}

/// What a found value says, or that nothing was found.
pub open spec fn said_by(found: Option<CacheValue>) -> Option<CachedData> {
    match found {
        Some(value) => Some(value@),
        None => None,
    }
}

/// The found value as a list of challenges; anything else counts as a miss.
pub open spec fn as_challenges(found: Option<CachedData>) -> Option<Seq<Challenge>> {
    match found {
        Some(CachedData::Challenges(value)) => Some(value),
        _ => None,
    }
}

/// The found value as the answer about one challenge; anything else counts as
/// a miss.
pub open spec fn as_challenge(found: Option<CachedData>) -> Option<Option<Challenge>> {
    match found {
        Some(CachedData::Challenge(value)) => Some(value),
        _ => None,
    }
}

/// The found value as counts by category; anything else counts as a miss.
pub open spec fn as_counts(found: Option<CachedData>) -> Option<Map<Seq<char>, i32>> {
    match found {
        Some(CachedData::Counts(value)) => Some(value),
        _ => None,
    }
}

/// The found value as a number; anything else counts as a miss.
pub open spec fn as_count(found: Option<CachedData>) -> Option<i32> {
    match found {
        Some(CachedData::Count(value)) => Some(value),
        _ => None,
    }
}

/// The found value as a completion map; anything else counts as a miss.
pub open spec fn as_completions(found: Option<CachedData>) -> Option<Map<Seq<char>, Timestamp>> {
    match found {
        Some(CachedData::Completions(value)) => Some(value),
        _ => None,
    }
}

/// The found value as completions with their challenges; anything else counts
/// as a miss.
pub open spec fn as_journal(found: Option<CachedData>) -> Option<Seq<JournalRecord>> {
    match found {
        Some(CachedData::Journal(value)) => Some(value),
        _ => None,
    }
}

/// The found value as days of activity; anything else counts as a miss.
pub open spec fn as_activity(found: Option<CachedData>) -> Option<Seq<Timestamp>> {
    match found {
        Some(CachedData::Activity(value)) => Some(value),
        _ => None,
    }
}

/// The found value as a list of rewards; anything else counts as a miss.
pub open spec fn as_rewards(found: Option<CachedData>) -> Option<Seq<Reward>> {
    match found {
        Some(CachedData::Rewards(value)) => Some(value),
        _ => None,
    }
}

/// The found value as the answer about one reward; anything else counts as a
/// miss.
pub open spec fn as_reward(found: Option<CachedData>) -> Option<Option<Reward>> {
    match found {
        Some(CachedData::Reward(value)) => Some(value),
        _ => None,
    }
}

/// The found value as a leaderboard page; anything else counts as a miss.
pub open spec fn as_page(found: Option<CachedData>) -> Option<Seq<LeaderboardEntry>> {
    match found {
        Some(CachedData::Page(value)) => Some(value),
        _ => None,
    }
}

/// The found value as a rank; anything else counts as a miss.
pub open spec fn as_position(found: Option<CachedData>) -> Option<i64> {
    match found {
        Some(CachedData::Position(value)) => Some(value),
        _ => None,
    }
}

/// The cache: one partition for each shape of cached call.
pub struct CacheManager {
    challenges: Partition,
    challenge_by_name: Partition,
    challenge_counts: Partition,
    total_challenge_count: Partition,
    user_completions: Partition,
    user_completion_counts: Partition,
    user_coins_earned: Partition,
    user_completions_by_category: Partition,
    user_completions_with_challenges: Partition,
    user_recent_activity: Partition,
    rewards: Partition,
    reward_by_name: Partition,
    leaderboard_pages: Partition,
    user_positions: Partition,
}

impl CacheManager {
    /// The partition behind an id.
    pub closed spec fn partition(&self, id: PartitionId) -> Partition {
        match id {
            PartitionId::Challenges => self.challenges,
            PartitionId::ChallengeByName => self.challenge_by_name,
            PartitionId::ChallengeCounts => self.challenge_counts,
            PartitionId::TotalChallengeCount => self.total_challenge_count,
            PartitionId::UserCompletions => self.user_completions,
            PartitionId::UserCompletionCounts => self.user_completion_counts,
            PartitionId::UserCoinsEarned => self.user_coins_earned,
            PartitionId::UserCompletionsByCategory => self.user_completions_by_category,
            PartitionId::UserCompletionsWithChallenges => self.user_completions_with_challenges,
            PartitionId::UserRecentActivity => self.user_recent_activity,
            PartitionId::Rewards => self.rewards,
            PartitionId::RewardByName => self.reward_by_name,
            PartitionId::LeaderboardPages => self.leaderboard_pages,
            PartitionId::UserPositions => self.user_positions,
        }
    }

    /// What a partition holds.
    pub open spec fn entries(&self, id: PartitionId) -> Entries {
        self.partition(id).entries()
    }

    /// The capacity of a partition.
    pub open spec fn capacity(&self, id: PartitionId) -> u64 {
        self.partition(id).capacity()
    }

    /// What a lookup of `key` in a partition finds.
    pub open spec fn lookup(&self, id: PartitionId, key: Seq<char>) -> Option<CachedData> {
        if self.entries(id).contains_key(key) {
            Some(self.entries(id)[key])
        } else {
            None
        }
    }

    /// What a partition holds for a subject.
    pub open spec fn cached(&self, id: PartitionId, subject: Seq<char>) -> Option<CachedData> {
        self.lookup(id, key_for(id, subject))
    }

    /// The number of values stored in a partition since it was made or last
    /// cleared.
    pub open spec fn stored(&self, id: PartitionId) -> nat {
        self.partition(id).stored()
    }

    /// A partition has taken no more values than its capacity, so that it
    /// holds exactly what was stored and not discarded.
    pub open spec fn is_intact(&self, id: PartitionId) -> bool {
        self.stored(id) <= self.capacity(id)
    }

    /// A partition can take one more value without evicting any.
    pub open spec fn has_room(&self, id: PartitionId) -> bool {
        self.stored(id) < self.capacity(id)
    }

    /// Every partition has the capacity that belongs to it, and remembers it.
    pub open spec fn wf(&self) -> bool {
        forall|id: PartitionId|
            #[trigger] self.capacity(id) == capacity_of(id) && self.partition(id).sound()
    }

    /// Nothing is cached.
    pub open spec fn is_empty(&self) -> bool {
        forall|id: PartitionId| #[trigger] self.entries(id) == Entries::empty()
    }

    /// The cache is as it was made: nothing is cached, and nothing was
    /// stored yet.
    pub open spec fn is_fresh(&self) -> bool {
        forall|id: PartitionId|
            #![trigger self.entries(id)]
            #![trigger self.stored(id)]
            is_afresh(*self, id)
    }
}

/// The partition `id` starts afresh in `after`: it holds nothing, and
/// nothing was stored in it yet.
pub open spec fn is_afresh(after: CacheManager, id: PartitionId) -> bool {
    after.entries(id) == Entries::empty() && after.stored(id) == 0
}

/// The partition `id` is in `after` as it was in `before`.
pub open spec fn untouched(before: CacheManager, after: CacheManager, id: PartitionId) -> bool {
    &&& after.partition(id) == before.partition(id)
    &&& after.entries(id) == before.entries(id)
    &&& after.stored(id) == before.stored(id)
}

/// Every partition has in `after` the capacity that it had in `before`.
pub open spec fn same_capacities(before: CacheManager, after: CacheManager) -> bool {
    forall|id: PartitionId|
        #[trigger] after.capacity(id) == before.capacity(id) && after.partition(id).sound()
            == before.partition(id).sound()
}

/// Every partition that remembered its capacity in `before` has it in
/// `after` too, and still remembers it.
pub open spec fn kept_capacities(before: CacheManager, after: CacheManager) -> bool {
    forall|id: PartitionId|
        before.partition(id).sound() ==> #[trigger] after.capacity(id) == before.capacity(id)
            && after.partition(id).sound()
}

/// Between `before` and `after` no partition but `id` was touched, and that
/// one kept its capacity.
pub open spec fn touched_only(before: CacheManager, after: CacheManager, id: PartitionId) -> bool {
    &&& same_capacities(before, after)
    &&& forall|other: PartitionId|
        #![trigger after.partition(other)]
        #![trigger after.entries(other)]
        #![trigger after.stored(other)]
        other != id ==> untouched(before, after, other)
}

/// Between `before` and `after` only the partition `id` was touched, nothing
/// was stored in it, and it gained nothing; an intact partition lost nothing
/// either.
pub open spec fn only_lost(before: CacheManager, after: CacheManager, id: PartitionId) -> bool {
    &&& after.entries(id).submap_of(before.entries(id))
    &&& before.is_intact(id) ==> after.entries(id) == before.entries(id)
    &&& after.stored(id) == before.stored(id)
    &&& touched_only(before, after, id)
}

/// A lookup of `key` in the partition `id` took the cache from `before` to
/// `after` and found `found`.
pub open spec fn was_read(
    before: CacheManager,
    after: CacheManager,
    id: PartitionId,
    key: Seq<char>,
    found: Option<CachedData>,
) -> bool {
    &&& found == before.lookup(id, key)
    &&& only_lost(before, after, id)
}

/// Storing `value` under `key` in the partition `id` took the cache from
/// `before` to `after`. A partition with room holds afterwards what it held
/// and the new entry, and nothing else.
pub open spec fn was_written(
    before: CacheManager,
    after: CacheManager,
    id: PartitionId,
    key: Seq<char>,
    value: CachedData,
) -> bool {
    &&& before.capacity(id) > 0 ==> after.lookup(id, key) == Some(value)
    &&& before.capacity(id) == 0 ==> after.entries(id) == Entries::empty()
    &&& after.entries(id).remove(key).submap_of(before.entries(id))
    &&& before.has_room(id) ==> after.entries(id) == before.entries(id).insert(key, value)
    &&& after.stored(id) == before.stored(id) + 1
    &&& touched_only(before, after, id)
}

/// What the partition `id` holds in `after` is what it held in `before`
/// without `key`, as far as it can be known: nothing was gained or stored,
/// `key` is gone, and an intact partition lost nothing else.
pub open spec fn lost_key(
    before: CacheManager,
    after: CacheManager,
    id: PartitionId,
    key: Seq<char>,
) -> bool {
    &&& after.lookup(id, key) is None
    &&& after.entries(id).submap_of(before.entries(id))
    &&& before.is_intact(id) ==> after.entries(id) == before.entries(id).remove(key)
    &&& after.stored(id) == before.stored(id)
}

/// Discarding `key` from the partition `id` took the cache from `before` to
/// `after`.
pub open spec fn was_discarded(
    before: CacheManager,
    after: CacheManager,
    id: PartitionId,
    key: Seq<char>,
) -> bool {
    &&& lost_key(before, after, id, key)
    &&& touched_only(before, after, id)
}

/// Clearing the partitions of `group` took the cache from `before` to
/// `after`: they start afresh, and no other partition was touched.
pub open spec fn was_cleared(
    before: CacheManager,
    after: CacheManager,
    group: Set<PartitionId>,
) -> bool {
    &&& forall|id: PartitionId|
        #![trigger after.entries(id)]
        #![trigger after.stored(id)]
        group.contains(id) ==> is_afresh(after, id)
    &&& forall|id: PartitionId|
        #![trigger after.partition(id)]
        #![trigger after.entries(id)]
        #![trigger after.stored(id)]
        !group.contains(id) ==> untouched(before, after, id)
    &&& kept_capacities(before, after)
}

/// Invalidating the data of `user_id` took the cache from `before` to
/// `after`: every partition keyed by user id lost that user's entry and
/// gained nothing, and while intact lost nothing else; the recent-activity
/// partition starts afresh, for every user; and no other partition was
/// touched.
pub open spec fn was_cleared_for_user(
    before: CacheManager,
    after: CacheManager,
    user_id: Seq<char>,
) -> bool {
    &&& forall|id: PartitionId|
        #![trigger after.entries(id)]
        #![trigger after.stored(id)]
        user_group().contains(id) ==> lost_key(before, after, id, key_for(id, user_id))
    &&& is_afresh(after, PartitionId::UserRecentActivity)
    &&& forall|id: PartitionId|
        #![trigger after.partition(id)]
        #![trigger after.entries(id)]
        #![trigger after.stored(id)]
        !user_group().contains(id) && id != PartitionId::UserRecentActivity ==> untouched(
            before,
            after,
            id,
        )
    &&& kept_capacities(before, after)
}

/// After the coins of `user_id` changed and the cache was told: every
/// partition keyed by user id but that of the ranks lost that user's entry
/// and gained nothing, and while intact lost nothing else; the
/// recent-activity partition and both leaderboard partitions start afresh;
/// and no other partition was touched.
pub open spec fn was_cleared_for_coins(
    before: CacheManager,
    after: CacheManager,
    user_id: Seq<char>,
) -> bool {
    &&& forall|id: PartitionId|
        #![trigger after.entries(id)]
        #![trigger after.stored(id)]
        user_group().contains(id) && id != PartitionId::UserPositions ==> lost_key(
            before,
            after,
            id,
            key_for(id, user_id),
        )
    &&& is_afresh(after, PartitionId::UserRecentActivity)
    &&& is_afresh(after, PartitionId::LeaderboardPages)
    &&& is_afresh(after, PartitionId::UserPositions)
    &&& forall|id: PartitionId|
        #![trigger after.partition(id)]
        #![trigger after.entries(id)]
        #![trigger after.stored(id)]
        !user_group().contains(id) && id != PartitionId::UserRecentActivity && id
            != PartitionId::LeaderboardPages ==> untouched(before, after, id)
    &&& kept_capacities(before, after)
}

/// The namespace that starts every key of a partition.
pub fn prefix_text(id: PartitionId) -> (prefix: &'static str)
    ensures
        prefix@ == prefix_of(id),
{
    match id {
        PartitionId::Challenges => "challenges:all",
        PartitionId::ChallengeByName => "challenge:name:",
        PartitionId::ChallengeCounts => "counts",
        PartitionId::TotalChallengeCount => "total",
        PartitionId::UserCompletions => "user:completions:",
        PartitionId::UserCompletionCounts => "completion_count:",
        PartitionId::UserCoinsEarned => "coins_earned:",
        PartitionId::UserCompletionsByCategory => "completions_by_category:",
        PartitionId::UserCompletionsWithChallenges => "completions_with_challenges:",
        PartitionId::UserRecentActivity => "recent_activity:",
        PartitionId::Rewards => "rewards:all",
        PartitionId::RewardByName => "reward:name:",
        PartitionId::LeaderboardPages => "leaderboard:page:",
        PartitionId::UserPositions => "user:position:",
    }
}

/// The key of a partition for a subject.
pub fn make_key(id: PartitionId, subject: &str) -> (key: String)
    ensures
        key@ == key_for(id, subject@),
{
    let mut key = String::from_str(prefix_text(id));
    key.append(subject);
    key
}

/// The key of the recent-activity partition for a user and a window.
pub fn make_activity_key(user_id: &str, num_days_back: i64) -> (key: String)
    ensures
        key@ == key_for(PartitionId::UserRecentActivity, activity_subject(user_id@, num_days_back)),
{
    let mut key = String::from_str(prefix_text(PartitionId::UserRecentActivity));
    key.append(user_id);
    proof {
        reveal_strlit(":");
    }
    key.append(":");
    push_signed_decimal(&mut key, num_days_back);
    assert(key@ =~= key_for(
        PartitionId::UserRecentActivity,
        activity_subject(user_id@, num_days_back),
    ));
    key
}

/// The key of the page partition for a limit and a cursor.
pub fn make_page_key(limit: u64, after_rank: Option<i64>) -> (key: String)
    ensures
        key@ == key_for(PartitionId::LeaderboardPages, page_subject(limit, after_rank)),
{
    let mut key = String::from_str(prefix_text(PartitionId::LeaderboardPages));
    push_decimal(&mut key, limit);
    proof {
        reveal_strlit(":");
    }
    key.append(":");
    let cursor: i64 = match after_rank {
        Some(rank) => rank,
        None => 0,
    };
    push_signed_decimal(&mut key, cursor);
    assert(key@ =~= key_for(PartitionId::LeaderboardPages, page_subject(limit, after_rank)));
    key
}

impl CacheManager {
    /// A cache in which nothing is cached yet.
    pub fn new() -> (cache: Self)
        ensures
            cache.wf(),
            cache.is_empty(),
            cache.is_fresh(),
    {
        CacheManager {
            challenges: Partition::new(10),
            challenge_by_name: Partition::new(1000),
            challenge_counts: Partition::new(10),
            total_challenge_count: Partition::new(1),
            user_completions: Partition::new(10000),
            user_completion_counts: Partition::new(10000),
            user_coins_earned: Partition::new(10000),
            user_completions_by_category: Partition::new(10000),
            user_completions_with_challenges: Partition::new(10000),
            user_recent_activity: Partition::new(10000),
            rewards: Partition::new(10),
            reward_by_name: Partition::new(100),
            leaderboard_pages: Partition::new(100),
            user_positions: Partition::new(10000),
        }
    }

    /// Looks `key` up in the partition `id`.
    pub fn read(&mut self, id: PartitionId, key: &str) -> (found: Option<CacheValue>)
        ensures
            was_read(*old(self), *final(self), id, key@, said_by(found)),
    {
        match id {
            PartitionId::Challenges => self.challenges.get(key),
            PartitionId::ChallengeByName => self.challenge_by_name.get(key),
            PartitionId::ChallengeCounts => self.challenge_counts.get(key),
            PartitionId::TotalChallengeCount => self.total_challenge_count.get(key),
            PartitionId::UserCompletions => self.user_completions.get(key),
            PartitionId::UserCompletionCounts => self.user_completion_counts.get(key),
            PartitionId::UserCoinsEarned => self.user_coins_earned.get(key),
            PartitionId::UserCompletionsByCategory => self.user_completions_by_category.get(key),
            PartitionId::UserCompletionsWithChallenges => {
                self.user_completions_with_challenges.get(key)
            },
            PartitionId::UserRecentActivity => self.user_recent_activity.get(key),
            PartitionId::Rewards => self.rewards.get(key),
            PartitionId::RewardByName => self.reward_by_name.get(key),
            PartitionId::LeaderboardPages => self.leaderboard_pages.get(key),
            PartitionId::UserPositions => self.user_positions.get(key),
        }
    }

    /// Stores `value` under `key` in the partition `id`.
    pub fn write(&mut self, id: PartitionId, key: String, value: CacheValue)
        ensures
            was_written(*old(self), *final(self), id, key@, value@),
    {
        match id {
            PartitionId::Challenges => self.challenges.set(key, value),
            PartitionId::ChallengeByName => self.challenge_by_name.set(key, value),
            PartitionId::ChallengeCounts => self.challenge_counts.set(key, value),
            PartitionId::TotalChallengeCount => self.total_challenge_count.set(key, value),
            PartitionId::UserCompletions => self.user_completions.set(key, value),
            PartitionId::UserCompletionCounts => self.user_completion_counts.set(key, value),
            PartitionId::UserCoinsEarned => self.user_coins_earned.set(key, value),
            PartitionId::UserCompletionsByCategory => {
                self.user_completions_by_category.set(key, value)
            },
            PartitionId::UserCompletionsWithChallenges => {
                self.user_completions_with_challenges.set(key, value)
            },
            PartitionId::UserRecentActivity => self.user_recent_activity.set(key, value),
            PartitionId::Rewards => self.rewards.set(key, value),
            PartitionId::RewardByName => self.reward_by_name.set(key, value),
            PartitionId::LeaderboardPages => self.leaderboard_pages.set(key, value),
            PartitionId::UserPositions => self.user_positions.set(key, value),
        }
    }

    /// Discards what the partition `id` holds under `key`.
    pub fn discard(&mut self, id: PartitionId, key: &str)
        ensures
            was_discarded(*old(self), *final(self), id, key@),
    {
        match id {
            PartitionId::Challenges => self.challenges.invalidate(key),
            PartitionId::ChallengeByName => self.challenge_by_name.invalidate(key),
            PartitionId::ChallengeCounts => self.challenge_counts.invalidate(key),
            PartitionId::TotalChallengeCount => self.total_challenge_count.invalidate(key),
            PartitionId::UserCompletions => self.user_completions.invalidate(key),
            PartitionId::UserCompletionCounts => self.user_completion_counts.invalidate(key),
            PartitionId::UserCoinsEarned => self.user_coins_earned.invalidate(key),
            PartitionId::UserCompletionsByCategory => {
                self.user_completions_by_category.invalidate(key)
            },
            PartitionId::UserCompletionsWithChallenges => {
                self.user_completions_with_challenges.invalidate(key)
            },
            PartitionId::UserRecentActivity => self.user_recent_activity.invalidate(key),
            PartitionId::Rewards => self.rewards.invalidate(key),
            PartitionId::RewardByName => self.reward_by_name.invalidate(key),
            PartitionId::LeaderboardPages => self.leaderboard_pages.invalidate(key),
            PartitionId::UserPositions => self.user_positions.invalidate(key),
        }
    }

    /// Discards everything that the partition `id` holds.
    pub fn clear(&mut self, id: PartitionId)
        ensures
            was_cleared(*old(self), *final(self), set![id]),
    {
        match id {
            PartitionId::Challenges => self.challenges.invalidate_all(),
            PartitionId::ChallengeByName => self.challenge_by_name.invalidate_all(),
            PartitionId::ChallengeCounts => self.challenge_counts.invalidate_all(),
            PartitionId::TotalChallengeCount => self.total_challenge_count.invalidate_all(),
            PartitionId::UserCompletions => self.user_completions.invalidate_all(),
            PartitionId::UserCompletionCounts => self.user_completion_counts.invalidate_all(),
            PartitionId::UserCoinsEarned => self.user_coins_earned.invalidate_all(),
            PartitionId::UserCompletionsByCategory => {
                self.user_completions_by_category.invalidate_all()
            },
            PartitionId::UserCompletionsWithChallenges => {
                self.user_completions_with_challenges.invalidate_all()
            },
            PartitionId::UserRecentActivity => self.user_recent_activity.invalidate_all(),
            PartitionId::Rewards => self.rewards.invalidate_all(),
            PartitionId::RewardByName => self.reward_by_name.invalidate_all(),
            PartitionId::LeaderboardPages => self.leaderboard_pages.invalidate_all(),
            PartitionId::UserPositions => self.user_positions.invalidate_all(),
        }
    }
}

impl CacheManager {
    /// What the cache holds as the list of all challenges.
    pub open spec fn cached_challenges(&self) -> Option<Seq<Challenge>> {
        as_challenges(self.cached(PartitionId::Challenges, Seq::<char>::empty()))
    }

    /// What the cache holds as the answer about the challenge `name`.
    pub open spec fn cached_challenge_by_name(&self, name: Seq<char>) -> Option<Option<Challenge>> {
        as_challenge(self.cached(PartitionId::ChallengeByName, name))
    }

    /// What the cache holds as the number of challenges in each category.
    pub open spec fn cached_challenge_counts(&self) -> Option<Map<Seq<char>, i32>> {
        as_counts(self.cached(PartitionId::ChallengeCounts, Seq::<char>::empty()))
    }

    /// What the cache holds as the number of challenges.
    pub open spec fn cached_total_challenge_count(&self) -> Option<i32> {
        as_count(self.cached(PartitionId::TotalChallengeCount, Seq::<char>::empty()))
    }

    /// What the cache holds as the completion map of a user.
    pub open spec fn cached_user_completions(
        &self,
        user_id: Seq<char>,
    ) -> Option<Map<Seq<char>, Timestamp>> {
        as_completions(self.cached(PartitionId::UserCompletions, user_id))
    }

    /// What the cache holds as the number of a user's completions.
    pub open spec fn cached_user_completion_count(&self, user_id: Seq<char>) -> Option<i32> {
        as_count(self.cached(PartitionId::UserCompletionCounts, user_id))
    }

    /// What the cache holds as the coins that a user earned.
    pub open spec fn cached_user_coins_earned(&self, user_id: Seq<char>) -> Option<i32> {
        as_count(self.cached(PartitionId::UserCoinsEarned, user_id))
    }

    /// What the cache holds as the number of a user's completions in each
    /// category.
    pub open spec fn cached_user_completions_by_category(
        &self,
        user_id: Seq<char>,
    ) -> Option<Map<Seq<char>, i32>> {
        as_counts(self.cached(PartitionId::UserCompletionsByCategory, user_id))
    }

    /// What the cache holds as a user's completions with their challenges.
    pub open spec fn cached_user_completions_with_challenges(
        &self,
        user_id: Seq<char>,
    ) -> Option<Seq<JournalRecord>> {
        as_journal(self.cached(PartitionId::UserCompletionsWithChallenges, user_id))
    }

    /// What the cache holds as the days on which a user was active within a
    /// window.
    pub open spec fn cached_user_recent_activity(
        &self,
        user_id: Seq<char>,
        num_days_back: i64,
    ) -> Option<Seq<Timestamp>> {
        as_activity(
            self.cached(
                PartitionId::UserRecentActivity,
                activity_subject(user_id, num_days_back),
            ),
        )
    }

    /// What the cache holds as the list of all rewards.
    pub open spec fn cached_rewards(&self) -> Option<Seq<Reward>> {
        as_rewards(self.cached(PartitionId::Rewards, Seq::<char>::empty()))
    }

    /// What the cache holds as the answer about the reward `name`.
    pub open spec fn cached_reward_by_name(&self, name: Seq<char>) -> Option<Option<Reward>> {
        as_reward(self.cached(PartitionId::RewardByName, name))
    }

    /// What the cache holds as a leaderboard page.
    pub open spec fn cached_leaderboard_page(
        &self,
        limit: u64,
        after_rank: Option<i64>,
    ) -> Option<Seq<LeaderboardEntry>> {
        as_page(self.cached(PartitionId::LeaderboardPages, page_subject(limit, after_rank)))
    }

    /// What the cache holds as a user's rank.
    pub open spec fn cached_user_position(&self, user_id: Seq<char>) -> Option<i64> {
        as_position(self.cached(PartitionId::UserPositions, user_id))
    }

    /// Looks up the list of all challenges.
    pub fn get_challenges(&mut self) -> (found: Option<Vec<Challenge>>)
        ensures
            match found {
                Some(value) => old(self).cached_challenges() == Some(value@),
                None => old(self).cached_challenges() is None,
            },
            only_lost(*old(self), *final(self), PartitionId::Challenges),
    {
        let key = make_key(PartitionId::Challenges, "");
        proof {
            reveal_strlit("");
            assert(key@ =~= key_for(PartitionId::Challenges, Seq::<char>::empty()));
        }
        match self.read(PartitionId::Challenges, key.as_str()) {
            Some(CacheValue::Challenges(value)) => Some(value),
            _ => None,
        }
    }

    /// Caches the list of all challenges.
    pub fn set_challenges(&mut self, challenges: Vec<Challenge>)
        ensures
            was_written(
                *old(self),
                *final(self),
                PartitionId::Challenges,
                key_for(PartitionId::Challenges, Seq::<char>::empty()),
                CacheValue::Challenges(challenges)@,
            ),
            old(self).wf() ==> final(self).wf(),
            old(self).wf() ==> final(self).cached_challenges() == Some(challenges@),
    {
        let key = make_key(PartitionId::Challenges, "");
        proof {
            reveal_strlit("");
            assert(key@ =~= key_for(PartitionId::Challenges, Seq::<char>::empty()));
        }
        self.write(PartitionId::Challenges, key, CacheValue::Challenges(challenges));
    }

    /// Looks up the answer about the challenge `name`.
    pub fn get_challenge_by_name(&mut self, name: &str) -> (found: Option<Option<Challenge>>)
        ensures
            found == old(self).cached_challenge_by_name(name@),
            only_lost(*old(self), *final(self), PartitionId::ChallengeByName),
    {
        let key = make_key(PartitionId::ChallengeByName, name);
        match self.read(PartitionId::ChallengeByName, key.as_str()) {
            Some(CacheValue::Challenge(value)) => Some(value),
            _ => None,
        }
    }

    /// Caches the answer about the challenge `name`.
    pub fn set_challenge_by_name(&mut self, name: &str, challenge: Option<Challenge>)
        ensures
            was_written(
                *old(self),
                *final(self),
                PartitionId::ChallengeByName,
                key_for(PartitionId::ChallengeByName, name@),
                CacheValue::Challenge(challenge)@,
            ),
            old(self).wf() ==> final(self).wf(),
            old(self).wf() ==> final(self).cached_challenge_by_name(name@) == Some(challenge),
    {
        let key = make_key(PartitionId::ChallengeByName, name);
        self.write(PartitionId::ChallengeByName, key, CacheValue::Challenge(challenge));
    }

    /// Looks up the number of challenges in each category.
    pub fn get_challenge_counts(&mut self) -> (found: Option<TextMap<i32>>)
        ensures
            match found {
                Some(value) => old(self).cached_challenge_counts() == Some(value@),
                None => old(self).cached_challenge_counts() is None,
            },
            only_lost(*old(self), *final(self), PartitionId::ChallengeCounts),
    {
        let key = make_key(PartitionId::ChallengeCounts, "");
        proof {
            reveal_strlit("");
            assert(key@ =~= key_for(PartitionId::ChallengeCounts, Seq::<char>::empty()));
        }
        match self.read(PartitionId::ChallengeCounts, key.as_str()) {
            Some(CacheValue::Counts(value)) => Some(value),
            _ => None,
        }
    }

    /// Caches the number of challenges in each category.
    pub fn set_challenge_counts(&mut self, counts: TextMap<i32>)
        ensures
            was_written(
                *old(self),
                *final(self),
                PartitionId::ChallengeCounts,
                key_for(PartitionId::ChallengeCounts, Seq::<char>::empty()),
                CacheValue::Counts(counts)@,
            ),
            old(self).wf() ==> final(self).wf(),
            old(self).wf() ==> final(self).cached_challenge_counts() == Some(counts@),
    {
        let key = make_key(PartitionId::ChallengeCounts, "");
        proof {
            reveal_strlit("");
            assert(key@ =~= key_for(PartitionId::ChallengeCounts, Seq::<char>::empty()));
        }
        self.write(PartitionId::ChallengeCounts, key, CacheValue::Counts(counts));
    }

    /// Looks up the number of challenges.
    pub fn get_total_challenge_count(&mut self) -> (found: Option<i32>)
        ensures
            found == old(self).cached_total_challenge_count(),
            only_lost(*old(self), *final(self), PartitionId::TotalChallengeCount),
    {
        let key = make_key(PartitionId::TotalChallengeCount, "");
        proof {
            reveal_strlit("");
            assert(key@ =~= key_for(PartitionId::TotalChallengeCount, Seq::<char>::empty()));
        }
        match self.read(PartitionId::TotalChallengeCount, key.as_str()) {
            Some(CacheValue::Count(value)) => Some(value),
            _ => None,
        }
    }

    /// Caches the number of challenges.
    pub fn set_total_challenge_count(&mut self, count: i32)
        ensures
            was_written(
                *old(self),
                *final(self),
                PartitionId::TotalChallengeCount,
                key_for(PartitionId::TotalChallengeCount, Seq::<char>::empty()),
                CacheValue::Count(count)@,
            ),
            old(self).wf() ==> final(self).wf(),
            old(self).wf() ==> final(self).cached_total_challenge_count() == Some(count),
    {
        let key = make_key(PartitionId::TotalChallengeCount, "");
        proof {
            reveal_strlit("");
            assert(key@ =~= key_for(PartitionId::TotalChallengeCount, Seq::<char>::empty()));
        }
        self.write(PartitionId::TotalChallengeCount, key, CacheValue::Count(count));
    }

    /// Looks up the completion map of a user.
    pub fn get_user_completions(&mut self, user_id: &str) -> (found: Option<TextMap<Timestamp>>)
        ensures
            match found {
                Some(value) => old(self).cached_user_completions(user_id@) == Some(value@),
                None => old(self).cached_user_completions(user_id@) is None,
            },
            only_lost(*old(self), *final(self), PartitionId::UserCompletions),
    {
        let key = make_key(PartitionId::UserCompletions, user_id);
        match self.read(PartitionId::UserCompletions, key.as_str()) {
            Some(CacheValue::Completions(value)) => Some(value),
            _ => None,
        }
    }

    /// Caches the completion map of a user.
    pub fn set_user_completions(&mut self, user_id: &str, completions: TextMap<Timestamp>)
        ensures
            was_written(
                *old(self),
                *final(self),
                PartitionId::UserCompletions,
                key_for(PartitionId::UserCompletions, user_id@),
                CacheValue::Completions(completions)@,
            ),
            old(self).wf() ==> final(self).wf(),
            old(self).wf() ==> final(self).cached_user_completions(user_id@) == Some(completions@),
    {
        let key = make_key(PartitionId::UserCompletions, user_id);
        self.write(PartitionId::UserCompletions, key, CacheValue::Completions(completions));
    }

    /// Looks up the number of a user's completions.
    pub fn get_user_completion_count(&mut self, user_id: &str) -> (found: Option<i32>)
        ensures
            found == old(self).cached_user_completion_count(user_id@),
            only_lost(*old(self), *final(self), PartitionId::UserCompletionCounts),
    {
        let key = make_key(PartitionId::UserCompletionCounts, user_id);
        match self.read(PartitionId::UserCompletionCounts, key.as_str()) {
            Some(CacheValue::Count(value)) => Some(value),
            _ => None,
        }
    }

    /// Caches the number of a user's completions.
    pub fn set_user_completion_count(&mut self, user_id: &str, count: i32)
        ensures
            was_written(
                *old(self),
                *final(self),
                PartitionId::UserCompletionCounts,
                key_for(PartitionId::UserCompletionCounts, user_id@),
                CacheValue::Count(count)@,
            ),
            old(self).wf() ==> final(self).wf(),
            old(self).wf() ==> final(self).cached_user_completion_count(user_id@) == Some(count),
    {
        let key = make_key(PartitionId::UserCompletionCounts, user_id);
        self.write(PartitionId::UserCompletionCounts, key, CacheValue::Count(count));
    }

    /// Looks up the coins that a user earned.
    pub fn get_user_coins_earned(&mut self, user_id: &str) -> (found: Option<i32>)
        ensures
            found == old(self).cached_user_coins_earned(user_id@),
            only_lost(*old(self), *final(self), PartitionId::UserCoinsEarned),
    {
        let key = make_key(PartitionId::UserCoinsEarned, user_id);
        match self.read(PartitionId::UserCoinsEarned, key.as_str()) {
            Some(CacheValue::Count(value)) => Some(value),
            _ => None,
        }
    }

    /// Caches the coins that a user earned.
    pub fn set_user_coins_earned(&mut self, user_id: &str, coins: i32)
        ensures
            was_written(
                *old(self),
                *final(self),
                PartitionId::UserCoinsEarned,
                key_for(PartitionId::UserCoinsEarned, user_id@),
                CacheValue::Count(coins)@,
            ),
            old(self).wf() ==> final(self).wf(),
            old(self).wf() ==> final(self).cached_user_coins_earned(user_id@) == Some(coins),
    {
        let key = make_key(PartitionId::UserCoinsEarned, user_id);
        self.write(PartitionId::UserCoinsEarned, key, CacheValue::Count(coins));
    }

    /// Looks up the number of a user's completions in each category.
    pub fn get_user_completions_by_category(
        &mut self,
        user_id: &str,
    ) -> (found: Option<TextMap<i32>>)
        ensures
            match found {
                Some(value) =>
                    old(self).cached_user_completions_by_category(user_id@) == Some(value@),
                None => old(self).cached_user_completions_by_category(user_id@) is None,
            },
            only_lost(*old(self), *final(self), PartitionId::UserCompletionsByCategory),
    {
        let key = make_key(PartitionId::UserCompletionsByCategory, user_id);
        match self.read(PartitionId::UserCompletionsByCategory, key.as_str()) {
            Some(CacheValue::Counts(value)) => Some(value),
            _ => None,
        }
    }

    /// Caches the number of a user's completions in each category.
    pub fn set_user_completions_by_category(&mut self, user_id: &str, completions: TextMap<i32>)
        ensures
            was_written(
                *old(self),
                *final(self),
                PartitionId::UserCompletionsByCategory,
                key_for(PartitionId::UserCompletionsByCategory, user_id@),
                CacheValue::Counts(completions)@,
            ),
            old(self).wf() ==> final(self).wf(),
            old(self).wf() ==> final(self).cached_user_completions_by_category(user_id@) == Some(
                completions@,
            ),
    {
        let key = make_key(PartitionId::UserCompletionsByCategory, user_id);
        self.write(PartitionId::UserCompletionsByCategory, key, CacheValue::Counts(completions));
    }

    /// Looks up a user's completions with their challenges.
    pub fn get_user_completions_with_challenges(
        &mut self,
        user_id: &str,
    ) -> (found: Option<Vec<JournalRecord>>)
        ensures
            match found {
                Some(value) =>
                    old(self).cached_user_completions_with_challenges(user_id@) == Some(value@),
                None => old(self).cached_user_completions_with_challenges(user_id@) is None,
            },
            only_lost(*old(self), *final(self), PartitionId::UserCompletionsWithChallenges),
    {
        let key = make_key(PartitionId::UserCompletionsWithChallenges, user_id);
        match self.read(PartitionId::UserCompletionsWithChallenges, key.as_str()) {
            Some(CacheValue::Journal(value)) => Some(value),
            _ => None,
        }
    }

    /// Caches a user's completions with their challenges.
    pub fn set_user_completions_with_challenges(
        &mut self,
        user_id: &str,
        completions: Vec<JournalRecord>,
    )
        ensures
            was_written(
                *old(self),
                *final(self),
                PartitionId::UserCompletionsWithChallenges,
                key_for(PartitionId::UserCompletionsWithChallenges, user_id@),
                CacheValue::Journal(completions)@,
            ),
            old(self).wf() ==> final(self).wf(),
            old(self).wf() ==> final(self).cached_user_completions_with_challenges(user_id@)
                == Some(
                completions@,
            ),
    {
        let key = make_key(PartitionId::UserCompletionsWithChallenges, user_id);
        self.write(
            PartitionId::UserCompletionsWithChallenges,
            key,
            CacheValue::Journal(completions),
        );
    }

    /// Looks up the days on which a user was active within a window.
    pub fn get_user_recent_activity(
        &mut self,
        user_id: &str,
        num_days_back: i64,
    ) -> (found: Option<Vec<Timestamp>>)
        ensures
            match found {
                Some(value) =>
                    old(self).cached_user_recent_activity(user_id@, num_days_back) == Some(value@),
                None => old(self).cached_user_recent_activity(user_id@, num_days_back) is None,
            },
            only_lost(*old(self), *final(self), PartitionId::UserRecentActivity),
    {
        let key = make_activity_key(user_id, num_days_back);
        match self.read(PartitionId::UserRecentActivity, key.as_str()) {
            Some(CacheValue::Activity(value)) => Some(value),
            _ => None,
        }
    }

    /// Caches the days on which a user was active within a window.
    pub fn set_user_recent_activity(
        &mut self,
        user_id: &str,
        num_days_back: i64,
        activity: Vec<Timestamp>,
    )
        ensures
            was_written(
                *old(self),
                *final(self),
                PartitionId::UserRecentActivity,
                key_for(PartitionId::UserRecentActivity, activity_subject(user_id@, num_days_back)),
                CacheValue::Activity(activity)@,
            ),
            old(self).wf() ==> final(self).wf(),
            old(self).wf() ==> final(self).cached_user_recent_activity(user_id@, num_days_back)
                == Some(
                activity@,
            ),
    {
        let key = make_activity_key(user_id, num_days_back);
        self.write(PartitionId::UserRecentActivity, key, CacheValue::Activity(activity));
    }

    /// Looks up the list of all rewards.
    pub fn get_rewards(&mut self) -> (found: Option<Vec<Reward>>)
        ensures
            match found {
                Some(value) => old(self).cached_rewards() == Some(value@),
                None => old(self).cached_rewards() is None,
            },
            only_lost(*old(self), *final(self), PartitionId::Rewards),
    {
        let key = make_key(PartitionId::Rewards, "");
        proof {
            reveal_strlit("");
            assert(key@ =~= key_for(PartitionId::Rewards, Seq::<char>::empty()));
        }
        match self.read(PartitionId::Rewards, key.as_str()) {
            Some(CacheValue::Rewards(value)) => Some(value),
            _ => None,
        }
    }

    /// Caches the list of all rewards.
    pub fn set_rewards(&mut self, rewards: Vec<Reward>)
        ensures
            was_written(
                *old(self),
                *final(self),
                PartitionId::Rewards,
                key_for(PartitionId::Rewards, Seq::<char>::empty()),
                CacheValue::Rewards(rewards)@,
            ),
            old(self).wf() ==> final(self).wf(),
            old(self).wf() ==> final(self).cached_rewards() == Some(rewards@),
    {
        let key = make_key(PartitionId::Rewards, "");
        proof {
            reveal_strlit("");
            assert(key@ =~= key_for(PartitionId::Rewards, Seq::<char>::empty()));
        }
        self.write(PartitionId::Rewards, key, CacheValue::Rewards(rewards));
    }

    /// Looks up the answer about the reward `name`.
    pub fn get_reward_by_name(&mut self, name: &str) -> (found: Option<Option<Reward>>)
        ensures
            found == old(self).cached_reward_by_name(name@),
            only_lost(*old(self), *final(self), PartitionId::RewardByName),
    {
        let key = make_key(PartitionId::RewardByName, name);
        match self.read(PartitionId::RewardByName, key.as_str()) {
            Some(CacheValue::Reward(value)) => Some(value),
            _ => None,
        }
    }

    /// Caches the answer about the reward `name`.
    pub fn set_reward_by_name(&mut self, name: &str, reward: Option<Reward>)
        ensures
            was_written(
                *old(self),
                *final(self),
                PartitionId::RewardByName,
                key_for(PartitionId::RewardByName, name@),
                CacheValue::Reward(reward)@,
            ),
            old(self).wf() ==> final(self).wf(),
            old(self).wf() ==> final(self).cached_reward_by_name(name@) == Some(reward),
    {
        let key = make_key(PartitionId::RewardByName, name);
        self.write(PartitionId::RewardByName, key, CacheValue::Reward(reward));
    }

    /// Looks up a leaderboard page.
    pub fn get_leaderboard_page(
        &mut self,
        limit: u64,
        after_rank: Option<i64>,
    ) -> (found: Option<Vec<LeaderboardEntry>>)
        ensures
            match found {
                Some(value) => old(self).cached_leaderboard_page(limit, after_rank) == Some(value@),
                None => old(self).cached_leaderboard_page(limit, after_rank) is None,
            },
            only_lost(*old(self), *final(self), PartitionId::LeaderboardPages),
    {
        let key = make_page_key(limit, after_rank);
        match self.read(PartitionId::LeaderboardPages, key.as_str()) {
            Some(CacheValue::Page(value)) => Some(value),
            _ => None,
        }
    }

    /// Caches a leaderboard page.
    pub fn set_leaderboard_page(
        &mut self,
        limit: u64,
        after_rank: Option<i64>,
        entries: Vec<LeaderboardEntry>,
    )
        ensures
            was_written(
                *old(self),
                *final(self),
                PartitionId::LeaderboardPages,
                key_for(PartitionId::LeaderboardPages, page_subject(limit, after_rank)),
                CacheValue::Page(entries)@,
            ),
            old(self).wf() ==> final(self).wf(),
            old(self).wf() ==> final(self).cached_leaderboard_page(limit, after_rank) == Some(
                entries@,
            ),
    {
        let key = make_page_key(limit, after_rank);
        self.write(PartitionId::LeaderboardPages, key, CacheValue::Page(entries));
    }

    /// Looks up a user's rank.
    pub fn get_user_position(&mut self, user_id: &str) -> (found: Option<i64>)
        ensures
            found == old(self).cached_user_position(user_id@),
            only_lost(*old(self), *final(self), PartitionId::UserPositions),
    {
        let key = make_key(PartitionId::UserPositions, user_id);
        match self.read(PartitionId::UserPositions, key.as_str()) {
            Some(CacheValue::Position(value)) => Some(value),
            _ => None,
        }
    }

    /// Caches a user's rank.
    pub fn set_user_position(&mut self, user_id: &str, position: i64)
        ensures
            was_written(
                *old(self),
                *final(self),
                PartitionId::UserPositions,
                key_for(PartitionId::UserPositions, user_id@),
                CacheValue::Position(position)@,
            ),
            old(self).wf() ==> final(self).wf(),
            old(self).wf() ==> final(self).cached_user_position(user_id@) == Some(position),
    {
        let key = make_key(PartitionId::UserPositions, user_id);
        self.write(PartitionId::UserPositions, key, CacheValue::Position(position));
    }

    /// Clears the partitions that hold challenges and their counts.
    pub fn invalidate_challenges(&mut self)
        ensures
            was_cleared(*old(self), *final(self), challenge_group()),
    {
        self.challenges.invalidate_all();
        self.challenge_by_name.invalidate_all();
        self.challenge_counts.invalidate_all();
        self.total_challenge_count.invalidate_all();
    }

    /// Clears every partition entry that is keyed by `user_id`, and the
    /// whole recent-activity partition, whose keys carry a window besides
    /// the user.
    pub fn invalidate_user_data(&mut self, user_id: &str)
        ensures
            was_cleared_for_user(*old(self), *final(self), user_id@),
    {
        let completion_key = make_key(PartitionId::UserCompletions, user_id);
        let count_key = make_key(PartitionId::UserCompletionCounts, user_id);
        let coins_key = make_key(PartitionId::UserCoinsEarned, user_id);
        let category_key = make_key(PartitionId::UserCompletionsByCategory, user_id);
        let position_key = make_key(PartitionId::UserPositions, user_id);
        let journal_key = make_key(PartitionId::UserCompletionsWithChallenges, user_id);
        self.user_completions.invalidate(completion_key.as_str());
        self.user_completion_counts.invalidate(count_key.as_str());
        self.user_coins_earned.invalidate(coins_key.as_str());
        self.user_completions_by_category.invalidate(category_key.as_str());
        self.user_positions.invalidate(position_key.as_str());
        self.user_completions_with_challenges.invalidate(journal_key.as_str());
        self.user_recent_activity.invalidate_all();
    }

    /// Invalidates what a change of a user's coins made stale: the user's
    /// cached data, then the leaderboard.
    pub fn invalidate_user_and_leaderboard(&mut self, user_id: &str)
        ensures
            was_cleared_for_coins(*old(self), *final(self), user_id@),
    {
        self.invalidate_user_data(user_id);
        let ghost between = *self;
        self.invalidate_leaderboard();
        proof {
            assert forall|id: PartitionId|
                user_group().contains(id) && id != PartitionId::UserPositions implies lost_key(
                *old(self),
                *self,
                id,
                key_for(id, user_id@),
            ) by {
                assert(lost_key(*old(self), between, id, key_for(id, user_id@)));
                assert(self.partition(id) == between.partition(id));
            }
            assert(self.partition(PartitionId::UserRecentActivity) == between.partition(
                PartitionId::UserRecentActivity,
            ));
            assert(is_afresh(*self, PartitionId::LeaderboardPages));
            assert(is_afresh(*self, PartitionId::UserPositions));
            assert forall|id: PartitionId|
                !user_group().contains(id) && id != PartitionId::UserRecentActivity && id
                    != PartitionId::LeaderboardPages implies untouched(*old(self), *self, id) by {
                assert(between.partition(id) == old(self).partition(id));
                assert(self.partition(id) == between.partition(id));
            }
            assert forall|id: PartitionId| old(self).partition(id).sound() implies #[trigger] self.capacity(
                id,
            ) == old(self).capacity(id) && self.partition(id).sound() by {
                assert(between.capacity(id) == old(self).capacity(id));
            }
        }
    }

    /// Clears every leaderboard page and every cached position.
    pub fn invalidate_leaderboard(&mut self)
        ensures
            was_cleared(*old(self), *final(self), leaderboard_group()),
    {
        self.leaderboard_pages.invalidate_all();
        self.user_positions.invalidate_all();
    }

    /// Clears the partitions that hold rewards.
    pub fn invalidate_rewards(&mut self)
        ensures
            was_cleared(*old(self), *final(self), reward_group()),
    {
        self.rewards.invalidate_all();
        self.reward_by_name.invalidate_all();
    }

    /// Clears every partition.
    pub fn invalidate_all(&mut self)
        ensures
            was_cleared(*old(self), *final(self), Set::full()),
            final(self).is_empty(),
            final(self).is_fresh(),
    {
        self.invalidate_challenges();
        let ghost first = *self;
        self.invalidate_leaderboard();
        let ghost second = *self;
        self.invalidate_rewards();
        let ghost third = *self;
        self.user_completions.invalidate_all();
        self.user_completion_counts.invalidate_all();
        self.user_coins_earned.invalidate_all();
        self.user_completions_by_category.invalidate_all();
        self.user_completions_with_challenges.invalidate_all();
        self.user_recent_activity.invalidate_all();
        proof {
            assert forall|id: PartitionId| is_afresh(*self, id) by {
                let cleared_first = challenge_group().contains(id);
                let cleared_second = leaderboard_group().contains(id);
                let cleared_third = reward_group().contains(id);
                assert(cleared_first ==> is_afresh(first, id));
                assert(!cleared_second ==> second.partition(id) == first.partition(id));
                assert(cleared_second ==> is_afresh(second, id));
                assert(!cleared_third ==> third.partition(id) == second.partition(id));
                assert(cleared_third ==> is_afresh(third, id));
            }
            assert forall|id: PartitionId| old(self).partition(id).sound() implies #[trigger] self.capacity(
                id,
            ) == old(self).capacity(id) && self.partition(id).sound() by {
                assert(first.capacity(id) == old(self).capacity(id));
                assert(second.capacity(id) == first.capacity(id));
                assert(third.capacity(id) == second.capacity(id));
            }
            assert forall|id: PartitionId| #[trigger] self.entries(id) == Entries::empty() by {
                assert(is_afresh(*self, id));
            }
        }
    }
}

impl Default for CacheManager {
    fn default() -> (cache: Self)
        ensures
            cache.wf(),
            cache.is_empty(),
            cache.is_fresh(),
    {
        CacheManager::new()
    }
}

/// Cache correctness: a lookup that follows a store under the same key,
/// with no invalidation between them, finds what was stored.
pub proof fn lemma_read_after_write(
    before: CacheManager,
    stored: CacheManager,
    after: CacheManager,
    id: PartitionId,
    key: Seq<char>,
    value: CachedData,
    found: Option<CachedData>,
)
    requires
        before.capacity(id) > 0,
        was_written(before, stored, id, key, value),
        was_read(stored, after, id, key, found),
    ensures
        found == Some(value),
{
}

/// In a cache whose partitions have their capacities, every partition
/// stores what it is given.
pub proof fn lemma_wf_stores(cache: CacheManager, id: PartitionId)
    requires
        cache.wf(),
    ensures
        cache.capacity(id) > 0,
{
    assert(cache.capacity(id) == capacity_of(id));
}

/// Invalidation is complete for a group: after its partitions were cleared,
/// a lookup of any key in any of them misses.
pub proof fn lemma_miss_after_clear(
    before: CacheManager,
    cleared: CacheManager,
    after: CacheManager,
    group: Set<PartitionId>,
    id: PartitionId,
    key: Seq<char>,
    found: Option<CachedData>,
)
    requires
        was_cleared(before, cleared, group),
        group.contains(id),
        was_read(cleared, after, id, key, found),
    ensures
        found is None,
{
    assert(is_afresh(cleared, id));
}

/// Invalidation is complete for a user: after the user's data was
/// invalidated, a lookup of the user's key misses in every partition keyed
/// by user id, and a lookup of any key misses in the recent-activity
/// partition.
pub proof fn lemma_miss_after_user_clear(
    before: CacheManager,
    cleared: CacheManager,
    after: CacheManager,
    user_id: Seq<char>,
    id: PartitionId,
    key: Seq<char>,
    found: Option<CachedData>,
)
    requires
        was_cleared_for_user(before, cleared, user_id),
        (user_group().contains(id) && key == key_for(id, user_id)) || id
            == PartitionId::UserRecentActivity,
        was_read(cleared, after, id, key, found),
    ensures
        found is None,
{
    if id != PartitionId::UserRecentActivity {
        assert(lost_key(before, cleared, id, key_for(id, user_id)));
    }
}

/// Invalidation over-reaches at most where it is meant to: invalidating one
/// user's data leaves in the partitions keyed by user id nothing that was
/// not there, takes from an intact one nothing but that user's entry, and
/// touches no partition outside the user's group.
pub proof fn lemma_user_clear_is_bounded(
    before: CacheManager,
    cleared: CacheManager,
    user_id: Seq<char>,
    id: PartitionId,
)
    requires
        was_cleared_for_user(before, cleared, user_id),
    ensures
        cleared.entries(id).submap_of(before.entries(id)),
        user_group().contains(id) && before.is_intact(id) ==> cleared.entries(id)
            == before.entries(id).remove(key_for(id, user_id)),
        !user_group().contains(id) && id != PartitionId::UserRecentActivity ==> cleared.entries(id)
            == before.entries(id),
{
    if user_group().contains(id) {
        assert(lost_key(before, cleared, id, key_for(id, user_id)));
    } else if id != PartitionId::UserRecentActivity {
        assert(cleared.partition(id) == before.partition(id));
    }
}

/// A lookup in an intact partition changes nothing that any lookup finds.
pub proof fn lemma_lookup_keeps_all(
    before: CacheManager,
    after: CacheManager,
    id: PartitionId,
    key: Seq<char>,
    found: Option<CachedData>,
    other: PartitionId,
    other_key: Seq<char>,
)
    requires
        was_read(before, after, id, key, found),
        before.is_intact(id),
    ensures
        after.lookup(other, other_key) == before.lookup(other, other_key),
{
    if other != id {
        assert(untouched(before, after, other));
    }
}

/// A store in a partition with room changes what lookups find under the
/// stored key, and nothing else.
pub proof fn lemma_store_keeps_rest(
    before: CacheManager,
    after: CacheManager,
    id: PartitionId,
    key: Seq<char>,
    value: CachedData,
    other: PartitionId,
    other_key: Seq<char>,
)
    requires
        was_written(before, after, id, key, value),
        before.has_room(id),
        other != id || other_key != key,
    ensures
        after.lookup(id, key) == Some(value),
        after.lookup(other, other_key) == before.lookup(other, other_key),
{
    if other != id {
        assert(untouched(before, after, other));
    }
}

/// Discarding a key from an intact partition changes what lookups find
/// under that key, and nothing else.
pub proof fn lemma_discard_keeps_rest(
    before: CacheManager,
    after: CacheManager,
    id: PartitionId,
    key: Seq<char>,
    other: PartitionId,
    other_key: Seq<char>,
)
    requires
        was_discarded(before, after, id, key),
        before.is_intact(id),
        other != id || other_key != key,
    ensures
        after.lookup(id, key) is None,
        after.lookup(other, other_key) == before.lookup(other, other_key),
{
    if other != id {
        assert(untouched(before, after, other));
    }
}

/// Invalidating one user's data keeps, in every intact partition keyed by
/// user id, what is cached for any other user.
pub proof fn lemma_user_clear_keeps_others(
    before: CacheManager,
    cleared: CacheManager,
    user_id: Seq<char>,
    id: PartitionId,
    other_user: Seq<char>,
)
    requires
        was_cleared_for_user(before, cleared, user_id),
        user_group().contains(id),
        before.is_intact(id),
        other_user != user_id,
    ensures
        cleared.cached(id, other_user) == before.cached(id, other_user),
{
    let held = cleared.entries(id);
    assert(lost_key(before, cleared, id, key_for(id, user_id)));
    if key_for(id, other_user) == key_for(id, user_id) {
        lemma_keys_differ(id, other_user, user_id);
    }
}

/// Calls with different subjects have different keys in a partition.
pub proof fn lemma_keys_differ(id: PartitionId, a: Seq<char>, b: Seq<char>)
    requires
        key_for(id, a) == key_for(id, b),
    ensures
        a == b,
{
    lemma_same_start(prefix_of(id), a, b);
}

/// Recent-activity calls for different users or different windows have
/// different subjects.
pub proof fn lemma_activity_subjects_differ(
    first_user: Seq<char>,
    first_days: i64,
    second_user: Seq<char>,
    second_days: i64,
)
    requires
        activity_subject(first_user, first_days) == activity_subject(
            second_user,
            second_days,
        ),
    ensures
        first_user == second_user,
        first_days == second_days,
{
    lemma_signed_decimal_chars(first_days as int);
    lemma_signed_decimal_chars(second_days as int);
    lemma_split_at_last_colon(
        first_user,
        signed_decimal(first_days as int),
        second_user,
        signed_decimal(second_days as int),
    );
    lemma_signed_decimal_injective(first_days as int, second_days as int);
}

/// Page calls with different limits or different cursors have different
/// subjects, where an absent cursor counts as 0.
pub proof fn lemma_page_subjects_differ(
    first_limit: u64,
    first_cursor: Option<i64>,
    second_limit: u64,
    second_cursor: Option<i64>,
)
    requires
        page_subject(first_limit, first_cursor) == page_subject(second_limit, second_cursor),
    ensures
        first_limit == second_limit,
        cursor_of(first_cursor) == cursor_of(second_cursor),
{
    lemma_decimal_has_no_colon(first_limit as nat);
    lemma_decimal_has_no_colon(second_limit as nat);
    lemma_split_at_first_colon(
        decimal(first_limit as nat),
        signed_decimal(cursor_of(first_cursor)),
        decimal(second_limit as nat),
        signed_decimal(cursor_of(second_cursor)),
    );
    lemma_decimal_injective(first_limit as nat, second_limit as nat);
    lemma_signed_decimal_injective(cursor_of(first_cursor), cursor_of(second_cursor));
}

} // verus!
