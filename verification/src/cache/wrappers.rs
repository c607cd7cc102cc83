//! The cached services: each wraps a service over the backing store, puts
//! the cache in front of it, and offers the same capability as the service
//! that it wraps. A read is answered from the cache where it holds the
//! answer, else by the wrapped service, whose answer is then cached. A write
//! goes to the wrapped service, and where it changed the store the
//! partitions that may now be stale are invalidated.

use vstd::prelude::*;
use crate::cache::manager::{
    activity_subject, challenge_group, is_afresh, key_for, lemma_keys_differ,
    lemma_page_subjects_differ, lost_key, only_lost, page_subject, reward_group, untouched,
    user_group, was_cleared, was_cleared_for_coins, was_cleared_for_user, was_written,
    CacheManager, PartitionId,
};
use crate::cache::partition::{copy_optional_challenge, copy_optional_reward, CachedData, Entries};
use crate::entities::{
    Challenge, Completion, JournalRecord, Reward, StoreError, TextMap, Timestamp,
};
use crate::services::leaderboard::{
    page, page_start, place_of_user, rank_of, LeaderboardEntry, UserStats,
};
use crate::services::traits::{
    ChallengeServiceTrait, CompletionServiceTrait, LeaderboardServiceTrait, RewardServiceTrait,
};

verus! {

/// An answer as it reads, apart from how it is stored.
pub open spec fn seen<T: View>(answer: Result<T, StoreError>) -> Result<T::V, StoreError> {
    match answer {
        Ok(value) => Ok(value@),
        Err(error) => Err(error),
    }
}

/// The rule of every cached read: where the cache knows the answer, that is
/// the answer; else it is one that the wrapped service may give.
pub open spec fn hit_or_fetched<T>(
    cached: Option<T>,
    answer: Result<T, StoreError>,
    may_be_fetched: bool,
) -> bool {
    match cached {
        Some(value) => answer == Ok::<T, StoreError>(value),
        None => may_be_fetched,
    }
}

/// What a cached completion map knows of whether a challenge was completed.
pub open spec fn known_to_exist(
    completions: Option<Map<Seq<char>, Timestamp>>,
    challenge_name: Seq<char>,
) -> Option<bool> {
    match completions {
        Some(map) => Some(map.contains_key(challenge_name)),
        None => None,
    }
}

/// What a cached completion map knows of one completion with its challenge:
/// that there is none, where it lacks the challenge, and else nothing.
pub open spec fn known_to_lack(
    completions: Option<Map<Seq<char>, Timestamp>>,
    challenge_name: Seq<char>,
) -> Option<Option<JournalRecord>> {
    match completions {
        Some(map) if !map.contains_key(challenge_name) => Some(None),
        _ => None,
    }
}

/// What a read that missed left in the cache: the fetched data under its
/// key, where the wrapped service gave any, and otherwise nothing new.
pub open spec fn was_filled(
    before: CacheManager,
    after: CacheManager,
    id: PartitionId,
    key: Seq<char>,
    fetched: Option<CachedData>,
) -> bool {
    match fetched {
        Some(data) => was_written(before, after, id, key, data),
        None => only_lost(before, after, id),
    }
}

/// A store after a lookup stores as much as a store alone: what the lookup
/// lost stays lost.
pub proof fn lemma_write_after_read(
    before: CacheManager,
    between: CacheManager,
    after: CacheManager,
    id: PartitionId,
    key: Seq<char>,
    data: CachedData,
)
    requires
        only_lost(before, between, id),
        was_written(between, after, id, key, data),
    ensures
        was_written(before, after, id, key, data),
        before.wf() ==> after.wf(),
{
    let lost = after.entries(id).remove(key);
    let kept = between.entries(id);
    let all = before.entries(id);
    assert(lost.submap_of(kept));
    assert(kept.submap_of(all));
    assert forall|k: Seq<char>| #[trigger]
        lost.dom().contains(k) implies #[trigger] all.dom().contains(k) && lost[k] == all[k] by {
        assert(kept.dom().contains(k));
        assert(all.dom().contains(k));
    }
    assert(lost.submap_of(all));
    assert forall|any: PartitionId|
        #[trigger] after.capacity(any) == before.capacity(any) && after.partition(any).sound()
            == before.partition(any).sound() by {
        assert(between.capacity(any) == before.capacity(any));
    }
    assert(between.capacity(id) == before.capacity(id));
    assert(after.capacity(id) == between.capacity(id));
}

/// What a cached read does to the cache: on a hit the partition gains
/// nothing, and loses nothing while it is intact; on a miss it holds the
/// fetched data afterwards, where the wrapped service gave any.
pub open spec fn read_effect(
    before: CacheManager,
    after: CacheManager,
    id: PartitionId,
    key: Seq<char>,
    hit: bool,
    fetched: Option<CachedData>,
) -> bool {
    if hit {
        only_lost(before, after, id)
    } else {
        was_filled(before, after, id, key, fetched)
    }
}

/// A cached read in a partition with room changes what lookups find under
/// the key of the read, and nothing else.
pub proof fn lemma_read_keeps_rest(
    before: CacheManager,
    after: CacheManager,
    id: PartitionId,
    key: Seq<char>,
    hit: bool,
    fetched: Option<CachedData>,
    other: PartitionId,
    other_key: Seq<char>,
)
    requires
        read_effect(before, after, id, key, hit, fetched),
        before.has_room(id),
        other != id || other_key != key,
    ensures
        after.lookup(other, other_key) == before.lookup(other, other_key),
{
    if other != id {
        assert(untouched(before, after, other));
    }
}

/// The challenge service behind the cache.
pub struct CachedChallengeService<'a, T: ChallengeServiceTrait> {
    /// The wrapped service.
    pub inner: T,
    /// The cache in front of it, borrowed for as long as the service lives.
    pub cache: &'a mut CacheManager,
}

impl<'a, T: ChallengeServiceTrait> CachedChallengeService<'a, T> {
    /// Puts the cache in front of `inner`.
    pub fn new(inner: T, cache: &'a mut CacheManager) -> (cached: Self)
        ensures
            cached.inner == inner,
            *cached.cache == *old(cache),
            *final(cached.cache) == *final(cache),
    {
        CachedChallengeService { inner, cache }
    }
}

impl<'a, T: ChallengeServiceTrait> ChallengeServiceTrait for CachedChallengeService<'a, T> {
    /// The rule of `get_all_challenges`: the cached answer on a hit, else an
    /// answer
    /// of the wrapped service.
    open spec fn may_get_all_challenges(&self, answer: Result<Vec<Challenge>, StoreError>) -> bool {
        hit_or_fetched(
            self.cache.cached_challenges(),
            seen(answer),
            self.inner.may_get_all_challenges(answer),
        )
    }

    /// Every challenge.
    fn get_all_challenges(&mut self) -> (answer: Result<Vec<Challenge>, StoreError>)
        ensures
            *final(final(self).cache) == *final(old(self).cache),
            read_effect(
                *old(self).cache,
                *final(self).cache,
                PartitionId::Challenges,
                key_for(PartitionId::Challenges, Seq::<char>::empty()),
                old(self).cache.cached_challenges() is Some,
                match answer {
                    Ok(value) => Some(CachedData::Challenges(value@)),
                    Err(_) => None,
                },
            ),
            old(self).cache.cached_challenges() is Some
                || old(self).inner.is_steady() ==> final(self).inner == old(self).inner,
    {
        let ghost before = *self.cache;
        if let Some(cached) = self.cache.get_challenges() {
            return Ok(cached);
        }
        let ghost between = *self.cache;
        match self.inner.get_all_challenges() {
            Ok(value) => {
                self.cache.set_challenges(value.clone());
                proof {
                    lemma_write_after_read(
                        before,
                        between,
                        *self.cache,
                        PartitionId::Challenges,
                        key_for(PartitionId::Challenges, Seq::<char>::empty()),
                        CachedData::Challenges(value@),
                    );
                }
                Ok(value)
            },
            Err(error) => Err(error),
        }
    }

    /// The rule of `get_challenge_by_name`: the cached answer on a hit, else
    /// an answer
    /// of the wrapped service.
    open spec fn may_get_challenge_by_name(
        &self,
        name: Seq<char>,
        answer: Result<Option<Challenge>, StoreError>,
    ) -> bool {
        hit_or_fetched(
            self.cache.cached_challenge_by_name(name),
            answer,
            self.inner.may_get_challenge_by_name(name, answer),
        )
    }

    /// The challenge `name`, where there is one. That there is none is
    /// cached too.
    fn get_challenge_by_name(
        &mut self,
        name: &str,
    ) -> (answer: Result<Option<Challenge>, StoreError>)
        ensures
            *final(final(self).cache) == *final(old(self).cache),
            read_effect(
                *old(self).cache,
                *final(self).cache,
                PartitionId::ChallengeByName,
                key_for(PartitionId::ChallengeByName, name@),
                old(self).cache.cached_challenge_by_name(name@) is Some,
                match answer {
                    Ok(value) => Some(CachedData::Challenge(value)),
                    Err(_) => None,
                },
            ),
            old(self).cache.cached_challenge_by_name(name@) is Some
                || old(self).inner.is_steady() ==> final(self).inner == old(self).inner,
    {
        let ghost before = *self.cache;
        if let Some(cached) = self.cache.get_challenge_by_name(name) {
            return Ok(cached);
        }
        let ghost between = *self.cache;
        match self.inner.get_challenge_by_name(name) {
            Ok(value) => {
                self.cache.set_challenge_by_name(name, copy_optional_challenge(&value));
                proof {
                    lemma_write_after_read(
                        before,
                        between,
                        *self.cache,
                        PartitionId::ChallengeByName,
                        key_for(PartitionId::ChallengeByName, name@),
                        CachedData::Challenge(value),
                    );
                }
                Ok(value)
            },
            Err(error) => Err(error),
        }
    }

    /// The rule of `update_challenge_geolocation`: an answer of the wrapped
    /// service.
    open spec fn may_update_challenge_geolocation(
        &self,
        name: Seq<char>,
        latitude_bits: u64,
        longitude_bits: u64,
        accuracy_bits: u64,
        answer: Result<Option<Challenge>, StoreError>,
    ) -> bool {
        self.inner.may_update_challenge_geolocation(
            name,
            latitude_bits,
            longitude_bits,
            accuracy_bits,
            answer,
        )
    }

    /// Sets where the challenge `name` is. Where the store changed, the
    /// challenge partitions are cleared.
    fn update_challenge_geolocation(
        &mut self,
        name: &str,
        latitude_bits: u64,
        longitude_bits: u64,
        accuracy_bits: u64,
    ) -> (answer: Result<Option<Challenge>, StoreError>)
        ensures
            *final(final(self).cache) == *final(old(self).cache),
            match answer {
                Ok(Some(_)) => was_cleared(*old(self).cache, *final(self).cache, challenge_group()),
                _ => *final(self).cache == *old(self).cache,
            },
            old(self).inner.is_steady() ==> final(self).inner == old(self).inner,
    {
        let answer = self.inner.update_challenge_geolocation(
            name,
            latitude_bits,
            longitude_bits,
            accuracy_bits,
        );
        let changed = match &answer {
            Ok(Some(_)) => true,
            _ => false,
        };
        if changed {
            self.cache.invalidate_challenges();
        }
        answer
    }

    /// The rule of `get_total_challenges_by_category`: the cached answer on a
    /// hit, else an answer
    /// of the wrapped service.
    open spec fn may_get_total_challenges_by_category(
        &self,
        answer: Result<TextMap<i32>, StoreError>,
    ) -> bool {
        hit_or_fetched(
            self.cache.cached_challenge_counts(),
            seen(answer),
            self.inner.may_get_total_challenges_by_category(answer),
        )
    }

    /// The number of challenges in each category.
    fn get_total_challenges_by_category(&mut self) -> (answer: Result<TextMap<i32>, StoreError>)
        ensures
            *final(final(self).cache) == *final(old(self).cache),
            read_effect(
                *old(self).cache,
                *final(self).cache,
                PartitionId::ChallengeCounts,
                key_for(PartitionId::ChallengeCounts, Seq::<char>::empty()),
                old(self).cache.cached_challenge_counts() is Some,
                match answer {
                    Ok(value) => Some(CachedData::Counts(value@)),
                    Err(_) => None,
                },
            ),
            old(self).cache.cached_challenge_counts() is Some
                || old(self).inner.is_steady() ==> final(self).inner == old(self).inner,
    {
        let ghost before = *self.cache;
        if let Some(cached) = self.cache.get_challenge_counts() {
            return Ok(cached);
        }
        let ghost between = *self.cache;
        match self.inner.get_total_challenges_by_category() {
            Ok(value) => {
                self.cache.set_challenge_counts(value.clone());
                proof {
                    lemma_write_after_read(
                        before,
                        between,
                        *self.cache,
                        PartitionId::ChallengeCounts,
                        key_for(PartitionId::ChallengeCounts, Seq::<char>::empty()),
                        CachedData::Counts(value@),
                    );
                }
                Ok(value)
            },
            Err(error) => Err(error),
        }
    }

    /// The rule of `get_total_challenge_count`: the cached answer on a hit,
    /// else an answer
    /// of the wrapped service.
    open spec fn may_get_total_challenge_count(&self, answer: Result<i32, StoreError>) -> bool {
        hit_or_fetched(
            self.cache.cached_total_challenge_count(),
            answer,
            self.inner.may_get_total_challenge_count(answer),
        )
    }

    /// The number of challenges.
    fn get_total_challenge_count(&mut self) -> (answer: Result<i32, StoreError>)
        ensures
            *final(final(self).cache) == *final(old(self).cache),
            read_effect(
                *old(self).cache,
                *final(self).cache,
                PartitionId::TotalChallengeCount,
                key_for(PartitionId::TotalChallengeCount, Seq::<char>::empty()),
                old(self).cache.cached_total_challenge_count() is Some,
                match answer {
                    Ok(value) => Some(CachedData::Count(value)),
                    Err(_) => None,
                },
            ),
            old(self).cache.cached_total_challenge_count() is Some
                || old(self).inner.is_steady() ==> final(self).inner == old(self).inner,
    {
        let ghost before = *self.cache;
        if let Some(cached) = self.cache.get_total_challenge_count() {
            return Ok(cached);
        }
        let ghost between = *self.cache;
        match self.inner.get_total_challenge_count() {
            Ok(value) => {
                self.cache.set_total_challenge_count(value);
                proof {
                    lemma_write_after_read(
                        before,
                        between,
                        *self.cache,
                        PartitionId::TotalChallengeCount,
                        key_for(PartitionId::TotalChallengeCount, Seq::<char>::empty()),
                        CachedData::Count(value),
                    );
                }
                Ok(value)
            },
            Err(error) => Err(error),
        }
    }

    /// The rule of `upsert_challenges_batch`: an answer of the wrapped service.
    open spec fn may_upsert_challenges_batch(
        &self,
        challenges: Seq<Challenge>,
        answer: Result<usize, StoreError>,
    ) -> bool {
        self.inner.may_upsert_challenges_batch(challenges, answer)
    }

    /// Inserts or updates the challenges. Where the store took them, the
    /// whole cache is cleared: what a challenge is worth enters what users
    /// earned and how they rank.
    fn upsert_challenges_batch(
        &mut self,
        challenges: Vec<Challenge>,
    ) -> (answer: Result<usize, StoreError>)
        ensures
            *final(final(self).cache) == *final(old(self).cache),
            match answer {
                Ok(_) => was_cleared(*old(self).cache, *final(self).cache, Set::full()),
                _ => *final(self).cache == *old(self).cache,
            },
            old(self).inner.is_steady() ==> final(self).inner == old(self).inner,
    {
        let answer = self.inner.upsert_challenges_batch(challenges);
        if answer.is_ok() {
            self.cache.invalidate_all();
        }
        answer
    }
}

/// The completion service behind the cache.
pub struct CachedCompletionService<'a, T: CompletionServiceTrait> {
    /// The wrapped service.
    pub inner: T,
    /// The cache in front of it, borrowed for as long as the service lives.
    pub cache: &'a mut CacheManager,
}

impl<'a, T: CompletionServiceTrait> CachedCompletionService<'a, T> {
    /// Puts the cache in front of `inner`.
    pub fn new(inner: T, cache: &'a mut CacheManager) -> (cached: Self)
        ensures
            cached.inner == inner,
            *cached.cache == *old(cache),
            *final(cached.cache) == *final(cache),
    {
        CachedCompletionService { inner, cache }
    }
}

impl<'a, T: CompletionServiceTrait> CompletionServiceTrait for CachedCompletionService<'a, T> {
    /// The rule of `get_user_completion_map`: the cached answer on a hit,
    /// else an answer
    /// of the wrapped service.
    open spec fn may_get_user_completion_map(
        &self,
        user_id: Seq<char>,
        answer: Result<TextMap<Timestamp>, StoreError>,
    ) -> bool {
        hit_or_fetched(
            self.cache.cached_user_completions(user_id),
            seen(answer),
            self.inner.may_get_user_completion_map(user_id, answer),
        )
    }

    /// A user's completions: challenge name to time of completion.
    fn get_user_completion_map(
        &mut self,
        user_id: &str,
    ) -> (answer: Result<TextMap<Timestamp>, StoreError>)
        ensures
            *final(final(self).cache) == *final(old(self).cache),
            read_effect(
                *old(self).cache,
                *final(self).cache,
                PartitionId::UserCompletions,
                key_for(PartitionId::UserCompletions, user_id@),
                old(self).cache.cached_user_completions(user_id@) is Some,
                match answer {
                    Ok(value) => Some(CachedData::Completions(value@)),
                    Err(_) => None,
                },
            ),
            old(self).cache.cached_user_completions(user_id@) is Some
                || old(self).inner.is_steady() ==> final(self).inner == old(self).inner,
    {
        let ghost before = *self.cache;
        if let Some(cached) = self.cache.get_user_completions(user_id) {
            return Ok(cached);
        }
        let ghost between = *self.cache;
        match self.inner.get_user_completion_map(user_id) {
            Ok(value) => {
                self.cache.set_user_completions(user_id, value.clone());
                proof {
                    lemma_write_after_read(
                        before,
                        between,
                        *self.cache,
                        PartitionId::UserCompletions,
                        key_for(PartitionId::UserCompletions, user_id@),
                        CachedData::Completions(value@),
                    );
                }
                Ok(value)
            },
            Err(error) => Err(error),
        }
    }

    /// The rule of `create_completion`: an answer of the wrapped service.
    open spec fn may_create_completion(
        &self,
        user_id: Seq<char>,
        challenge_name: Seq<char>,
        s3_link: Option<String>,
        note: Option<String>,
        answer: Result<Completion, StoreError>,
    ) -> bool {
        self.inner.may_create_completion(user_id, challenge_name, s3_link, note, answer)
    }

    /// Records that a user completed a challenge. Where the store took it,
    /// the user's cached data and the leaderboard are invalidated.
    fn create_completion(
        &mut self,
        user_id: &str,
        challenge_name: &str,
        s3_link: Option<String>,
        note: Option<String>,
    ) -> (answer: Result<Completion, StoreError>)
        ensures
            *final(final(self).cache) == *final(old(self).cache),
            match answer {
                Ok(_) => was_cleared_for_coins(*old(self).cache, *final(self).cache, user_id@),
                _ => *final(self).cache == *old(self).cache,
            },
            old(self).inner.is_steady() ==> final(self).inner == old(self).inner,
    {
        let answer = self.inner.create_completion(user_id, challenge_name, s3_link, note);
        if answer.is_ok() {
            self.cache.invalidate_user_and_leaderboard(user_id);
        }
        answer
    }

    /// The rule of `completion_exists`: what a cached completion map of the
    /// user says, else an answer of the wrapped service.
    open spec fn may_completion_exists(
        &self,
        user_id: Seq<char>,
        challenge_name: Seq<char>,
        answer: Result<bool, StoreError>,
    ) -> bool {
        hit_or_fetched(
            known_to_exist(self.cache.cached_user_completions(user_id), challenge_name),
            answer,
            self.inner.may_completion_exists(user_id, challenge_name, answer),
        )
    }

    /// Whether a user completed a challenge. Where the user's completion map
    /// is cached, it answers; else the wrapped service is asked, and the map
    /// is not fetched for the sake of one answer.
    fn completion_exists(
        &mut self,
        user_id: &str,
        challenge_name: &str,
    ) -> (answer: Result<bool, StoreError>)
        ensures
            *final(final(self).cache) == *final(old(self).cache),
            only_lost(*old(self).cache, *final(self).cache, PartitionId::UserCompletions),
            old(self).cache.cached_user_completions(user_id@) is Some
                || old(self).inner.is_steady() ==> final(self).inner == old(self).inner,
    {
        if let Some(completions) = self.cache.get_user_completions(user_id) {
            return Ok(completions.contains_key(challenge_name));
        }
        self.inner.completion_exists(user_id, challenge_name)
    }

    /// The rule of `get_user_completions_by_category`: the cached answer on a
    /// hit, else an answer
    /// of the wrapped service.
    open spec fn may_get_user_completions_by_category(
        &self,
        user_id: Seq<char>,
        answer: Result<TextMap<i32>, StoreError>,
    ) -> bool {
        hit_or_fetched(
            self.cache.cached_user_completions_by_category(user_id),
            seen(answer),
            self.inner.may_get_user_completions_by_category(user_id, answer),
        )
    }

    /// The number of a user's completions in each category.
    fn get_user_completions_by_category(
        &mut self,
        user_id: &str,
    ) -> (answer: Result<TextMap<i32>, StoreError>)
        ensures
            *final(final(self).cache) == *final(old(self).cache),
            read_effect(
                *old(self).cache,
                *final(self).cache,
                PartitionId::UserCompletionsByCategory,
                key_for(PartitionId::UserCompletionsByCategory, user_id@),
                old(self).cache.cached_user_completions_by_category(user_id@) is Some,
                match answer {
                    Ok(value) => Some(CachedData::Counts(value@)),
                    Err(_) => None,
                },
            ),
            old(self).cache.cached_user_completions_by_category(user_id@) is Some
                || old(self).inner.is_steady() ==> final(self).inner == old(self).inner,
    {
        let ghost before = *self.cache;
        if let Some(cached) = self.cache.get_user_completions_by_category(user_id) {
            return Ok(cached);
        }
        let ghost between = *self.cache;
        match self.inner.get_user_completions_by_category(user_id) {
            Ok(value) => {
                self.cache.set_user_completions_by_category(user_id, value.clone());
                proof {
                    lemma_write_after_read(
                        before,
                        between,
                        *self.cache,
                        PartitionId::UserCompletionsByCategory,
                        key_for(PartitionId::UserCompletionsByCategory, user_id@),
                        CachedData::Counts(value@),
                    );
                }
                Ok(value)
            },
            Err(error) => Err(error),
        }
    }

    /// The rule of `get_user_completion_count`: the cached answer on a hit,
    /// else an answer
    /// of the wrapped service.
    open spec fn may_get_user_completion_count(
        &self,
        user_id: Seq<char>,
        answer: Result<i32, StoreError>,
    ) -> bool {
        hit_or_fetched(
            self.cache.cached_user_completion_count(user_id),
            answer,
            self.inner.may_get_user_completion_count(user_id, answer),
        )
    }

    /// The number of a user's completions.
    fn get_user_completion_count(&mut self, user_id: &str) -> (answer: Result<i32, StoreError>)
        ensures
            *final(final(self).cache) == *final(old(self).cache),
            read_effect(
                *old(self).cache,
                *final(self).cache,
                PartitionId::UserCompletionCounts,
                key_for(PartitionId::UserCompletionCounts, user_id@),
                old(self).cache.cached_user_completion_count(user_id@) is Some,
                match answer {
                    Ok(value) => Some(CachedData::Count(value)),
                    Err(_) => None,
                },
            ),
            old(self).cache.cached_user_completion_count(user_id@) is Some
                || old(self).inner.is_steady() ==> final(self).inner == old(self).inner,
    {
        let ghost before = *self.cache;
        if let Some(cached) = self.cache.get_user_completion_count(user_id) {
            return Ok(cached);
        }
        let ghost between = *self.cache;
        match self.inner.get_user_completion_count(user_id) {
            Ok(value) => {
                self.cache.set_user_completion_count(user_id, value);
                proof {
                    lemma_write_after_read(
                        before,
                        between,
                        *self.cache,
                        PartitionId::UserCompletionCounts,
                        key_for(PartitionId::UserCompletionCounts, user_id@),
                        CachedData::Count(value),
                    );
                }
                Ok(value)
            },
            Err(error) => Err(error),
        }
    }

    /// The rule of `get_user_recent_activity_days`: the cached answer on a
    /// hit, else an answer
    /// of the wrapped service.
    open spec fn may_get_user_recent_activity_days(
        &self,
        user_id: Seq<char>,
        num_days_back: i64,
        answer: Result<Vec<Timestamp>, StoreError>,
    ) -> bool {
        hit_or_fetched(
            self.cache.cached_user_recent_activity(user_id, num_days_back),
            seen(answer),
            self.inner.may_get_user_recent_activity_days(user_id, num_days_back, answer),
        )
    }

    /// The days within the window on which a user completed a challenge.
    fn get_user_recent_activity_days(
        &mut self,
        user_id: &str,
        num_days_back: i64,
    ) -> (answer: Result<Vec<Timestamp>, StoreError>)
        ensures
            *final(final(self).cache) == *final(old(self).cache),
            read_effect(
                *old(self).cache,
                *final(self).cache,
                PartitionId::UserRecentActivity,
                key_for(PartitionId::UserRecentActivity, activity_subject(user_id@, num_days_back)),
                old(self).cache.cached_user_recent_activity(user_id@, num_days_back) is Some,
                match answer {
                    Ok(value) => Some(CachedData::Activity(value@)),
                    Err(_) => None,
                },
            ),
            old(self).cache.cached_user_recent_activity(user_id@, num_days_back) is Some
                || old(self).inner.is_steady() ==> final(self).inner == old(self).inner,
    {
        let ghost before = *self.cache;
        if let Some(cached) = self.cache.get_user_recent_activity(user_id, num_days_back) {
            return Ok(cached);
        }
        let ghost between = *self.cache;
        match self.inner.get_user_recent_activity_days(user_id, num_days_back) {
            Ok(value) => {
                self.cache.set_user_recent_activity(user_id, num_days_back, value.clone());
                proof {
                    lemma_write_after_read(
                        before,
                        between,
                        *self.cache,
                        PartitionId::UserRecentActivity,
                        key_for(
                            PartitionId::UserRecentActivity,
                            activity_subject(user_id@, num_days_back),
                        ),
                        CachedData::Activity(value@),
                    );
                }
                Ok(value)
            },
            Err(error) => Err(error),
        }
    }

    /// The rule of `get_user_total_coins_earned`: the cached answer on a hit,
    /// else an answer
    /// of the wrapped service.
    open spec fn may_get_user_total_coins_earned(
        &self,
        user_id: Seq<char>,
        answer: Result<i32, StoreError>,
    ) -> bool {
        hit_or_fetched(
            self.cache.cached_user_coins_earned(user_id),
            answer,
            self.inner.may_get_user_total_coins_earned(user_id, answer),
        )
    }

    /// The coins that a user earned.
    fn get_user_total_coins_earned(&mut self, user_id: &str) -> (answer: Result<i32, StoreError>)
        ensures
            *final(final(self).cache) == *final(old(self).cache),
            read_effect(
                *old(self).cache,
                *final(self).cache,
                PartitionId::UserCoinsEarned,
                key_for(PartitionId::UserCoinsEarned, user_id@),
                old(self).cache.cached_user_coins_earned(user_id@) is Some,
                match answer {
                    Ok(value) => Some(CachedData::Count(value)),
                    Err(_) => None,
                },
            ),
            old(self).cache.cached_user_coins_earned(user_id@) is Some
                || old(self).inner.is_steady() ==> final(self).inner == old(self).inner,
    {
        let ghost before = *self.cache;
        if let Some(cached) = self.cache.get_user_coins_earned(user_id) {
            return Ok(cached);
        }
        let ghost between = *self.cache;
        match self.inner.get_user_total_coins_earned(user_id) {
            Ok(value) => {
                self.cache.set_user_coins_earned(user_id, value);
                proof {
                    lemma_write_after_read(
                        before,
                        between,
                        *self.cache,
                        PartitionId::UserCoinsEarned,
                        key_for(PartitionId::UserCoinsEarned, user_id@),
                        CachedData::Count(value),
                    );
                }
                Ok(value)
            },
            Err(error) => Err(error),
        }
    }

    /// The rule of `get_user_completions_with_challenges`: the cached answer
    /// on a hit, else an answer
    /// of the wrapped service.
    open spec fn may_get_user_completions_with_challenges(
        &self,
        user_id: Seq<char>,
        answer: Result<Vec<JournalRecord>, StoreError>,
    ) -> bool {
        hit_or_fetched(
            self.cache.cached_user_completions_with_challenges(user_id),
            seen(answer),
            self.inner.may_get_user_completions_with_challenges(user_id, answer),
        )
    }

    /// A user's completions with the challenges completed.
    fn get_user_completions_with_challenges(
        &mut self,
        user_id: &str,
    ) -> (answer: Result<Vec<JournalRecord>, StoreError>)
        ensures
            *final(final(self).cache) == *final(old(self).cache),
            read_effect(
                *old(self).cache,
                *final(self).cache,
                PartitionId::UserCompletionsWithChallenges,
                key_for(PartitionId::UserCompletionsWithChallenges, user_id@),
                old(self).cache.cached_user_completions_with_challenges(user_id@) is Some,
                match answer {
                    Ok(value) => Some(CachedData::Journal(value@)),
                    Err(_) => None,
                },
            ),
            old(self).cache.cached_user_completions_with_challenges(user_id@) is Some
                || old(self).inner.is_steady() ==> final(self).inner == old(self).inner,
    {
        let ghost before = *self.cache;
        if let Some(cached) = self.cache.get_user_completions_with_challenges(user_id) {
            return Ok(cached);
        }
        let ghost between = *self.cache;
        match self.inner.get_user_completions_with_challenges(user_id) {
            Ok(value) => {
                self.cache.set_user_completions_with_challenges(user_id, value.clone());
                proof {
                    lemma_write_after_read(
                        before,
                        between,
                        *self.cache,
                        PartitionId::UserCompletionsWithChallenges,
                        key_for(PartitionId::UserCompletionsWithChallenges, user_id@),
                        CachedData::Journal(value@),
                    );
                }
                Ok(value)
            },
            Err(error) => Err(error),
        }
    }

    /// The rule of `get_user_completion_with_challenge`: that there is none,
    /// where a cached completion map of the user lacks the challenge, else an
    /// answer of the wrapped service.
    open spec fn may_get_user_completion_with_challenge(
        &self,
        user_id: Seq<char>,
        challenge_name: Seq<char>,
        answer: Result<Option<JournalRecord>, StoreError>,
    ) -> bool {
        hit_or_fetched(
            known_to_lack(self.cache.cached_user_completions(user_id), challenge_name),
            answer,
            self.inner.may_get_user_completion_with_challenge(user_id, challenge_name, answer),
        )
    }

    /// A user's completion of one challenge with that challenge. Where the
    /// user's completion map is cached and lacks the challenge, the answer is
    /// that there is none; else the wrapped service is asked, for the map
    /// does not hold the challenge itself.
    fn get_user_completion_with_challenge(
        &mut self,
        user_id: &str,
        challenge_name: &str,
    ) -> (answer: Result<Option<JournalRecord>, StoreError>)
        ensures
            *final(final(self).cache) == *final(old(self).cache),
            only_lost(*old(self).cache, *final(self).cache, PartitionId::UserCompletions),
            known_to_lack(old(self).cache.cached_user_completions(user_id@), challenge_name@)
                is Some || old(self).inner.is_steady() ==> final(self).inner == old(self).inner,
    {
        if let Some(completions) = self.cache.get_user_completions(user_id) {
            if !completions.contains_key(challenge_name) {
                return Ok(None);
            }
        }
        self.inner.get_user_completion_with_challenge(user_id, challenge_name)
    }

    /// The rule of `update_completion_note`: an answer of the wrapped service.
    open spec fn may_update_completion_note(
        &self,
        user_id: Seq<char>,
        challenge_name: Seq<char>,
        note: Option<String>,
        answer: Result<Option<Completion>, StoreError>,
    ) -> bool {
        self.inner.may_update_completion_note(user_id, challenge_name, note, answer)
    }

    /// Sets the note of a completion. Where the store changed, the user's
    /// cached data is invalidated.
    fn update_completion_note(
        &mut self,
        user_id: &str,
        challenge_name: &str,
        note: Option<String>,
    ) -> (answer: Result<Option<Completion>, StoreError>)
        ensures
            *final(final(self).cache) == *final(old(self).cache),
            match answer {
                Ok(Some(_)) => was_cleared_for_user(*old(self).cache, *final(self).cache, user_id@),
                _ => *final(self).cache == *old(self).cache,
            },
            old(self).inner.is_steady() ==> final(self).inner == old(self).inner,
    {
        let answer = self.inner.update_completion_note(user_id, challenge_name, note);
        let changed = match &answer {
            Ok(Some(_)) => true,
            _ => false,
        };
        if changed {
            self.cache.invalidate_user_data(user_id);
        }
        answer
    }

    /// The rule of `update_completion_photo`: an answer of the wrapped service.
    open spec fn may_update_completion_photo(
        &self,
        user_id: Seq<char>,
        challenge_name: Seq<char>,
        s3_link: Option<String>,
        answer: Result<Option<Completion>, StoreError>,
    ) -> bool {
        self.inner.may_update_completion_photo(user_id, challenge_name, s3_link, answer)
    }

    /// Sets the photo of a completion. Where the store changed, the user's
    /// cached data is invalidated.
    fn update_completion_photo(
        &mut self,
        user_id: &str,
        challenge_name: &str,
        s3_link: Option<String>,
    ) -> (answer: Result<Option<Completion>, StoreError>)
        ensures
            *final(final(self).cache) == *final(old(self).cache),
            match answer {
                Ok(Some(_)) => was_cleared_for_user(*old(self).cache, *final(self).cache, user_id@),
                _ => *final(self).cache == *old(self).cache,
            },
            old(self).inner.is_steady() ==> final(self).inner == old(self).inner,
    {
        let answer = self.inner.update_completion_photo(user_id, challenge_name, s3_link);
        let changed = match &answer {
            Ok(Some(_)) => true,
            _ => false,
        };
        if changed {
            self.cache.invalidate_user_data(user_id);
        }
        answer
    }
}

/// The reward service behind the cache.
pub struct CachedRewardService<'a, T: RewardServiceTrait> {
    /// The wrapped service.
    pub inner: T,
    /// The cache in front of it, borrowed for as long as the service lives.
    pub cache: &'a mut CacheManager,
}

impl<'a, T: RewardServiceTrait> CachedRewardService<'a, T> {
    /// Puts the cache in front of `inner`.
    pub fn new(inner: T, cache: &'a mut CacheManager) -> (cached: Self)
        ensures
            cached.inner == inner,
            *cached.cache == *old(cache),
            *final(cached.cache) == *final(cache),
    {
        CachedRewardService { inner, cache }
    }
}

impl<'a, T: RewardServiceTrait> RewardServiceTrait for CachedRewardService<'a, T> {
    /// The rule of `get_all_rewards`: the cached answer on a hit, else an
    /// answer
    /// of the wrapped service.
    open spec fn may_get_all_rewards(&self, answer: Result<Vec<Reward>, StoreError>) -> bool {
        hit_or_fetched(
            self.cache.cached_rewards(),
            seen(answer),
            self.inner.may_get_all_rewards(answer),
        )
    }

    /// Every reward.
    fn get_all_rewards(&mut self) -> (answer: Result<Vec<Reward>, StoreError>)
        ensures
            *final(final(self).cache) == *final(old(self).cache),
            read_effect(
                *old(self).cache,
                *final(self).cache,
                PartitionId::Rewards,
                key_for(PartitionId::Rewards, Seq::<char>::empty()),
                old(self).cache.cached_rewards() is Some,
                match answer {
                    Ok(value) => Some(CachedData::Rewards(value@)),
                    Err(_) => None,
                },
            ),
            old(self).cache.cached_rewards() is Some
                || old(self).inner.is_steady() ==> final(self).inner == old(self).inner,
    {
        let ghost before = *self.cache;
        if let Some(cached) = self.cache.get_rewards() {
            return Ok(cached);
        }
        let ghost between = *self.cache;
        match self.inner.get_all_rewards() {
            Ok(value) => {
                self.cache.set_rewards(value.clone());
                proof {
                    lemma_write_after_read(
                        before,
                        between,
                        *self.cache,
                        PartitionId::Rewards,
                        key_for(PartitionId::Rewards, Seq::<char>::empty()),
                        CachedData::Rewards(value@),
                    );
                }
                Ok(value)
            },
            Err(error) => Err(error),
        }
    }

    /// The rule of `get_reward_by_name`: the cached answer on a hit, else an
    /// answer
    /// of the wrapped service.
    open spec fn may_get_reward_by_name(
        &self,
        name: Seq<char>,
        answer: Result<Option<Reward>, StoreError>,
    ) -> bool {
        hit_or_fetched(
            self.cache.cached_reward_by_name(name),
            answer,
            self.inner.may_get_reward_by_name(name, answer),
        )
    }

    /// The reward `name`, where there is one. That there is none is cached
    /// too.
    fn get_reward_by_name(&mut self, name: &str) -> (answer: Result<Option<Reward>, StoreError>)
        ensures
            *final(final(self).cache) == *final(old(self).cache),
            read_effect(
                *old(self).cache,
                *final(self).cache,
                PartitionId::RewardByName,
                key_for(PartitionId::RewardByName, name@),
                old(self).cache.cached_reward_by_name(name@) is Some,
                match answer {
                    Ok(value) => Some(CachedData::Reward(value)),
                    Err(_) => None,
                },
            ),
            old(self).cache.cached_reward_by_name(name@) is Some
                || old(self).inner.is_steady() ==> final(self).inner == old(self).inner,
    {
        let ghost before = *self.cache;
        if let Some(cached) = self.cache.get_reward_by_name(name) {
            return Ok(cached);
        }
        let ghost between = *self.cache;
        match self.inner.get_reward_by_name(name) {
            Ok(value) => {
                self.cache.set_reward_by_name(name, copy_optional_reward(&value));
                proof {
                    lemma_write_after_read(
                        before,
                        between,
                        *self.cache,
                        PartitionId::RewardByName,
                        key_for(PartitionId::RewardByName, name@),
                        CachedData::Reward(value),
                    );
                }
                Ok(value)
            },
            Err(error) => Err(error),
        }
    }

    /// The rule of `upsert_rewards_batch`: an answer of the wrapped service.
    open spec fn may_upsert_rewards_batch(
        &self,
        rewards: Seq<Reward>,
        answer: Result<usize, StoreError>,
    ) -> bool {
        self.inner.may_upsert_rewards_batch(rewards, answer)
    }

    /// Inserts or updates the rewards. Where the store took them, the whole
    /// cache is cleared: what a reward costs enters what users spent and how
    /// they rank.
    fn upsert_rewards_batch(&mut self, rewards: Vec<Reward>) -> (answer: Result<usize, StoreError>)
        ensures
            *final(final(self).cache) == *final(old(self).cache),
            match answer {
                Ok(_) => was_cleared(*old(self).cache, *final(self).cache, Set::full()),
                _ => *final(self).cache == *old(self).cache,
            },
            old(self).inner.is_steady() ==> final(self).inner == old(self).inner,
    {
        let answer = self.inner.upsert_rewards_batch(rewards);
        if answer.is_ok() {
            self.cache.invalidate_all();
        }
        answer
    }

    /// The rule of `decrement_stock`: an answer of the wrapped service.
    open spec fn may_decrement_stock(
        &self,
        reward_name: Seq<char>,
        amount: i32,
        answer: Result<Option<Reward>, StoreError>,
    ) -> bool {
        self.inner.may_decrement_stock(reward_name, amount, answer)
    }

    /// Takes `amount` from the stock of a reward. Where the reward exists,
    /// the reward partitions are cleared.
    fn decrement_stock(
        &mut self,
        reward_name: &str,
        amount: i32,
    ) -> (answer: Result<Option<Reward>, StoreError>)
        ensures
            *final(final(self).cache) == *final(old(self).cache),
            match answer {
                Ok(Some(_)) => was_cleared(*old(self).cache, *final(self).cache, reward_group()),
                _ => *final(self).cache == *old(self).cache,
            },
            old(self).inner.is_steady() ==> final(self).inner == old(self).inner,
    {
        let answer = self.inner.decrement_stock(reward_name, amount);
        let changed = match &answer {
            Ok(Some(_)) => true,
            _ => false,
        };
        if changed {
            self.cache.invalidate_rewards();
        }
        answer
    }

    /// The rule of `increment_stock`: an answer of the wrapped service.
    open spec fn may_increment_stock(
        &self,
        reward_name: Seq<char>,
        amount: i32,
        answer: Result<Option<Reward>, StoreError>,
    ) -> bool {
        self.inner.may_increment_stock(reward_name, amount, answer)
    }

    /// Adds `amount` to the stock of a reward. Where the reward exists, the
    /// reward partitions are cleared.
    fn increment_stock(
        &mut self,
        reward_name: &str,
        amount: i32,
    ) -> (answer: Result<Option<Reward>, StoreError>)
        ensures
            *final(final(self).cache) == *final(old(self).cache),
            match answer {
                Ok(Some(_)) => was_cleared(*old(self).cache, *final(self).cache, reward_group()),
                _ => *final(self).cache == *old(self).cache,
            },
            old(self).inner.is_steady() ==> final(self).inner == old(self).inner,
    {
        let answer = self.inner.increment_stock(reward_name, amount);
        let changed = match &answer {
            Ok(Some(_)) => true,
            _ => false,
        };
        if changed {
            self.cache.invalidate_rewards();
        }
        answer
    }
}

/// The leaderboard service behind the cache.
pub struct CachedLeaderboardService<'a, T: LeaderboardServiceTrait> {
    /// The wrapped service.
    pub inner: T,
    /// The cache in front of it, borrowed for as long as the service lives.
    pub cache: &'a mut CacheManager,
}

impl<'a, T: LeaderboardServiceTrait> CachedLeaderboardService<'a, T> {
    /// Puts the cache in front of `inner`.
    pub fn new(inner: T, cache: &'a mut CacheManager) -> (cached: Self)
        ensures
            cached.inner == inner,
            *cached.cache == *old(cache),
            *final(cached.cache) == *final(cache),
    {
        CachedLeaderboardService { inner, cache }
    }
}

impl<'a, T: LeaderboardServiceTrait> LeaderboardServiceTrait for CachedLeaderboardService<'a, T> {
    /// The rule of `get_leaderboard_page`: the cached answer on a hit, else
    /// an answer
    /// of the wrapped service.
    open spec fn may_get_leaderboard_page(
        &self,
        limit: u64,
        after_rank: Option<i64>,
        answer: Result<Vec<LeaderboardEntry>, StoreError>,
    ) -> bool {
        hit_or_fetched(
            self.cache.cached_leaderboard_page(limit, after_rank),
            seen(answer),
            self.inner.may_get_leaderboard_page(limit, after_rank, answer),
        )
    }

    /// The page of at most `limit` rows whose ranks are above `after_rank`.
    fn get_leaderboard_page(
        &mut self,
        limit: u64,
        after_rank: Option<i64>,
    ) -> (answer: Result<Vec<LeaderboardEntry>, StoreError>)
        ensures
            *final(final(self).cache) == *final(old(self).cache),
            read_effect(
                *old(self).cache,
                *final(self).cache,
                PartitionId::LeaderboardPages,
                key_for(PartitionId::LeaderboardPages, page_subject(limit, after_rank)),
                old(self).cache.cached_leaderboard_page(limit, after_rank) is Some,
                match answer {
                    Ok(value) => Some(CachedData::Page(value@)),
                    Err(_) => None,
                },
            ),
            old(self).cache.cached_leaderboard_page(limit, after_rank) is Some
                || old(self).inner.is_steady() ==> final(self).inner == old(self).inner,
    {
        let ghost before = *self.cache;
        if let Some(cached) = self.cache.get_leaderboard_page(limit, after_rank) {
            return Ok(cached);
        }
        let ghost between = *self.cache;
        match self.inner.get_leaderboard_page(limit, after_rank) {
            Ok(value) => {
                self.cache.set_leaderboard_page(limit, after_rank, value.clone());
                proof {
                    lemma_write_after_read(
                        before,
                        between,
                        *self.cache,
                        PartitionId::LeaderboardPages,
                        key_for(PartitionId::LeaderboardPages, page_subject(limit, after_rank)),
                        CachedData::Page(value@),
                    );
                }
                Ok(value)
            },
            Err(error) => Err(error),
        }
    }

    /// The rule of `get_user_leaderboard_position`: the cached answer on a
    /// hit, else an answer
    /// of the wrapped service.
    open spec fn may_get_user_leaderboard_position(
        &self,
        user_id: Seq<char>,
        answer: Result<i64, StoreError>,
    ) -> bool {
        hit_or_fetched(
            self.cache.cached_user_position(user_id),
            answer,
            self.inner.may_get_user_leaderboard_position(user_id, answer),
        )
    }

    /// The rank of a user. A failure of the wrapped service is not cached.
    fn get_user_leaderboard_position(&mut self, user_id: &str) -> (answer: Result<i64, StoreError>)
        ensures
            *final(final(self).cache) == *final(old(self).cache),
            read_effect(
                *old(self).cache,
                *final(self).cache,
                PartitionId::UserPositions,
                key_for(PartitionId::UserPositions, user_id@),
                old(self).cache.cached_user_position(user_id@) is Some,
                match answer {
                    Ok(value) => Some(CachedData::Position(value)),
                    Err(_) => None,
                },
            ),
            old(self).cache.cached_user_position(user_id@) is Some
                || old(self).inner.is_steady() ==> final(self).inner == old(self).inner,
    {
        let ghost before = *self.cache;
        if let Some(cached) = self.cache.get_user_position(user_id) {
            return Ok(cached);
        }
        let ghost between = *self.cache;
        match self.inner.get_user_leaderboard_position(user_id) {
            Ok(value) => {
                self.cache.set_user_position(user_id, value);
                proof {
                    lemma_write_after_read(
                        before,
                        between,
                        *self.cache,
                        PartitionId::UserPositions,
                        key_for(PartitionId::UserPositions, user_id@),
                        CachedData::Position(value),
                    );
                }
                Ok(value)
            },
            Err(error) => Err(error),
        }
    }
}

/// Reads are idempotent: while the store would give the answer `stored` and
/// the cache knows nothing else, a cached read gives `stored`, on a hit as
/// on a miss.
pub proof fn lemma_same_answer_hit_or_miss<T>(
    cached: Option<T>,
    answer: Result<T, StoreError>,
    stored: Result<T, StoreError>,
)
    requires
        cached matches Some(value) ==> stored == Ok::<T, StoreError>(value),
        hit_or_fetched(cached, answer, answer == stored),
    ensures
        answer == stored,
{
}

/// Reads are idempotent: of two cached reads of the same call, between
/// which the store would give the same answer `stored` and the cache knows
/// nothing else, the second gives what the first gave, whether the first
/// left its answer in the cache or not.
pub proof fn lemma_reads_idempotent<T>(
    cached_first: Option<T>,
    first: Result<T, StoreError>,
    cached_second: Option<T>,
    second: Result<T, StoreError>,
    stored: Result<T, StoreError>,
)
    requires
        cached_first matches Some(value) ==> stored == Ok::<T, StoreError>(value),
        hit_or_fetched(cached_first, first, first == stored),
        cached_second matches Some(value) ==> first == Ok::<T, StoreError>(value),
        hit_or_fetched(cached_second, second, second == stored),
    ensures
        second == first,
{
}

/// The existence check answers alike with and without a cached completion
/// map: while the store would answer `stored` and a cached map is the
/// user's map in the store, both ways give `stored`.
pub proof fn lemma_exists_same_cached_or_not(
    completions: Map<Seq<char>, Timestamp>,
    challenge_name: Seq<char>,
    stored: bool,
    with_map: Result<bool, StoreError>,
    without_map: Result<bool, StoreError>,
)
    requires
        stored == completions.contains_key(challenge_name),
        hit_or_fetched(
            known_to_exist(Some(completions), challenge_name),
            with_map,
            with_map == Ok::<bool, StoreError>(stored),
        ),
        hit_or_fetched(
            known_to_exist(None, challenge_name),
            without_map,
            without_map == Ok::<bool, StoreError>(stored),
        ),
    ensures
        with_map == without_map,
        with_map == Ok::<bool, StoreError>(stored),
{
}

/// Invalidation is complete for a change of a user's coins, which is what
/// a recorded completion, a purchase and a cancelled purchase are:
/// afterwards a lookup of the user's key misses in every partition keyed by
/// user id, and a lookup of any key misses in the recent-activity partition
/// and in both leaderboard partitions.
pub proof fn lemma_miss_after_coins_change(
    before: CacheManager,
    cleared: CacheManager,
    user_id: Seq<char>,
    id: PartitionId,
    key: Seq<char>,
)
    requires
        was_cleared_for_coins(before, cleared, user_id),
        (user_group().contains(id) && key == key_for(id, user_id)) || id
            == PartitionId::UserRecentActivity || id == PartitionId::LeaderboardPages || id
            == PartitionId::UserPositions,
    ensures
        cleared.lookup(id, key) is None,
{
    if id == PartitionId::UserRecentActivity || id == PartitionId::LeaderboardPages || id
        == PartitionId::UserPositions {
        assert(is_afresh(cleared, id));
    } else {
        assert(lost_key(before, cleared, id, key_for(id, user_id)));
    }
}

/// Every cached page is the page of the snapshot `population`.
pub open spec fn pages_agree(cache: CacheManager, population: Seq<UserStats>) -> bool {
    forall|limit: u64, after_rank: Option<i64>|
        (#[trigger] cache.cached_leaderboard_page(limit, after_rank)) matches Some(rows) ==> rows
            == page(population, limit, after_rank)
}

/// Every cached position is the rank of its user in the snapshot
/// `population`.
pub open spec fn positions_agree(cache: CacheManager, population: Seq<UserStats>) -> bool {
    forall|user_id: Seq<char>|
        (#[trigger] cache.cached_user_position(user_id)) matches Some(rank) ==> (place_of_user(
            population,
            user_id,
        ) matches Some(place) && rank == rank_of(population, place))
}

/// An empty cache agrees with every snapshot.
pub proof fn lemma_empty_cache_agrees(cache: CacheManager, population: Seq<UserStats>)
    requires
        cache.is_empty(),
    ensures
        pages_agree(cache, population),
        positions_agree(cache, population),
{
    assert(cache.entries(PartitionId::LeaderboardPages) == Entries::empty());
    assert(cache.entries(PartitionId::UserPositions) == Entries::empty());
}

/// A cache whose leaderboard partitions were cleared agrees with every
/// snapshot.
pub proof fn lemma_cleared_cache_agrees(cache: CacheManager, population: Seq<UserStats>)
    requires
        cache.entries(PartitionId::LeaderboardPages) == Entries::empty(),
        cache.entries(PartitionId::UserPositions) == Entries::empty(),
    ensures
        pages_agree(cache, population),
        positions_agree(cache, population),
{
}

/// Through the cache a page query gives the page of the snapshot, on a hit
/// as on a miss: while every cached page is a page of the snapshot and the
/// wrapped service answers with the page of the snapshot, the cached service
/// does so too, and every cached page is a page of the snapshot afterwards.
pub proof fn lemma_cached_page_is_the_page(
    population: Seq<UserStats>,
    before: CacheManager,
    after: CacheManager,
    limit: u64,
    after_rank: Option<i64>,
    answer: Result<Seq<LeaderboardEntry>, StoreError>,
)
    requires
        pages_agree(before, population),
        hit_or_fetched(
            before.cached_leaderboard_page(limit, after_rank),
            answer,
            answer == Ok::<Seq<LeaderboardEntry>, StoreError>(page(population, limit, after_rank)),
        ),
        read_effect(
            before,
            after,
            PartitionId::LeaderboardPages,
            key_for(PartitionId::LeaderboardPages, page_subject(limit, after_rank)),
            before.cached_leaderboard_page(limit, after_rank) is Some,
            match answer {
                Ok(rows) => Some(CachedData::Page(rows)),
                Err(_) => None,
            },
        ),
    ensures
        answer == Ok::<Seq<LeaderboardEntry>, StoreError>(page(population, limit, after_rank)),
        pages_agree(after, population),
{
    let id = PartitionId::LeaderboardPages;
    let key = key_for(id, page_subject(limit, after_rank));
    assert forall|other_limit: u64, other_cursor: Option<i64>|
        (#[trigger] after.cached_leaderboard_page(other_limit, other_cursor))
            is Some implies after.cached_leaderboard_page(other_limit, other_cursor)->Some_0
        == page(population, other_limit, other_cursor) by {
        let other = key_for(id, page_subject(other_limit, other_cursor));
        let rows = after.cached_leaderboard_page(other_limit, other_cursor)->Some_0;
        assert(after.entries(id).dom().contains(other));
        if before.cached_leaderboard_page(limit, after_rank) is None && answer is Ok && other
            == key {
            lemma_keys_differ(
                id,
                page_subject(other_limit, other_cursor),
                page_subject(limit, after_rank),
            );
            lemma_page_subjects_differ(other_limit, other_cursor, limit, after_rank);
            assert(page_start(population, other_cursor) == page_start(population, after_rank));
        } else if before.cached_leaderboard_page(limit, after_rank) is None && answer is Ok {
            assert(after.entries(id).remove(key).dom().contains(other));
            assert(before.entries(id).dom().contains(other));
            assert(before.cached_leaderboard_page(other_limit, other_cursor) == Some(rows));
        } else {
            assert(before.entries(id).dom().contains(other));
            assert(before.cached_leaderboard_page(other_limit, other_cursor) == Some(rows));
        }
    }
}

/// Through the cache a position query gives the rank of the user in the
/// snapshot, on a hit as on a miss: while every cached position is a rank
/// of the snapshot and the wrapped service answers with the rank of the
/// snapshot, the cached service does so too whenever the snapshot holds the
/// user, and every cached position is a rank of the snapshot afterwards.
pub proof fn lemma_cached_position_is_the_rank(
    population: Seq<UserStats>,
    before: CacheManager,
    after: CacheManager,
    user_id: Seq<char>,
    place: int,
    answer: Result<i64, StoreError>,
)
    requires
        positions_agree(before, population),
        place_of_user(population, user_id) == Some(place),
        hit_or_fetched(
            before.cached_user_position(user_id),
            answer,
            answer matches Ok(rank) && rank == rank_of(population, place),
        ),
        read_effect(
            before,
            after,
            PartitionId::UserPositions,
            key_for(PartitionId::UserPositions, user_id),
            before.cached_user_position(user_id) is Some,
            match answer {
                Ok(rank) => Some(CachedData::Position(rank)),
                Err(_) => None,
            },
        ),
    ensures
        answer matches Ok(rank) && rank == rank_of(population, place),
        positions_agree(after, population),
{
    let id = PartitionId::UserPositions;
    let key = key_for(id, user_id);
    assert forall|other_user: Seq<char>|
        (#[trigger] after.cached_user_position(other_user)) is Some implies (place_of_user(
        population,
        other_user,
    ) matches Some(other_place) && after.cached_user_position(other_user)->Some_0 == rank_of(
        population,
        other_place,
    )) by {
        let other = key_for(id, other_user);
        let rank = after.cached_user_position(other_user)->Some_0;
        assert(after.entries(id).dom().contains(other));
        if before.cached_user_position(user_id) is None && other == key {
            lemma_keys_differ(id, other_user, user_id);
        } else if before.cached_user_position(user_id) is None && answer is Ok {
            assert(after.entries(id).remove(key).dom().contains(other));
            assert(before.entries(id).dom().contains(other));
            assert(before.cached_user_position(other_user) == Some(rank));
        } else {
            assert(before.entries(id).dom().contains(other));
            assert(before.cached_user_position(other_user) == Some(rank));
        }
    }
}

} // verus!
