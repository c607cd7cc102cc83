//! One cache partition: an independently keyed, capacity-bounded store of
//! cached values, kept in a `moka` cache.

use vstd::prelude::*;
use crate::entities::{Challenge, JournalRecord, Reward, TextMap, Timestamp};
use crate::services::leaderboard::LeaderboardEntry;

verus! {

/// A value that a partition can hold: the result of one cached call.
#[derive(Debug, PartialEq, Eq)]
pub enum CacheValue {
    Challenges(Vec<Challenge>),
    Challenge(Option<Challenge>),
    Counts(TextMap<i32>),
    Count(i32),
    Completions(TextMap<Timestamp>),
    Journal(Vec<JournalRecord>),
    Activity(Vec<Timestamp>),
    Rewards(Vec<Reward>),
    Reward(Option<Reward>),
    Page(Vec<LeaderboardEntry>),
    Position(i64),
}

/// What a cached value says, apart from how it is stored.
pub enum CachedData {
    Challenges(Seq<Challenge>),
    Challenge(Option<Challenge>),
    Counts(Map<Seq<char>, i32>),
    Count(i32),
    Completions(Map<Seq<char>, Timestamp>),
    Journal(Seq<JournalRecord>),
    Activity(Seq<Timestamp>),
    Rewards(Seq<Reward>),
    Reward(Option<Reward>),
    Page(Seq<LeaderboardEntry>),
    Position(i64),
}

impl View for CacheValue {
    type V = CachedData;

    open spec fn view(&self) -> CachedData {
        match *self {
            CacheValue::Challenges(v) => CachedData::Challenges(v@),
            CacheValue::Challenge(v) => CachedData::Challenge(v),
            CacheValue::Counts(v) => CachedData::Counts(v@),
            CacheValue::Count(v) => CachedData::Count(v),
            CacheValue::Completions(v) => CachedData::Completions(v@),
            CacheValue::Journal(v) => CachedData::Journal(v@),
            CacheValue::Activity(v) => CachedData::Activity(v@),
            CacheValue::Rewards(v) => CachedData::Rewards(v@),
            CacheValue::Reward(v) => CachedData::Reward(v),
            CacheValue::Page(v) => CachedData::Page(v@),
            CacheValue::Position(v) => CachedData::Position(v),
        }
    }
}

/// A copy of an optional challenge.
pub fn copy_optional_challenge(challenge: &Option<Challenge>) -> (copy: Option<Challenge>)
    ensures
        copy == *challenge,
{
    match challenge {
        Some(c) => Some(c.clone()),
        None => None,
    }
}

/// A copy of an optional reward.
pub fn copy_optional_reward(reward: &Option<Reward>) -> (copy: Option<Reward>)
    ensures
        copy == *reward,
{
    match reward {
        Some(r) => Some(r.clone()),
        None => None,
    }
}

impl Clone for CacheValue {
    fn clone(&self) -> (copy: Self)
        ensures
            copy@ == self@,
    {
        match self {
            CacheValue::Challenges(v) => {
                let c = v.clone();
                assert(c@ =~= v@);
                CacheValue::Challenges(c)
            },
            CacheValue::Challenge(v) => CacheValue::Challenge(copy_optional_challenge(v)),
            CacheValue::Counts(v) => CacheValue::Counts(v.clone()),
            CacheValue::Count(v) => CacheValue::Count(*v),
            CacheValue::Completions(v) => CacheValue::Completions(v.clone()),
            CacheValue::Journal(v) => {
                let c = v.clone();
                assert(c@ =~= v@);
                CacheValue::Journal(c)
            },
            CacheValue::Activity(v) => {
                let c = v.clone();
                assert(c@ =~= v@);
                CacheValue::Activity(c)
            },
            CacheValue::Rewards(v) => {
                let c = v.clone();
                assert(c@ =~= v@);
                CacheValue::Rewards(c)
            },
            CacheValue::Reward(v) => CacheValue::Reward(copy_optional_reward(v)),
            CacheValue::Page(v) => {
                let c = v.clone();
                assert(c@ =~= v@);
                CacheValue::Page(c)
            },
            CacheValue::Position(v) => CacheValue::Position(*v),
        }
    }
}

/// What a partition holds: under each key what the cached value says.
pub type Entries = Map<Seq<char>, CachedData>;

#[verifier::external_type_specification]
#[verifier::external_body]
#[verifier::reject_recursive_types(K)]
#[verifier::reject_recursive_types(V)]
#[verifier::reject_recursive_types(S)]
pub struct ExCache<K, V, S>(moka::sync::Cache<K, V, S>);

/// The entries that lookups in the cache find: under each key that a lookup
/// would hit, what the value that it would return says.
pub uninterp spec fn cache_entries(cache: moka::sync::Cache<String, CacheValue>) -> Entries;

/// The entry limit that the cache was made with.
pub uninterp spec fn cache_limit(cache: moka::sync::Cache<String, CacheValue>) -> u64;

/// The number of insertions that the cache has taken since it was made.
pub uninterp spec fn cache_stores(cache: moka::sync::Cache<String, CacheValue>) -> nat;

/// `moka::sync::Cache::new`: a cache without entries that will store up to
/// `max_capacity` of them. It is made without expiry, so that nothing but
/// eviction and invalidation removes an entry.
#[verifier::external_body]
fn cache_new(max_capacity: u64) -> (cache: moka::sync::Cache<String, CacheValue>)
    ensures
        cache_entries(cache) == Entries::empty(),
        cache_limit(cache) == max_capacity,
        cache_stores(cache) == 0,
{
    moka::sync::Cache::new(max_capacity)
}

/// `moka::sync::Cache::get`: a clone of the value under `key`, where the
/// cache holds one. The exclusive borrow stands for the housekeeping that a
/// read may trigger: it may evict entries, and never adds or changes one.
/// Housekeeping evicts only while more entries are admitted than the limit
/// allows, so a cache that has taken no more insertions than its limit
/// keeps all of them.
#[verifier::external_body]
fn cache_get(
    cache: &mut moka::sync::Cache<String, CacheValue>,
    key: &str,
) -> (found: Option<CacheValue>)
    ensures
        match found {
            Some(value) => cache_entries(*old(cache)).contains_key(key@) && cache_entries(
                *old(cache),
            )[key@] == value@,
            None => !cache_entries(*old(cache)).contains_key(key@),
        },
        cache_entries(*final(cache)).submap_of(cache_entries(*old(cache))),
        cache_stores(*old(cache)) <= cache_limit(*old(cache)) ==> cache_entries(*final(cache))
            == cache_entries(*old(cache)),
        cache_limit(*final(cache)) == cache_limit(*old(cache)),
        cache_stores(*final(cache)) == cache_stores(*old(cache)),
{
    cache.get(key)
}

/// `moka::sync::Cache::insert`: puts `value` under `key`, in place of an
/// earlier value. A cache made with the limit 0 stores nothing. Otherwise
/// the entry is in the cache when the call returns: admission and eviction
/// are settled by later housekeeping, which this call may run for earlier
/// writes, so that other entries may be gone afterwards. An entry is
/// admitted whenever the admitted ones and it stay within the limit, and
/// entries are evicted only above the limit: while the insertions, this one
/// included, are no more than the limit, nothing else changes.
#[verifier::external_body]
fn cache_insert(cache: &mut moka::sync::Cache<String, CacheValue>, key: String, value: CacheValue)
    ensures
        cache_limit(*final(cache)) == cache_limit(*old(cache)),
        cache_stores(*final(cache)) == cache_stores(*old(cache)) + 1,
        cache_limit(*old(cache)) > 0 ==> cache_entries(*final(cache)).contains_key(key@)
            && cache_entries(*final(cache))[key@] == value@,
        cache_limit(*old(cache)) == 0 ==> cache_entries(*final(cache)) == Entries::empty(),
        cache_entries(*final(cache)).remove(key@).submap_of(cache_entries(*old(cache))),
        cache_stores(*old(cache)) < cache_limit(*old(cache)) ==> cache_entries(*final(cache))
            == cache_entries(*old(cache)).insert(key@, value@),
{
    cache.insert(key, value)
}

/// `moka::sync::Cache::invalidate`: discards the value under `key`. The
/// housekeeping that the call may run can evict other entries, which it
/// does only in a cache that has taken more insertions than its limit.
#[verifier::external_body]
fn cache_invalidate(cache: &mut moka::sync::Cache<String, CacheValue>, key: &str)
    ensures
        !cache_entries(*final(cache)).contains_key(key@),
        cache_entries(*final(cache)).submap_of(cache_entries(*old(cache))),
        cache_stores(*old(cache)) <= cache_limit(*old(cache)) ==> cache_entries(*final(cache))
            == cache_entries(*old(cache)).remove(key@),
        cache_limit(*final(cache)) == cache_limit(*old(cache)),
        cache_stores(*final(cache)) == cache_stores(*old(cache)),
{
    cache.invalidate(key)
}

/// One cache partition. Its entries are what lookups find. While it has
/// taken no more values than its capacity, it holds exactly what was stored
/// and not discarded; beyond that, eviction may remove any entry at any
/// operation. Every operation borrows the partition exclusively, also a
/// lookup: what is said of the entries holds for a partition on which one
/// caller at a time works.
pub struct Partition {
    cache: moka::sync::Cache<String, CacheValue>,
    limit: u64,
}

impl Partition {
    /// What the partition holds.
    pub closed spec fn entries(&self) -> Entries {
        cache_entries(self.cache)
    }

    /// The bound on the number of resident entries.
    pub closed spec fn capacity(&self) -> u64 {
        cache_limit(self.cache)
    }

    /// The number of values stored since the partition was made or last
    /// cleared.
    pub closed spec fn stored(&self) -> nat {
        cache_stores(self.cache)
    }

    /// The partition remembers the capacity that it was made with.
    pub closed spec fn sound(&self) -> bool {
        self.limit == cache_limit(self.cache)
    }

    /// No more values were stored than the capacity allows: nothing was
    /// evicted yet.
    pub open spec fn is_intact(&self) -> bool {
        self.stored() <= self.capacity()
    }

    /// One more value can be stored without any eviction.
    pub open spec fn has_room(&self) -> bool {
        self.stored() < self.capacity()
    }

    /// What a lookup of `key` finds.
    pub open spec fn lookup(&self, key: Seq<char>) -> Option<CachedData> {
        if self.entries().contains_key(key) {
            Some(self.entries()[key])
        } else {
            None
        }
    }

    /// An empty partition that holds up to `capacity` entries.
    pub fn new(capacity: u64) -> (partition: Self)
        ensures
            partition.entries() == Entries::empty(),
            partition.capacity() == capacity,
            partition.stored() == 0,
            partition.sound(),
    {
        Partition { cache: cache_new(capacity), limit: capacity }
    }

    /// The value cached under `key`, or a miss. A miss is no error.
    pub fn get(&mut self, key: &str) -> (found: Option<CacheValue>)
        ensures
            match found {
                Some(value) => old(self).lookup(key@) == Some(value@),
                None => old(self).lookup(key@) is None,
            },
            final(self).entries().submap_of(old(self).entries()),
            old(self).is_intact() ==> final(self).entries() == old(self).entries(),
            final(self).capacity() == old(self).capacity(),
            final(self).stored() == old(self).stored(),
            final(self).sound() == old(self).sound(),
    {
        cache_get(&mut self.cache, key)
    }

    /// Caches `value` under `key`, in place of an earlier value.
    pub fn set(&mut self, key: String, value: CacheValue)
        ensures
            final(self).capacity() == old(self).capacity(),
            final(self).stored() == old(self).stored() + 1,
            final(self).sound() == old(self).sound(),
            old(self).capacity() > 0 ==> final(self).lookup(key@) == Some(value@),
            old(self).capacity() == 0 ==> final(self).entries() == Entries::empty(),
            final(self).entries().remove(key@).submap_of(old(self).entries()),
            old(self).has_room() ==> final(self).entries() == old(self).entries().insert(
                key@,
                value@,
            ),
    {
        cache_insert(&mut self.cache, key, value)
    }

    /// Discards the value cached under `key`.
    pub fn invalidate(&mut self, key: &str)
        ensures
            final(self).lookup(key@) is None,
            final(self).entries().submap_of(old(self).entries()),
            old(self).is_intact() ==> final(self).entries() == old(self).entries().remove(key@),
            final(self).capacity() == old(self).capacity(),
            final(self).stored() == old(self).stored(),
            final(self).sound() == old(self).sound(),
    {
        cache_invalidate(&mut self.cache, key)
    }

    /// Discards every cached value: the partition starts afresh, with the
    /// capacity that it was made with.
    pub fn invalidate_all(&mut self)
        ensures
            final(self).entries() == Entries::empty(),
            final(self).stored() == 0,
            final(self).sound(),
            old(self).sound() ==> final(self).capacity() == old(self).capacity(),
    {
        self.cache = cache_new(self.limit);
    }
}

} // verus!
