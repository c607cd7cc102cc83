//! The records that the services read and the cache holds, as plain values.

use vstd::prelude::*;
use vstd::utf8::encode_utf8;
use crate::text::{
    copy_optional_text, lemma_bytes_determine_text, lemma_lex_asymmetric,
    lemma_lex_irreflexive, lemma_lex_total, lemma_lex_transitive, order_text, text_before, Order,
};

verus! {

/// A point in time without a zone: seconds since the epoch, and the
/// nanoseconds within that second.
#[derive(Copy, Debug, PartialEq, Eq, Structural)]
pub struct Timestamp {
    pub seconds: i64,
    pub nanos: u32,
}

impl Clone for Timestamp {
    fn clone(&self) -> (copy: Self)
        ensures
            copy == *self,
    {
        Timestamp { seconds: self.seconds, nanos: self.nanos }
    }
}

impl Timestamp {
    /// `self` is no later than `other`.
    pub open spec fn at_or_before(self, other: Timestamp) -> bool {
        self.seconds < other.seconds || (self.seconds == other.seconds && self.nanos
            <= other.nanos)
    }

    /// Whether `self` is no later than `other`.
    pub fn is_at_or_before(&self, other: &Timestamp) -> (earlier: bool)
        ensures
            earlier == self.at_or_before(*other),
    {
        self.seconds < other.seconds || (self.seconds == other.seconds && self.nanos
            <= other.nanos)
    }
}

/// A decimal number: `mantissa` divided by ten to the power `scale`.
#[derive(Copy, Debug, PartialEq, Eq, Structural)]
pub struct FixedPoint {
    pub mantissa: i128,
    pub scale: u32,
}

impl Clone for FixedPoint {
    fn clone(&self) -> (copy: Self)
        ensures
            copy == *self,
    {
        FixedPoint { mantissa: self.mantissa, scale: self.scale }
    }
}

/// A challenge that users can complete. Coordinates are held as the bit
/// patterns of their double-precision degrees.
#[derive(Debug, PartialEq, Eq)]
pub struct Challenge {
    pub name: String,
    pub category: String,
    pub location: String,
    pub scotty_coins: i32,
    pub maps_link: Option<String>,
    pub tagline: String,
    pub description: String,
    pub more_info_link: Option<String>,
    pub unlock_timestamp: Timestamp,
    pub secret: String,
    pub latitude_bits: Option<u64>,
    pub longitude_bits: Option<u64>,
    pub location_accuracy: Option<FixedPoint>,
}

impl Clone for Challenge {
    fn clone(&self) -> (copy: Self)
        ensures
            copy == *self,
    {
        Challenge {
            name: self.name.clone(),
            category: self.category.clone(),
            location: self.location.clone(),
            scotty_coins: self.scotty_coins,
            maps_link: copy_optional_text(&self.maps_link),
            tagline: self.tagline.clone(),
            description: self.description.clone(),
            more_info_link: copy_optional_text(&self.more_info_link),
            unlock_timestamp: self.unlock_timestamp,
            secret: self.secret.clone(),
            latitude_bits: self.latitude_bits,
            longitude_bits: self.longitude_bits,
            location_accuracy: self.location_accuracy,
        }
    }
}

/// One user's completion of one challenge.
#[derive(Debug, PartialEq, Eq)]
pub struct Completion {
    pub user_id: String,
    pub challenge_name: String,
    pub timestamp: Timestamp,
    pub s3_link: Option<String>,
    pub note: Option<String>,
}

impl Clone for Completion {
    fn clone(&self) -> (copy: Self)
        ensures
            copy == *self,
    {
        Completion {
            user_id: self.user_id.clone(),
            challenge_name: self.challenge_name.clone(),
            timestamp: self.timestamp,
            s3_link: copy_optional_text(&self.s3_link),
            note: copy_optional_text(&self.note),
        }
    }
}

/// A reward that coins buy. A `stock` or `trade_limit` below zero means
/// that it is not tracked.
#[derive(Debug, PartialEq, Eq)]
pub struct Reward {
    pub name: String,
    pub cost: i32,
    pub stock: i32,
    pub trade_limit: i32,
}

impl Clone for Reward {
    fn clone(&self) -> (copy: Self)
        ensures
            copy == *self,
    {
        Reward {
            name: self.name.clone(),
            cost: self.cost,
            stock: self.stock,
            trade_limit: self.trade_limit,
        }
    }
}

/// A user of the system.
#[derive(Debug, PartialEq, Eq)]
pub struct User {
    pub user_id: String,
    pub name: String,
    pub dorm: Option<String>,
}

impl Clone for User {
    fn clone(&self) -> (copy: Self)
        ensures
            copy == *self,
    {
        User {
            user_id: self.user_id.clone(),
            name: self.name.clone(),
            dorm: copy_optional_text(&self.dorm),
        }
    }
}

/// A purchase of a reward. Its id is the text of a UUID.
#[derive(Debug, PartialEq, Eq)]
pub struct Transaction {
    pub id: String,
    pub user_id: String,
    pub reward_name: String,
    pub timestamp: Timestamp,
    pub status: String,
    pub count: i32,
}

impl Clone for Transaction {
    fn clone(&self) -> (copy: Self)
        ensures
            copy == *self,
    {
        Transaction {
            id: self.id.clone(),
            user_id: self.user_id.clone(),
            reward_name: self.reward_name.clone(),
            timestamp: self.timestamp,
            status: self.status.clone(),
            count: self.count,
        }
    }
}

/// A trade of coins for a reward.
#[derive(Debug, PartialEq, Eq)]
pub struct Trade {
    pub user_id: String,
    pub reward_name: String,
    pub timestamp: Timestamp,
    pub count: i32,
}

impl Clone for Trade {
    fn clone(&self) -> (copy: Self)
        ensures
            copy == *self,
    {
        Trade {
            user_id: self.user_id.clone(),
            reward_name: self.reward_name.clone(),
            timestamp: self.timestamp,
            count: self.count,
        }
    }
}

/// A completion together with the challenge that it completes.
#[derive(Debug, PartialEq, Eq)]
pub struct JournalRecord {
    pub completion: Completion,
    pub challenge: Challenge,
}

impl Clone for JournalRecord {
    fn clone(&self) -> (copy: Self)
        ensures
            copy == *self,
    {
        JournalRecord { completion: self.completion.clone(), challenge: self.challenge.clone() }
    }
}

/// Why a call to the backing store failed.
#[derive(Debug, PartialEq, Eq)]
pub enum StoreError {
    /// A record that had to exist was not found.
    RecordNotFound(String),
    /// The service refused the request.
    Custom(String),
    /// The store itself failed: connection, query or data.
    Backend(String),
}

impl Clone for StoreError {
    fn clone(&self) -> (copy: Self)
        ensures
            copy == *self,
    {
        match self {
            StoreError::RecordNotFound(m) => StoreError::RecordNotFound(m.clone()),
            StoreError::Custom(m) => StoreError::Custom(m.clone()),
            StoreError::Backend(m) => StoreError::Backend(m.clone()),
        }
    }
}

/// A finite map from texts to values, which can be copied, compared and
/// walked. The entries are held in the ascending order of their keys, so
/// that two maps with the same content are equal whatever the order in
/// which they were filled.
#[derive(Debug, PartialEq, Eq)]
pub struct TextMap<V> {
    entries: Vec<(String, V)>,
}

/// The keys of `entries` ascend strictly.
pub open spec fn keys_ascend<V>(entries: Seq<(String, V)>) -> bool {
    forall|i: int, j: int|
        0 <= i < j < entries.len() ==> text_before(
            (#[trigger] entries[i]).0@,
            (#[trigger] entries[j]).0@,
        )
}

/// Among ascending keys none occurs twice.
pub proof fn lemma_ascending_keys_differ<V>(entries: Seq<(String, V)>, i: int, j: int)
    requires
        keys_ascend(entries),
        0 <= i < entries.len(),
        0 <= j < entries.len(),
        entries[i].0@ == entries[j].0@,
    ensures
        i == j,
{
    lemma_lex_irreflexive(encode_utf8(entries[i].0@));
    if i < j {
        assert(text_before(entries[i].0@, entries[j].0@));
    } else if j < i {
        assert(text_before(entries[j].0@, entries[i].0@));
    }
}

/// `entries` has an entry under `key`.
pub open spec fn has_key<V>(entries: Seq<(String, V)>, key: Seq<char>) -> bool {
    exists|i: int| 0 <= i < entries.len() && (#[trigger] entries[i]).0@ == key
}

/// Two ascending lists of entries with the same keys hold them at the same
/// places.
pub proof fn lemma_ascending_keys_agree<V>(a: Seq<(String, V)>, b: Seq<(String, V)>)
    requires
        keys_ascend(a),
        keys_ascend(b),
        forall|key: Seq<char>| has_key(a, key) <==> has_key(b, key),
    ensures
        a.len() == b.len(),
        forall|i: int| 0 <= i < a.len() ==> (#[trigger] a[i]).0@ == b[i].0@,
    decreases a.len(),
{
    if a.len() == 0 {
        if b.len() > 0 {
            assert(has_key(b, b[0].0@));
        }
    } else {
        let last_a = a.last().0@;
        assert(a[a.len() - 1].0@ == last_a);
        assert(has_key(a, last_a));
        assert(has_key(b, last_a));
        let last_b = b.last().0@;
        assert(b[b.len() - 1].0@ == last_b);
        assert(has_key(b, last_b));
        assert(has_key(a, last_b));
        let in_b = choose|j: int| 0 <= j < b.len() && (#[trigger] b[j]).0@ == last_a;
        let in_a = choose|i: int| 0 <= i < a.len() && (#[trigger] a[i]).0@ == last_b;
        if last_a != last_b {
            assert(text_before(b[in_b].0@, b[b.len() - 1].0@));
            assert(text_before(a[in_a].0@, a[a.len() - 1].0@));
            lemma_lex_asymmetric(encode_utf8(last_a), encode_utf8(last_b));
        }
        let front_a = a.drop_last();
        let front_b = b.drop_last();
        assert forall|key: Seq<char>| has_key(front_a, key) <==> has_key(front_b, key) by {
            if has_key(front_a, key) {
                let i = choose|i: int| 0 <= i < front_a.len() && (#[trigger] front_a[i]).0@ == key;
                assert(a[i].0@ == key);
                assert(has_key(a, key));
                let j = choose|j: int| 0 <= j < b.len() && (#[trigger] b[j]).0@ == key;
                if j == b.len() - 1 {
                    lemma_ascending_keys_differ(a, i, a.len() - 1);
                }
                assert(front_b[j].0@ == key);
            }
            if has_key(front_b, key) {
                let j = choose|j: int| 0 <= j < front_b.len() && (#[trigger] front_b[j]).0@ == key;
                assert(b[j].0@ == key);
                assert(has_key(b, key));
                let i = choose|i: int| 0 <= i < a.len() && (#[trigger] a[i]).0@ == key;
                if i == a.len() - 1 {
                    lemma_ascending_keys_differ(b, j, b.len() - 1);
                }
                assert(front_a[i].0@ == key);
            }
        }
        assert(keys_ascend(front_a)) by {
            assert forall|i: int, j: int| 0 <= i < j < front_a.len() implies text_before(
                (#[trigger] front_a[i]).0@,
                (#[trigger] front_a[j]).0@,
            ) by {
                assert(text_before(a[i].0@, a[j].0@));
            }
        }
        assert(keys_ascend(front_b)) by {
            assert forall|i: int, j: int| 0 <= i < j < front_b.len() implies text_before(
                (#[trigger] front_b[i]).0@,
                (#[trigger] front_b[j]).0@,
            ) by {
                assert(text_before(b[i].0@, b[j].0@));
            }
        }
        lemma_ascending_keys_agree(front_a, front_b);
        assert forall|i: int| 0 <= i < a.len() implies (#[trigger] a[i]).0@ == b[i].0@ by {
            if i < a.len() - 1 {
                assert(front_a[i].0@ == front_b[i].0@);
            }
        }
    }
}

impl<V> TextMap<V> {
    /// The keys ascend strictly, so that none occurs twice.
    #[verifier::type_invariant]
    pub closed spec fn wf(self) -> bool {
        keys_ascend(self.entries@)
    }

    /// The place of `key` among the entries.
    pub closed spec fn place(self, key: Seq<char>) -> int {
        choose|i: int| 0 <= i < self.entries@.len() && self.entries@[i].0@ == key
    }

    /// The keys, in ascending order.
    pub closed spec fn keys(self) -> Seq<Seq<char>> {
        Seq::new(self.entries@.len(), |i: int| self.entries@[i].0@)
    }
}

impl<V> View for TextMap<V> {
    type V = Map<Seq<char>, V>;

    closed spec fn view(&self) -> Map<Seq<char>, V> {
        Map::new(
            |key: Seq<char>|
                exists|i: int| 0 <= i < self.entries@.len() && self.entries@[i].0@ == key,
            |key: Seq<char>| self.entries@[self.place(key)].1,
        )
    }
}

impl<V: Copy> TextMap<V> {
    /// The empty map.
    pub fn new() -> (map: Self)
        ensures
            map@.dom() == Set::<Seq<char>>::empty(),
            map.keys().len() == 0,
    {
        let map = TextMap { entries: Vec::new() };
        assert(map@ =~= Map::<Seq<char>, V>::empty());
        map
    }

    /// The number of keys.
    pub fn len(&self) -> (n: usize)
        ensures
            n == self.keys().len(),
    {
        self.entries.len()
    }

    /// The key at a place, in ascending order.
    pub fn key_at(&self, place: usize) -> (key: &String)
        requires
            place < self.keys().len(),
        ensures
            key@ == self.keys()[place as int],
            self@.contains_key(key@),
    {
        &self.entries[place].0
    }

    /// The value at a place, in the ascending order of the keys.
    pub fn value_at(&self, place: usize) -> (value: V)
        requires
            place < self.keys().len(),
        ensures
            self@.contains_key(self.keys()[place as int]),
            value == self@[self.keys()[place as int]],
    {
        proof {
            use_type_invariant(self);
            let key = self.entries@[place as int].0@;
            lemma_ascending_keys_differ(self.entries@, self.place(key), place as int);
        }
        self.entries[place].1
    }

    /// The place of `key`, or else the place where it belongs: that of the
    /// first key that comes after it, or the end.
    fn find(&self, key: &str) -> (found: Result<usize, usize>)
        ensures
            match found {
                Ok(i) => i < self.entries@.len() && self.entries@[i as int].0@ == key@,
                Err(i) => {
                    &&& i <= self.entries@.len()
                    &&& forall|j: int| 0 <= j < i ==> text_before(self.entries@[j].0@, key@)
                    &&& forall|j: int|
                        i <= j < self.entries@.len() ==> text_before(key@, self.entries@[j].0@)
                },
            },
    {
        proof {
            use_type_invariant(self);
        }
        let mut i: usize = 0;
        while i < self.entries.len()
            invariant
                i <= self.entries@.len(),
                keys_ascend(self.entries@),
                forall|j: int| 0 <= j < i ==> text_before(self.entries@[j].0@, key@),
            decreases self.entries@.len() - i,
        {
            match order_text(self.entries[i].0.as_str(), key) {
                Order::Same => {
                    return Ok(i);
                },
                Order::Before => {
                    i = i + 1;
                },
                Order::After => {
                    proof {
                        let here = self.entries@[i as int].0@;
                        if encode_utf8(here) == encode_utf8(key@) {
                            lemma_bytes_determine_text(here, key@);
                        }
                        lemma_lex_total(encode_utf8(here), encode_utf8(key@));
                        assert forall|j: int| i <= j < self.entries@.len() implies text_before(
                            key@,
                            self.entries@[j].0@,
                        ) by {
                            if j > i {
                                assert(text_before(here, self.entries@[j].0@));
                                lemma_lex_transitive(
                                    encode_utf8(key@),
                                    encode_utf8(here),
                                    encode_utf8(self.entries@[j].0@),
                                );
                            }
                        }
                    }
                    return Err(i);
                },
            }
        }
        Err(i)
    }

    /// Whether the map has a value under `key`.
    pub fn contains_key(&self, key: &str) -> (present: bool)
        ensures
            present == self@.contains_key(key@),
    {
        let found = self.find(key);
        proof {
            if let Err(i) = found {
                lemma_lex_irreflexive(encode_utf8(key@));
            }
        }
        found.is_ok()
    }

    /// The value under `key`, where there is one.
    pub fn get(&self, key: &str) -> (value: Option<V>)
        ensures
            value == (if self@.contains_key(key@) {
                Some(self@[key@])
            } else {
                None
            }),
    {
        match self.find(key) {
            Ok(i) => {
                proof {
                    use_type_invariant(self);
                    lemma_ascending_keys_differ(self.entries@, self.place(key@), i as int);
                }
                Some(self.entries[i].1)
            },
            Err(_) => {
                proof {
                    lemma_lex_irreflexive(encode_utf8(key@));
                }
                None
            },
        }
    }

    /// Puts `value` under `key`, in place of an earlier value.
    pub fn insert(&mut self, key: String, value: V)
        ensures
            final(self)@ == old(self)@.insert(key@, value),
    {
        proof {
            use_type_invariant(&*self);
            lemma_lex_irreflexive(encode_utf8(key@));
        }
        let found = self.find(key.as_str());
        let ghost before = *self;
        let ghost name = key@;
        let mut taken = TextMap { entries: Vec::new() };
        core::mem::swap(self, &mut taken);
        let mut entries = taken.entries;
        assert(entries == before.entries);
        match found {
            Ok(i) => {
                let ghost kept = entries@[i as int].0;
                entries.set(i, (key, value));
                assert(entries@[i as int].0@ == kept@);
                assert forall|a: int| 0 <= a < entries@.len() implies (#[trigger] entries@[a]).0@
                    == before.entries@[a].0@ by {}
                assert(keys_ascend(entries@)) by {
                    assert forall|a: int, b: int| 0 <= a < b < entries@.len() implies text_before(
                        (#[trigger] entries@[a]).0@,
                        (#[trigger] entries@[b]).0@,
                    ) by {
                        assert(text_before(before.entries@[a].0@, before.entries@[b].0@));
                    }
                }
                *self = TextMap { entries };
                assert forall|k: Seq<char>| #[trigger] self@.contains_key(k) implies before@.insert(
                    name,
                    value,
                ).contains_key(k) && before@.insert(name, value)[k] == self@[k] by {
                    let p = self.place(k);
                    if k != name {
                        assert(before.entries@[p].0@ == k);
                        lemma_ascending_keys_differ(before.entries@, before.place(k), p);
                    } else {
                        lemma_ascending_keys_differ(self.entries@, p, i as int);
                    }
                }
                assert forall|k: Seq<char>| #[trigger]
                    before@.insert(name, value).contains_key(k) implies self@.contains_key(k) by {
                    if k != name {
                        let p = before.place(k);
                        assert(self.entries@[p].0@ == k);
                    } else {
                        assert(self.entries@[i as int].0@ == k);
                    }
                }
            },
            Err(i) => {
                entries.insert(i, (key, value));
                let ghost slot = i as int;
                assert forall|a: int| 0 <= a < entries@.len() implies (#[trigger] entries@[a])
                    == (if a < slot {
                    before.entries@[a]
                } else if a == slot {
                    entries@[slot]
                } else {
                    before.entries@[a - 1]
                }) by {}
                assert(entries@[slot].0@ == name);
                assert(keys_ascend(entries@)) by {
                    assert forall|a: int, b: int| 0 <= a < b < entries@.len() implies text_before(
                        (#[trigger] entries@[a]).0@,
                        (#[trigger] entries@[b]).0@,
                    ) by {
                        let from = if a < slot {
                            a
                        } else {
                            a - 1
                        };
                        let to = if b < slot {
                            b
                        } else {
                            b - 1
                        };
                        if a != slot && b != slot {
                            assert(text_before(before.entries@[from].0@, before.entries@[to].0@));
                        } else if a == slot {
                            assert(text_before(name, before.entries@[to].0@));
                        } else {
                            assert(text_before(before.entries@[from].0@, name));
                        }
                    }
                }
                *self = TextMap { entries };
                assert forall|k: Seq<char>| #[trigger] self@.contains_key(k) implies before@.insert(
                    name,
                    value,
                ).contains_key(k) && before@.insert(name, value)[k] == self@[k] by {
                    let p = self.place(k);
                    if k != name {
                        let q = if p < slot {
                            p
                        } else {
                            p - 1
                        };
                        assert(before.entries@[q].0@ == k);
                        lemma_ascending_keys_differ(before.entries@, before.place(k), q);
                    } else {
                        lemma_ascending_keys_differ(self.entries@, p, slot);
                    }
                }
                assert forall|k: Seq<char>| #[trigger]
                    before@.insert(name, value).contains_key(k) implies self@.contains_key(k) by {
                    if k != name {
                        let p = before.place(k);
                        let q = if p < slot {
                            p
                        } else {
                            p + 1
                        };
                        assert(self.entries@[q].0@ == k);
                    } else {
                        assert(self.entries@[slot].0@ == k);
                    }
                }
            },
        }
        assert(self@ =~= before@.insert(name, value));
    }
}

impl<V> TextMap<V> {
    /// Equality goes by content: two maps that hold the same values under
    /// the same keys hold their keys at the same places.
    pub proof fn lemma_same_content_same_keys(self, other: Self)
        requires
            self.wf(),
            other.wf(),
            self@ == other@,
        ensures
            self.keys() == other.keys(),
    {
        assert forall|key: Seq<char>| has_key(self.entries@, key) <==> has_key(
            other.entries@,
            key,
        ) by {
            assert(self@.contains_key(key) == other@.contains_key(key));
            if has_key(self.entries@, key) {
                let i = choose|i: int|
                    0 <= i < self.entries@.len() && (#[trigger] self.entries@[i]).0@ == key;
                assert(self@.contains_key(key));
                let j = choose|j: int| 0 <= j < other.entries@.len() && other.entries@[j].0@ == key;
                assert(other.entries@[j].0@ == key);
            }
            if has_key(other.entries@, key) {
                let j = choose|j: int|
                    0 <= j < other.entries@.len() && (#[trigger] other.entries@[j]).0@ == key;
                assert(other@.contains_key(key));
                let i = choose|i: int| 0 <= i < self.entries@.len() && self.entries@[i].0@ == key;
                assert(self.entries@[i].0@ == key);
            }
        }
        lemma_ascending_keys_agree(self.entries@, other.entries@);
        assert(self.keys() =~= other.keys());
    }
}

impl<V: Copy> Clone for TextMap<V> {
    fn clone(&self) -> (copy: Self)
        ensures
            copy@ == self@,
            copy.keys() == self.keys(),
    {
        proof {
            use_type_invariant(self);
        }
        let mut entries: Vec<(String, V)> = Vec::new();
        let mut i: usize = 0;
        while i < self.entries.len()
            invariant
                i <= self.entries@.len(),
                entries@.len() == i,
                forall|j: int| 0 <= j < i ==> entries@[j] == self.entries@[j],
            decreases self.entries@.len() - i,
        {
            entries.push((self.entries[i].0.clone(), self.entries[i].1));
            i = i + 1;
        }
        assert(entries@ =~= self.entries@);
        let copy = TextMap { entries };
        assert(copy.keys() =~= self.keys());
        assert(copy@ =~= self@);
        copy
    }
}

} // verus!
