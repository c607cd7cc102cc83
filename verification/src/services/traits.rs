//! The capabilities that the backing store offers. A service over the
//! store implements them, and so does each cached service that wraps one:
//! a caller need not know whether a cache stands in front.
//!
//! Each method comes with a predicate that says which answers the service
//! may give. Unless a service says otherwise it may give any answer: so it
//! is with a service whose answers depend on a store that others change. A
//! service that computes its answers says which they are.

use vstd::prelude::*;
use crate::entities::{
    Challenge, Completion, JournalRecord, Reward, StoreError, TextMap, Timestamp,
};
use crate::services::leaderboard::LeaderboardEntry;

verus! {

/// What the store knows of challenges.
pub trait ChallengeServiceTrait: Sized {
    /// Whether the service is the same after every call. Unless a service
    /// says so, it is not known to be.
    open spec fn is_steady(&self) -> bool {
        false
    }

    /// Whether the service may give `answer` to `get_all_challenges`.
    open spec fn may_get_all_challenges(&self, answer: Result<Vec<Challenge>, StoreError>) -> bool {
        true
    }

    /// Every challenge.
    fn get_all_challenges(&mut self) -> (answer: Result<Vec<Challenge>, StoreError>)
        ensures
            old(self).may_get_all_challenges(answer),
            old(self).is_steady() ==> *final(self) == *old(self),
    ;

    /// Whether the service may give `answer` to `get_challenge_by_name`.
    open spec fn may_get_challenge_by_name(
        &self,
        name: Seq<char>,
        answer: Result<Option<Challenge>, StoreError>,
    ) -> bool {
        true
    }

    /// The challenge `name`, where there is one.
    fn get_challenge_by_name(
        &mut self,
        name: &str,
    ) -> (answer: Result<Option<Challenge>, StoreError>)
        ensures
            old(self).may_get_challenge_by_name(name@, answer),
            old(self).is_steady() ==> *final(self) == *old(self),
    ;

    /// Whether the service may give `answer` to `update_challenge_geolocation`.
    open spec fn may_update_challenge_geolocation(
        &self,
        name: Seq<char>,
        latitude_bits: u64,
        longitude_bits: u64,
        accuracy_bits: u64,
        answer: Result<Option<Challenge>, StoreError>,
    ) -> bool {
        true
    }

    /// Sets where the challenge `name` is, and gives the challenge as it then
    /// stands, where there is one. The numbers come as the bit patterns of
    /// double-precision values: degrees and degrees, then metres.
    fn update_challenge_geolocation(
        &mut self,
        name: &str,
        latitude_bits: u64,
        longitude_bits: u64,
        accuracy_bits: u64,
    ) -> (answer: Result<Option<Challenge>, StoreError>)
        ensures
            old(self).may_update_challenge_geolocation(
                name@,
                latitude_bits,
                longitude_bits,
                accuracy_bits,
                answer,
            ),
            old(self).is_steady() ==> *final(self) == *old(self),
    ;

    /// Whether the service may give `answer` to
    /// `get_total_challenges_by_category`.
    open spec fn may_get_total_challenges_by_category(
        &self,
        answer: Result<TextMap<i32>, StoreError>,
    ) -> bool {
        true
    }

    /// The number of challenges in each category.
    fn get_total_challenges_by_category(&mut self) -> (answer: Result<TextMap<i32>, StoreError>)
        ensures
            old(self).may_get_total_challenges_by_category(answer),
            old(self).is_steady() ==> *final(self) == *old(self),
    ;

    /// Whether the service may give `answer` to `get_total_challenge_count`.
    open spec fn may_get_total_challenge_count(&self, answer: Result<i32, StoreError>) -> bool {
        true
    }

    /// The number of challenges.
    fn get_total_challenge_count(&mut self) -> (answer: Result<i32, StoreError>)
        ensures
            old(self).may_get_total_challenge_count(answer),
            old(self).is_steady() ==> *final(self) == *old(self),
    ;

    /// Whether the service may give `answer` to `upsert_challenges_batch`.
    open spec fn may_upsert_challenges_batch(
        &self,
        challenges: Seq<Challenge>,
        answer: Result<usize, StoreError>,
    ) -> bool {
        true
    }

    /// Inserts the challenges, or updates those that exist, and gives their
    /// number.
    fn upsert_challenges_batch(
        &mut self,
        challenges: Vec<Challenge>,
    ) -> (answer: Result<usize, StoreError>)
        ensures
            old(self).may_upsert_challenges_batch(challenges@, answer),
            old(self).is_steady() ==> *final(self) == *old(self),
    ;
}

/// What the store knows of completions.
pub trait CompletionServiceTrait: Sized {
    /// Whether the service is the same after every call. Unless a service
    /// says so, it is not known to be.
    open spec fn is_steady(&self) -> bool {
        false
    }

    /// Whether the service may give `answer` to `get_user_completion_map`.
    open spec fn may_get_user_completion_map(
        &self,
        user_id: Seq<char>,
        answer: Result<TextMap<Timestamp>, StoreError>,
    ) -> bool {
        true
    }

    /// A user's completions: challenge name to time of completion.
    fn get_user_completion_map(
        &mut self,
        user_id: &str,
    ) -> (answer: Result<TextMap<Timestamp>, StoreError>)
        ensures
            old(self).may_get_user_completion_map(user_id@, answer),
            old(self).is_steady() ==> *final(self) == *old(self),
    ;

    /// Whether the service may give `answer` to `create_completion`.
    open spec fn may_create_completion(
        &self,
        user_id: Seq<char>,
        challenge_name: Seq<char>,
        s3_link: Option<String>,
        note: Option<String>,
        answer: Result<Completion, StoreError>,
    ) -> bool {
        true
    }

    /// Records that a user completed a challenge.
    fn create_completion(
        &mut self,
        user_id: &str,
        challenge_name: &str,
        s3_link: Option<String>,
        note: Option<String>,
    ) -> (answer: Result<Completion, StoreError>)
        ensures
            old(self).may_create_completion(user_id@, challenge_name@, s3_link, note, answer),
            old(self).is_steady() ==> *final(self) == *old(self),
    ;

    /// Whether the service may give `answer` to `completion_exists`.
    open spec fn may_completion_exists(
        &self,
        user_id: Seq<char>,
        challenge_name: Seq<char>,
        answer: Result<bool, StoreError>,
    ) -> bool {
        true
    }

    /// Whether a user completed a challenge.
    fn completion_exists(
        &mut self,
        user_id: &str,
        challenge_name: &str,
    ) -> (answer: Result<bool, StoreError>)
        ensures
            old(self).may_completion_exists(user_id@, challenge_name@, answer),
            old(self).is_steady() ==> *final(self) == *old(self),
    ;

    /// Whether the service may give `answer` to
    /// `get_user_completions_by_category`.
    open spec fn may_get_user_completions_by_category(
        &self,
        user_id: Seq<char>,
        answer: Result<TextMap<i32>, StoreError>,
    ) -> bool {
        true
    }

    /// The number of a user's completions in each category.
    fn get_user_completions_by_category(
        &mut self,
        user_id: &str,
    ) -> (answer: Result<TextMap<i32>, StoreError>)
        ensures
            old(self).may_get_user_completions_by_category(user_id@, answer),
            old(self).is_steady() ==> *final(self) == *old(self),
    ;

    /// Whether the service may give `answer` to `get_user_completion_count`.
    open spec fn may_get_user_completion_count(
        &self,
        user_id: Seq<char>,
        answer: Result<i32, StoreError>,
    ) -> bool {
        true
    }

    /// The number of a user's completions.
    fn get_user_completion_count(&mut self, user_id: &str) -> (answer: Result<i32, StoreError>)
        ensures
            old(self).may_get_user_completion_count(user_id@, answer),
            old(self).is_steady() ==> *final(self) == *old(self),
    ;

    /// Whether the service may give `answer` to
    /// `get_user_recent_activity_days`.
    open spec fn may_get_user_recent_activity_days(
        &self,
        user_id: Seq<char>,
        num_days_back: i64,
        answer: Result<Vec<Timestamp>, StoreError>,
    ) -> bool {
        true
    }

    /// The days within the window on which a user completed a challenge.
    fn get_user_recent_activity_days(
        &mut self,
        user_id: &str,
        num_days_back: i64,
    ) -> (answer: Result<Vec<Timestamp>, StoreError>)
        ensures
            old(self).may_get_user_recent_activity_days(user_id@, num_days_back, answer),
            old(self).is_steady() ==> *final(self) == *old(self),
    ;

    /// Whether the service may give `answer` to `get_user_total_coins_earned`.
    open spec fn may_get_user_total_coins_earned(
        &self,
        user_id: Seq<char>,
        answer: Result<i32, StoreError>,
    ) -> bool {
        true
    }

    /// The coins that a user earned.
    fn get_user_total_coins_earned(&mut self, user_id: &str) -> (answer: Result<i32, StoreError>)
        ensures
            old(self).may_get_user_total_coins_earned(user_id@, answer),
            old(self).is_steady() ==> *final(self) == *old(self),
    ;

    /// Whether the service may give `answer` to
    /// `get_user_completions_with_challenges`.
    open spec fn may_get_user_completions_with_challenges(
        &self,
        user_id: Seq<char>,
        answer: Result<Vec<JournalRecord>, StoreError>,
    ) -> bool {
        true
    }

    /// A user's completions with the challenges completed.
    fn get_user_completions_with_challenges(
        &mut self,
        user_id: &str,
    ) -> (answer: Result<Vec<JournalRecord>, StoreError>)
        ensures
            old(self).may_get_user_completions_with_challenges(user_id@, answer),
            old(self).is_steady() ==> *final(self) == *old(self),
    ;

    /// Whether the service may give `answer` to
    /// `get_user_completion_with_challenge`.
    open spec fn may_get_user_completion_with_challenge(
        &self,
        user_id: Seq<char>,
        challenge_name: Seq<char>,
        answer: Result<Option<JournalRecord>, StoreError>,
    ) -> bool {
        true
    }

    /// A user's completion of one challenge with that challenge, where there
    /// is one.
    fn get_user_completion_with_challenge(
        &mut self,
        user_id: &str,
        challenge_name: &str,
    ) -> (answer: Result<Option<JournalRecord>, StoreError>)
        ensures
            old(self).may_get_user_completion_with_challenge(user_id@, challenge_name@, answer),
            old(self).is_steady() ==> *final(self) == *old(self),
    ;

    /// Whether the service may give `answer` to `update_completion_note`.
    open spec fn may_update_completion_note(
        &self,
        user_id: Seq<char>,
        challenge_name: Seq<char>,
        note: Option<String>,
        answer: Result<Option<Completion>, StoreError>,
    ) -> bool {
        true
    }

    /// Sets the note of a completion, and gives the completion as it then
    /// stands, where there is one.
    fn update_completion_note(
        &mut self,
        user_id: &str,
        challenge_name: &str,
        note: Option<String>,
    ) -> (answer: Result<Option<Completion>, StoreError>)
        ensures
            old(self).may_update_completion_note(user_id@, challenge_name@, note, answer),
            old(self).is_steady() ==> *final(self) == *old(self),
    ;

    /// Whether the service may give `answer` to `update_completion_photo`.
    open spec fn may_update_completion_photo(
        &self,
        user_id: Seq<char>,
        challenge_name: Seq<char>,
        s3_link: Option<String>,
        answer: Result<Option<Completion>, StoreError>,
    ) -> bool {
        true
    }

    /// Sets the photo of a completion, and gives the completion as it then
    /// stands, where there is one.
    fn update_completion_photo(
        &mut self,
        user_id: &str,
        challenge_name: &str,
        s3_link: Option<String>,
    ) -> (answer: Result<Option<Completion>, StoreError>)
        ensures
            old(self).may_update_completion_photo(user_id@, challenge_name@, s3_link, answer),
            old(self).is_steady() ==> *final(self) == *old(self),
    ;
}

/// What the store knows of rewards.
pub trait RewardServiceTrait: Sized {
    /// Whether the service is the same after every call. Unless a service
    /// says so, it is not known to be.
    open spec fn is_steady(&self) -> bool {
        false
    }

    /// Whether the service may give `answer` to `get_all_rewards`.
    open spec fn may_get_all_rewards(&self, answer: Result<Vec<Reward>, StoreError>) -> bool {
        true
    }

    /// Every reward.
    fn get_all_rewards(&mut self) -> (answer: Result<Vec<Reward>, StoreError>)
        ensures
            old(self).may_get_all_rewards(answer),
            old(self).is_steady() ==> *final(self) == *old(self),
    ;

    /// Whether the service may give `answer` to `get_reward_by_name`.
    open spec fn may_get_reward_by_name(
        &self,
        name: Seq<char>,
        answer: Result<Option<Reward>, StoreError>,
    ) -> bool {
        true
    }

    /// The reward `name`, where there is one.
    fn get_reward_by_name(&mut self, name: &str) -> (answer: Result<Option<Reward>, StoreError>)
        ensures
            old(self).may_get_reward_by_name(name@, answer),
            old(self).is_steady() ==> *final(self) == *old(self),
    ;

    /// Whether the service may give `answer` to `upsert_rewards_batch`.
    open spec fn may_upsert_rewards_batch(
        &self,
        rewards: Seq<Reward>,
        answer: Result<usize, StoreError>,
    ) -> bool {
        true
    }

    /// Inserts the rewards, or updates those that exist, and gives their
    /// number.
    fn upsert_rewards_batch(&mut self, rewards: Vec<Reward>) -> (answer: Result<usize, StoreError>)
        ensures
            old(self).may_upsert_rewards_batch(rewards@, answer),
            old(self).is_steady() ==> *final(self) == *old(self),
    ;

    /// Whether the service may give `answer` to `decrement_stock`.
    open spec fn may_decrement_stock(
        &self,
        reward_name: Seq<char>,
        amount: i32,
        answer: Result<Option<Reward>, StoreError>,
    ) -> bool {
        true
    }

    /// Takes `amount` from the stock of a reward, and gives the reward as it
    /// then stands, where there is one.
    fn decrement_stock(
        &mut self,
        reward_name: &str,
        amount: i32,
    ) -> (answer: Result<Option<Reward>, StoreError>)
        ensures
            old(self).may_decrement_stock(reward_name@, amount, answer),
            old(self).is_steady() ==> *final(self) == *old(self),
    ;

    /// Whether the service may give `answer` to `increment_stock`.
    open spec fn may_increment_stock(
        &self,
        reward_name: Seq<char>,
        amount: i32,
        answer: Result<Option<Reward>, StoreError>,
    ) -> bool {
        true
    }

    /// Adds `amount` to the stock of a reward, and gives the reward as it then
    /// stands, where there is one.
    fn increment_stock(
        &mut self,
        reward_name: &str,
        amount: i32,
    ) -> (answer: Result<Option<Reward>, StoreError>)
        ensures
            old(self).may_increment_stock(reward_name@, amount, answer),
            old(self).is_steady() ==> *final(self) == *old(self),
    ;
}

/// What the store knows of the leaderboard.
pub trait LeaderboardServiceTrait: Sized {
    /// Whether the service is the same after every call. Unless a service
    /// says so, it is not known to be.
    open spec fn is_steady(&self) -> bool {
        false
    }

    /// Whether the service may give `answer` to `get_leaderboard_page`.
    open spec fn may_get_leaderboard_page(
        &self,
        limit: u64,
        after_rank: Option<i64>,
        answer: Result<Vec<LeaderboardEntry>, StoreError>,
    ) -> bool {
        true
    }

    /// The page of at most `limit` rows whose ranks are above `after_rank`.
    fn get_leaderboard_page(
        &mut self,
        limit: u64,
        after_rank: Option<i64>,
    ) -> (answer: Result<Vec<LeaderboardEntry>, StoreError>)
        ensures
            old(self).may_get_leaderboard_page(limit, after_rank, answer),
            old(self).is_steady() ==> *final(self) == *old(self),
    ;

    /// Whether the service may give `answer` to
    /// `get_user_leaderboard_position`.
    open spec fn may_get_user_leaderboard_position(
        &self,
        user_id: Seq<char>,
        answer: Result<i64, StoreError>,
    ) -> bool {
        true
    }

    /// The rank of a user.
    fn get_user_leaderboard_position(&mut self, user_id: &str) -> (answer: Result<i64, StoreError>)
        ensures
            old(self).may_get_user_leaderboard_position(user_id@, answer),
            old(self).is_steady() ==> *final(self) == *old(self),
    ;
}

} // verus!
