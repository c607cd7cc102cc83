use backend::cache::manager::{make_activity_key, make_key, make_page_key, prefix_text, PartitionId};
use backend::cache::partition::{CacheValue, Partition};
use backend::cache::CacheManager;
use backend::entities::{Challenge, Completion, JournalRecord, Reward, TextMap, Timestamp};
use backend::services::leaderboard::LeaderboardEntry;

fn at(seconds: i64) -> Timestamp {
    Timestamp { seconds, nanos: 0 }
}

fn challenge(name: &str) -> Challenge {
    Challenge {
        name: name.to_string(),
        category: "Campus".to_string(),
        location: "The Fence".to_string(),
        scotty_coins: 100,
        maps_link: Some("https://maps.example/fence".to_string()),
        tagline: "Paint it".to_string(),
        description: "Find the fence".to_string(),
        more_info_link: None,
        unlock_timestamp: at(1_755_453_600),
        secret: "fence-secret".to_string(),
        latitude_bits: Some(40.4423f64.to_bits()),
        longitude_bits: Some((-79.9425f64).to_bits()),
        location_accuracy: None,
    }
}

fn reward(name: &str) -> Reward {
    Reward { name: name.to_string(), cost: 50, stock: 7, trade_limit: 2 }
}

fn entry(rank: i64, id: &str) -> LeaderboardEntry {
    LeaderboardEntry {
        rank,
        user_id: id.to_string(),
        name: id.to_uppercase(),
        dorm: None,
        coins_earned: 10,
        coins_spent: 0,
        challenges_completed: 1,
    }
}

fn counts(pairs: &[(&str, i32)]) -> TextMap<i32> {
    let mut map = TextMap::new();
    for (k, v) in pairs {
        map.insert(k.to_string(), *v);
    }
    map
}

fn completions(pairs: &[(&str, i64)]) -> TextMap<Timestamp> {
    let mut map = TextMap::new();
    for (k, v) in pairs {
        map.insert(k.to_string(), at(*v));
    }
    map
}

fn journal(user: &str, name: &str) -> JournalRecord {
    JournalRecord {
        completion: Completion {
            user_id: user.to_string(),
            challenge_name: name.to_string(),
            timestamp: at(5),
            s3_link: None,
            note: Some("done".to_string()),
        },
        challenge: challenge(name),
    }
}

#[test]
fn a_new_partition_misses() {
    let mut partition = Partition::new(10);
    assert_eq!(partition.get("k"), None);
}

#[test]
fn a_partition_gives_back_what_was_set() {
    let mut partition = Partition::new(10);
    partition.set("k".to_string(), CacheValue::Count(7));
    assert_eq!(partition.get("k"), Some(CacheValue::Count(7)));
    assert_eq!(partition.get("other"), None);
    partition.set("k".to_string(), CacheValue::Count(8));
    assert_eq!(partition.get("k"), Some(CacheValue::Count(8)));
}

#[test]
fn a_partition_forgets_an_invalidated_key_only() {
    let mut partition = Partition::new(10);
    partition.set("a".to_string(), CacheValue::Position(1));
    partition.set("b".to_string(), CacheValue::Position(2));
    partition.invalidate("a");
    assert_eq!(partition.get("a"), None);
    assert_eq!(partition.get("b"), Some(CacheValue::Position(2)));
    partition.invalidate("never-set");
    assert_eq!(partition.get("b"), Some(CacheValue::Position(2)));
}

#[test]
fn a_partition_forgets_everything_when_cleared() {
    let mut partition = Partition::new(10);
    partition.set("a".to_string(), CacheValue::Position(1));
    partition.set("b".to_string(), CacheValue::Position(2));
    partition.invalidate_all();
    assert_eq!(partition.get("a"), None);
    assert_eq!(partition.get("b"), None);
    partition.set("a".to_string(), CacheValue::Position(3));
    assert_eq!(partition.get("a"), Some(CacheValue::Position(3)));
}

#[test]
fn a_partition_of_capacity_zero_stores_nothing() {
    let mut partition = Partition::new(0);
    partition.set("a".to_string(), CacheValue::Count(1));
    assert_eq!(partition.get("a"), None);
}

#[test]
fn a_partition_of_capacity_one_holds_the_last_value_set() {
    let mut partition = Partition::new(1);
    for i in 0..50 {
        partition.set("total".to_string(), CacheValue::Count(i));
        assert_eq!(partition.get("total"), Some(CacheValue::Count(i)));
    }
}

#[test]
fn keys_are_made_of_namespace_and_subject() {
    assert_eq!(prefix_text(PartitionId::Challenges), "challenges:all");
    assert_eq!(prefix_text(PartitionId::ChallengeCounts), "counts");
    assert_eq!(prefix_text(PartitionId::TotalChallengeCount), "total");
    assert_eq!(prefix_text(PartitionId::Rewards), "rewards:all");
    assert_eq!(make_key(PartitionId::ChallengeByName, "Fence"), "challenge:name:Fence");
    assert_eq!(make_key(PartitionId::UserCompletions, "u1"), "user:completions:u1");
    assert_eq!(make_key(PartitionId::UserCompletionCounts, "u1"), "completion_count:u1");
    assert_eq!(make_key(PartitionId::UserCoinsEarned, "u1"), "coins_earned:u1");
    assert_eq!(
        make_key(PartitionId::UserCompletionsByCategory, "u1"),
        "completions_by_category:u1"
    );
    assert_eq!(
        make_key(PartitionId::UserCompletionsWithChallenges, "u1"),
        "completions_with_challenges:u1"
    );
    assert_eq!(make_key(PartitionId::RewardByName, "Sticker"), "reward:name:Sticker");
    assert_eq!(make_key(PartitionId::UserPositions, "u1"), "user:position:u1");
}

#[test]
fn page_keys_hold_limit_and_cursor() {
    assert_eq!(make_page_key(20, None), "leaderboard:page:20:0");
    assert_eq!(make_page_key(20, Some(0)), "leaderboard:page:20:0");
    assert_eq!(make_page_key(21, Some(40)), "leaderboard:page:21:40");
    assert_eq!(make_page_key(0, Some(-3)), "leaderboard:page:0:-3");
    assert_eq!(
        make_page_key(u64::MAX, Some(i64::MIN)),
        "leaderboard:page:18446744073709551615:-9223372036854775808"
    );
    assert_eq!(
        make_page_key(1, Some(i64::MAX)),
        "leaderboard:page:1:9223372036854775807"
    );
}

#[test]
fn activity_keys_hold_user_and_window() {
    assert_eq!(make_activity_key("u1", 7), "recent_activity:u1:7");
    assert_eq!(make_activity_key("a:b", 30), "recent_activity:a:b:30");
    assert_eq!(make_activity_key("", -1), "recent_activity::-1");
    assert_eq!(make_activity_key("u", 1009), "recent_activity:u:1009");
}

#[test]
fn a_new_cache_misses_everywhere() {
    let mut cache = CacheManager::new();
    assert_eq!(cache.get_challenges(), None);
    assert_eq!(cache.get_challenge_by_name("Fence"), None);
    assert_eq!(cache.get_challenge_counts(), None);
    assert_eq!(cache.get_total_challenge_count(), None);
    assert_eq!(cache.get_user_completions("u1"), None);
    assert_eq!(cache.get_user_completion_count("u1"), None);
    assert_eq!(cache.get_user_coins_earned("u1"), None);
    assert_eq!(cache.get_user_completions_by_category("u1"), None);
    assert_eq!(cache.get_user_completions_with_challenges("u1"), None);
    assert_eq!(cache.get_user_recent_activity("u1", 7), None);
    assert_eq!(cache.get_rewards(), None);
    assert_eq!(cache.get_reward_by_name("Sticker"), None);
    assert_eq!(cache.get_leaderboard_page(20, None), None);
    assert_eq!(cache.get_user_position("u1"), None);
    let mut by_default = CacheManager::default();
    assert_eq!(by_default.get_rewards(), None);
}

#[test]
fn get_after_set_returns_the_value_in_every_partition() {
    let mut cache = CacheManager::new();
    cache.set_challenges(vec![challenge("Fence"), challenge("Kiltie")]);
    cache.set_challenge_by_name("Fence", Some(challenge("Fence")));
    cache.set_challenge_counts(counts(&[("Campus", 2), ("Food", 5)]));
    cache.set_total_challenge_count(7);
    cache.set_user_completions("u1", completions(&[("Fence", 100)]));
    cache.set_user_completion_count("u1", 1);
    cache.set_user_coins_earned("u1", 100);
    cache.set_user_completions_by_category("u1", counts(&[("Campus", 1)]));
    cache.set_user_completions_with_challenges("u1", vec![journal("u1", "Fence")]);
    cache.set_user_recent_activity("u1", 7, vec![at(86_400), at(172_800)]);
    cache.set_rewards(vec![reward("Sticker")]);
    cache.set_reward_by_name("Sticker", Some(reward("Sticker")));
    cache.set_leaderboard_page(21, Some(20), vec![entry(21, "u9")]);
    cache.set_user_position("u1", 4);

    assert_eq!(cache.get_challenges(), Some(vec![challenge("Fence"), challenge("Kiltie")]));
    assert_eq!(cache.get_challenge_by_name("Fence"), Some(Some(challenge("Fence"))));
    assert_eq!(cache.get_challenge_counts(), Some(counts(&[("Campus", 2), ("Food", 5)])));
    assert_eq!(cache.get_total_challenge_count(), Some(7));
    assert_eq!(cache.get_user_completions("u1"), Some(completions(&[("Fence", 100)])));
    assert_eq!(cache.get_user_completion_count("u1"), Some(1));
    assert_eq!(cache.get_user_coins_earned("u1"), Some(100));
    assert_eq!(cache.get_user_completions_by_category("u1"), Some(counts(&[("Campus", 1)])));
    assert_eq!(
        cache.get_user_completions_with_challenges("u1"),
        Some(vec![journal("u1", "Fence")])
    );
    assert_eq!(cache.get_user_recent_activity("u1", 7), Some(vec![at(86_400), at(172_800)]));
    assert_eq!(cache.get_rewards(), Some(vec![reward("Sticker")]));
    assert_eq!(cache.get_reward_by_name("Sticker"), Some(Some(reward("Sticker"))));
    assert_eq!(cache.get_leaderboard_page(21, Some(20)), Some(vec![entry(21, "u9")]));
    assert_eq!(cache.get_user_position("u1"), Some(4));
}

#[test]
fn a_cached_absence_is_a_hit() {
    let mut cache = CacheManager::new();
    assert_eq!(cache.get_reward_by_name("Sticker"), None);
    cache.set_reward_by_name("Sticker", None);
    assert_eq!(cache.get_reward_by_name("Sticker"), Some(None));
    assert_eq!(cache.get_reward_by_name("Other"), None);
    cache.set_challenge_by_name("Gone", None);
    assert_eq!(cache.get_challenge_by_name("Gone"), Some(None));
}

#[test]
fn different_subjects_do_not_share_an_entry() {
    let mut cache = CacheManager::new();
    cache.set_user_completion_count("u1", 1);
    cache.set_user_completion_count("u2", 2);
    cache.set_user_coins_earned("u1", 300);
    cache.set_user_recent_activity("u1", 7, vec![at(1)]);
    cache.set_user_recent_activity("u1", 30, vec![at(1), at(2)]);
    cache.set_leaderboard_page(10, None, vec![entry(1, "a")]);
    cache.set_leaderboard_page(10, Some(10), vec![entry(11, "b")]);
    cache.set_leaderboard_page(11, None, vec![entry(1, "c")]);
    assert_eq!(cache.get_user_completion_count("u1"), Some(1));
    assert_eq!(cache.get_user_completion_count("u2"), Some(2));
    assert_eq!(cache.get_user_coins_earned("u1"), Some(300));
    assert_eq!(cache.get_user_coins_earned("u2"), None);
    assert_eq!(cache.get_user_recent_activity("u1", 7), Some(vec![at(1)]));
    assert_eq!(cache.get_user_recent_activity("u1", 30), Some(vec![at(1), at(2)]));
    assert_eq!(cache.get_leaderboard_page(10, None), Some(vec![entry(1, "a")]));
    assert_eq!(cache.get_leaderboard_page(10, Some(10)), Some(vec![entry(11, "b")]));
    assert_eq!(cache.get_leaderboard_page(11, None), Some(vec![entry(1, "c")]));
}

#[test]
fn an_absent_cursor_and_a_cursor_of_zero_share_an_entry() {
    let mut cache = CacheManager::new();
    cache.set_leaderboard_page(10, None, vec![entry(1, "a")]);
    assert_eq!(cache.get_leaderboard_page(10, Some(0)), Some(vec![entry(1, "a")]));
}

fn filled() -> CacheManager {
    let mut cache = CacheManager::new();
    cache.set_challenges(vec![challenge("Fence")]);
    cache.set_challenge_by_name("Fence", Some(challenge("Fence")));
    cache.set_challenge_counts(counts(&[("Campus", 2)]));
    cache.set_total_challenge_count(7);
    for user in ["u1", "u2"] {
        cache.set_user_completions(user, completions(&[("Fence", 100)]));
        cache.set_user_completion_count(user, 1);
        cache.set_user_coins_earned(user, 100);
        cache.set_user_completions_by_category(user, counts(&[("Campus", 1)]));
        cache.set_user_completions_with_challenges(user, vec![journal(user, "Fence")]);
        cache.set_user_recent_activity(user, 7, vec![at(86_400)]);
        cache.set_user_position(user, 4);
    }
    cache.set_rewards(vec![reward("Sticker")]);
    cache.set_reward_by_name("Sticker", Some(reward("Sticker")));
    cache.set_leaderboard_page(21, None, vec![entry(1, "u1")]);
    cache
}

#[test]
fn invalidating_challenges_clears_the_challenge_partitions_only() {
    let mut cache = filled();
    cache.invalidate_challenges();
    assert_eq!(cache.get_challenges(), None);
    assert_eq!(cache.get_challenge_by_name("Fence"), None);
    assert_eq!(cache.get_challenge_counts(), None);
    assert_eq!(cache.get_total_challenge_count(), None);
    assert_eq!(cache.get_rewards(), Some(vec![reward("Sticker")]));
    assert_eq!(cache.get_user_completion_count("u1"), Some(1));
    assert_eq!(cache.get_leaderboard_page(21, None), Some(vec![entry(1, "u1")]));
    assert_eq!(cache.get_user_position("u1"), Some(4));
}

#[test]
fn invalidating_rewards_clears_the_reward_partitions_only() {
    let mut cache = filled();
    cache.invalidate_rewards();
    assert_eq!(cache.get_rewards(), None);
    assert_eq!(cache.get_reward_by_name("Sticker"), None);
    assert_eq!(cache.get_challenges(), Some(vec![challenge("Fence")]));
    assert_eq!(cache.get_user_coins_earned("u1"), Some(100));
    assert_eq!(cache.get_leaderboard_page(21, None), Some(vec![entry(1, "u1")]));
}

#[test]
fn invalidating_the_leaderboard_clears_pages_and_positions() {
    let mut cache = filled();
    cache.invalidate_leaderboard();
    assert_eq!(cache.get_leaderboard_page(21, None), None);
    assert_eq!(cache.get_user_position("u1"), None);
    assert_eq!(cache.get_user_position("u2"), None);
    assert_eq!(cache.get_user_completion_count("u1"), Some(1));
    assert_eq!(cache.get_rewards(), Some(vec![reward("Sticker")]));
    assert_eq!(cache.get_total_challenge_count(), Some(7));
}

#[test]
fn invalidating_a_user_clears_what_is_keyed_by_that_user() {
    let mut cache = filled();
    cache.invalidate_user_data("u1");
    assert_eq!(cache.get_user_completions("u1"), None);
    assert_eq!(cache.get_user_completion_count("u1"), None);
    assert_eq!(cache.get_user_coins_earned("u1"), None);
    assert_eq!(cache.get_user_completions_by_category("u1"), None);
    assert_eq!(cache.get_user_completions_with_challenges("u1"), None);
    assert_eq!(cache.get_user_position("u1"), None);
    assert_eq!(cache.get_user_recent_activity("u1", 7), None);

    assert_eq!(cache.get_user_completions("u2"), Some(completions(&[("Fence", 100)])));
    assert_eq!(cache.get_user_completion_count("u2"), Some(1));
    assert_eq!(cache.get_user_coins_earned("u2"), Some(100));
    assert_eq!(cache.get_user_completions_by_category("u2"), Some(counts(&[("Campus", 1)])));
    assert_eq!(
        cache.get_user_completions_with_challenges("u2"),
        Some(vec![journal("u2", "Fence")])
    );
    assert_eq!(cache.get_user_position("u2"), Some(4));
    assert_eq!(cache.get_challenges(), Some(vec![challenge("Fence")]));
    assert_eq!(cache.get_rewards(), Some(vec![reward("Sticker")]));
    assert_eq!(cache.get_leaderboard_page(21, None), Some(vec![entry(1, "u1")]));
}

#[test]
fn invalidating_a_user_clears_recent_activity_of_every_user() {
    // Acceptable over-invalidation: the keys of recent activity carry a
    // window besides the user, so the whole partition goes.
    let mut cache = filled();
    cache.invalidate_user_data("u1");
    assert_eq!(cache.get_user_recent_activity("u2", 7), None);
}

#[test]
fn invalidating_user_and_leaderboard_clears_both() {
    let mut cache = filled();
    cache.invalidate_user_and_leaderboard("u1");
    assert_eq!(cache.get_user_coins_earned("u1"), None);
    assert_eq!(cache.get_user_position("u1"), None);
    assert_eq!(cache.get_user_position("u2"), None);
    assert_eq!(cache.get_leaderboard_page(21, None), None);
    assert_eq!(cache.get_user_coins_earned("u2"), Some(100));
    assert_eq!(cache.get_challenges(), Some(vec![challenge("Fence")]));
}

#[test]
fn invalidating_all_clears_every_partition() {
    let mut cache = filled();
    cache.invalidate_all();
    assert_eq!(cache.get_challenges(), None);
    assert_eq!(cache.get_challenge_by_name("Fence"), None);
    assert_eq!(cache.get_challenge_counts(), None);
    assert_eq!(cache.get_total_challenge_count(), None);
    for user in ["u1", "u2"] {
        assert_eq!(cache.get_user_completions(user), None);
        assert_eq!(cache.get_user_completion_count(user), None);
        assert_eq!(cache.get_user_coins_earned(user), None);
        assert_eq!(cache.get_user_completions_by_category(user), None);
        assert_eq!(cache.get_user_completions_with_challenges(user), None);
        assert_eq!(cache.get_user_recent_activity(user, 7), None);
        assert_eq!(cache.get_user_position(user), None);
    }
    assert_eq!(cache.get_rewards(), None);
    assert_eq!(cache.get_reward_by_name("Sticker"), None);
    assert_eq!(cache.get_leaderboard_page(21, None), None);
}

#[test]
fn a_value_set_after_an_invalidation_is_found() {
    let mut cache = filled();
    cache.invalidate_all();
    cache.set_total_challenge_count(9);
    cache.set_user_position("u1", 2);
    assert_eq!(cache.get_total_challenge_count(), Some(9));
    assert_eq!(cache.get_user_position("u1"), Some(2));
}

#[test]
fn the_generic_operations_reach_the_same_partitions() {
    let mut cache = CacheManager::new();
    cache.write(PartitionId::UserPositions, "user:position:u1".to_string(), CacheValue::Position(3));
    assert_eq!(cache.get_user_position("u1"), Some(3));
    assert_eq!(
        cache.read(PartitionId::UserPositions, "user:position:u1"),
        Some(CacheValue::Position(3))
    );
    assert_eq!(cache.read(PartitionId::UserCoinsEarned, "user:position:u1"), None);
    cache.discard(PartitionId::UserPositions, "user:position:u1");
    assert_eq!(cache.get_user_position("u1"), None);
    cache.set_rewards(vec![reward("Sticker")]);
    cache.clear(PartitionId::Rewards);
    assert_eq!(cache.get_rewards(), None);
}

#[test]
fn a_value_of_another_kind_counts_as_a_miss() {
    let mut cache = CacheManager::new();
    cache.write(PartitionId::UserPositions, "user:position:u1".to_string(), CacheValue::Count(3));
    assert_eq!(cache.get_user_position("u1"), None);
}

#[test]
fn get_after_set_holds_under_eviction() {
    let mut partition = Partition::new(10);
    for i in 0..2000i32 {
        let key = format!("k{i}");
        partition.set(key.clone(), CacheValue::Count(i));
        assert_eq!(partition.get(&key), Some(CacheValue::Count(i)));
    }
    let mut cache = CacheManager::new();
    for i in 0..300i64 {
        cache.set_leaderboard_page(10, Some(i), vec![entry(i + 1, "u")]);
        assert_eq!(cache.get_leaderboard_page(10, Some(i)), Some(vec![entry(i + 1, "u")]));
        cache.set_total_challenge_count(i as i32);
        assert_eq!(cache.get_total_challenge_count(), Some(i as i32));
    }
}

#[test]
fn a_hit_is_never_a_value_that_was_not_set() {
    let mut partition = Partition::new(5);
    for i in 0..500i32 {
        partition.set(format!("k{}", i % 50), CacheValue::Count(i));
    }
    for k in 0..50i32 {
        match partition.get(&format!("k{k}")) {
            None => {}
            Some(CacheValue::Count(v)) => assert_eq!(v, 450 + k),
            Some(other) => panic!("unexpected value {other:?}"),
        }
    }
}

#[test]
fn a_value_is_gone_at_once_when_its_partition_is_cleared() {
    for round in 0..200i64 {
        let mut cache = CacheManager::new();
        cache.set_user_position("u1", round);
        cache.set_leaderboard_page(10, None, vec![entry(1, "u1")]);
        cache.invalidate_leaderboard();
        assert_eq!(cache.get_user_position("u1"), None);
        assert_eq!(cache.get_leaderboard_page(10, None), None);
        cache.set_rewards(vec![reward("Sticker")]);
        cache.invalidate_all();
        assert_eq!(cache.get_rewards(), None);
    }
}

#[test]
fn a_cleared_partition_takes_values_up_to_its_capacity_again() {
    let mut partition = Partition::new(3);
    for round in 0..20i32 {
        for key in ["a", "b", "c"] {
            partition.set(key.to_string(), CacheValue::Count(round));
        }
        for _ in 0..100 {
            for key in ["a", "b", "c"] {
                assert_eq!(partition.get(key), Some(CacheValue::Count(round)));
            }
        }
        partition.invalidate_all();
        for key in ["a", "b", "c"] {
            assert_eq!(partition.get(key), None);
        }
    }
}

#[test]
fn a_page_is_still_found_after_lookups_of_other_pages() {
    let mut cache = CacheManager::new();
    cache.set_leaderboard_page(12, Some(3), vec![]);
    assert_eq!(cache.get_leaderboard_page(1, Some(23)), None);
    assert_eq!(cache.get_leaderboard_page(12, None), None);
    assert_eq!(cache.get_leaderboard_page(12, Some(3)), Some(vec![]));
}

#[test]
fn invalidating_a_user_keeps_what_belongs_to_others() {
    let mut cache = CacheManager::new();
    cache.set_user_position("u2", 1);
    cache.set_user_coins_earned("u2", 50);
    cache.set_leaderboard_page(10, None, vec![entry(1, "u2")]);
    cache.set_total_challenge_count(7);
    cache.invalidate_user_data("u1");
    assert_eq!(cache.get_user_position("u2"), Some(1));
    assert_eq!(cache.get_user_coins_earned("u2"), Some(50));
    assert_eq!(cache.get_leaderboard_page(10, None), Some(vec![entry(1, "u2")]));
    assert_eq!(cache.get_total_challenge_count(), Some(7));
}

#[test]
fn a_partition_within_its_capacity_keeps_every_value() {
    let mut partition = Partition::new(100);
    for i in 0..100i32 {
        partition.set(format!("k{i}"), CacheValue::Count(i));
    }
    for _ in 0..50 {
        for i in 0..100i32 {
            assert_eq!(partition.get(&format!("k{i}")), Some(CacheValue::Count(i)));
        }
    }
    partition.invalidate("k7");
    for i in 0..100i32 {
        let expected = if i == 7 { None } else { Some(CacheValue::Count(i)) };
        assert_eq!(partition.get(&format!("k{i}")), expected);
    }
}
