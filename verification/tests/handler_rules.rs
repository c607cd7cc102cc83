use backend::handlers::transaction::{next_purchase_step, PurchaseFacts, PurchaseStep};
use backend::cache::CacheManager;
use backend::handlers::transaction::{conclude_purchase, settle_coins};
use backend::handlers::transaction::conclude_cancellation;
use backend::handlers::completion::{next_completion_step, CompletionFacts, CompletionStep};
use backend::auth::{dev_claims, in_group, require_admin};
use backend::entities::{
    Challenge, Completion, JournalRecord, Reward, TextMap, Timestamp, Trade, Transaction, User,
};
use backend::handlers::admin::{admin_challenge_response, get_all_challenges, verified_status, verify_transaction};
use backend::handlers::challenges::{
    challenge_response, challenge_status, challenges_list, status_name, ChallengeStatus,
};
use backend::handlers::completion::{
    check_challenge, check_repeat, checked_place, completion_made, completion_refused, stored_link,
    CompletionRefusal, CompletionResponse,
};
use backend::handlers::journal::{
    delete_journal_photo, get_journal, journal_entry, photo_to_delete, JournalEntry,
};
use backend::handlers::rewards::{
    ccup_limit_by_dorm, is_shared_reward, purchases_summary, reward_response, unknown_dorm,
};
use backend::handlers::trade::{decide_trade, trade_made, trade_refused, TradeResponse};
use backend::handlers::transaction::{
    cancellation_done, cancellation_refused, check_coins, check_count, check_stock,
    check_trade_limit, cost_of, decide_cancellation, decide_purchase, purchase_made,
    purchase_refused, refusal_message, Cancellation, Refusal, TransactionResponse,
};
use backend::handlers::user::{activity_window, coins_summary, get_profile};
use backend::AuthClaims;
use backend::entities::{FixedPoint, StoreError};

fn at(seconds: i64) -> Timestamp {
    Timestamp { seconds, nanos: 0 }
}

fn challenge(name: &str, unlock: i64) -> Challenge {
    Challenge {
        name: name.to_string(),
        category: "Campus".to_string(),
        location: "The Fence".to_string(),
        scotty_coins: 100,
        maps_link: Some("https://maps.example/fence".to_string()),
        tagline: "Paint it".to_string(),
        description: "Find the fence".to_string(),
        more_info_link: None,
        unlock_timestamp: at(unlock),
        secret: "fence-secret".to_string(),
        latitude_bits: None,
        longitude_bits: None,
        location_accuracy: None,
    }
}

fn reward(cost: i32, stock: i32, trade_limit: i32) -> Option<Reward> {
    Some(Reward { name: "Sticker".to_string(), cost, stock, trade_limit })
}

fn transaction(id: &str, user: &str, status: &str, count: i32, time: i64) -> Transaction {
    Transaction {
        id: id.to_string(),
        user_id: user.to_string(),
        reward_name: "Sticker".to_string(),
        timestamp: at(time),
        status: status.to_string(),
        count,
    }
}

#[test]
fn a_purchase_needs_a_positive_count() {
    assert_eq!(check_count(0), Some(Refusal::CountNotPositive));
    assert_eq!(check_count(-4), Some(Refusal::CountNotPositive));
    assert_eq!(check_count(1), None);
    assert_eq!(decide_purchase(0, &reward(1, 10, 10), 0, 100, 0), Err(Refusal::CountNotPositive));
    assert_eq!(decide_purchase(-1, &None, 0, 100, 0), Err(Refusal::CountNotPositive));
}

#[test]
fn a_purchase_needs_a_reward() {
    assert_eq!(check_stock(&None, 1), Some(Refusal::RewardNotFound));
    assert_eq!(decide_purchase(1, &None, 0, 100, 0), Err(Refusal::RewardNotFound));
}

#[test]
fn a_purchase_needs_stock_where_stock_is_tracked() {
    assert_eq!(check_stock(&reward(1, 3, 10), 4), Some(Refusal::InsufficientStock));
    assert_eq!(check_stock(&reward(1, 3, 10), 3), None);
    assert_eq!(check_stock(&reward(1, 0, 10), 1), Some(Refusal::InsufficientStock));
    assert_eq!(check_stock(&reward(1, -1, 10), 1000), None);
    assert_eq!(decide_purchase(4, &reward(1, 3, 10), 0, 100, 0), Err(Refusal::InsufficientStock));
}

#[test]
fn a_purchase_keeps_within_the_trade_limit() {
    let sticker = reward(1, 10, 5).unwrap();
    assert_eq!(check_trade_limit(&sticker, 3, 3), Some(Refusal::TradeLimitExceeded));
    assert_eq!(check_trade_limit(&sticker, 3, 2), None);
    let unlimited = reward(1, 10, -1).unwrap();
    assert_eq!(check_trade_limit(&unlimited, 1000, 1000), None);
    let wide = reward(1, 10, i32::MAX).unwrap();
    assert_eq!(check_trade_limit(&wide, i32::MAX, 1), Some(Refusal::TradeLimitExceeded));
    assert_eq!(decide_purchase(3, &reward(1, 10, 5), 3, 100, 0), Err(Refusal::TradeLimitExceeded));
}

#[test]
fn a_purchase_costs_count_times_cost() {
    let sticker = reward(30, 10, 5).unwrap();
    assert_eq!(cost_of(&sticker, 3), 90);
    assert_eq!(check_coins(&sticker, 3, 100, 10), Ok(90));
    assert_eq!(check_coins(&sticker, 3, 100, 11), Err(Refusal::InsufficientCoins));
    assert_eq!(decide_purchase(3, &reward(30, 10, 5), 0, 100, 10), Ok(90));
    assert_eq!(decide_purchase(3, &reward(30, 10, 5), 0, 89, 0), Err(Refusal::InsufficientCoins));
    let dear = reward(i32::MAX, -1, -1).unwrap();
    assert_eq!(cost_of(&dear, i32::MAX), 4_611_686_014_132_420_609);
    assert_eq!(check_coins(&dear, i32::MAX, i32::MAX, 0), Err(Refusal::InsufficientCoins));
}

#[test]
fn the_first_reason_to_refuse_a_purchase_wins() {
    assert_eq!(decide_purchase(0, &None, 99, 0, 99), Err(Refusal::CountNotPositive));
    assert_eq!(decide_purchase(9, &reward(100, 3, 1), 5, 0, 0), Err(Refusal::InsufficientStock));
    assert_eq!(decide_purchase(2, &reward(100, 3, 1), 5, 0, 0), Err(Refusal::TradeLimitExceeded));
}

#[test]
fn refusals_are_told_in_words() {
    assert_eq!(refusal_message(Refusal::CountNotPositive), "Count must be positive");
    assert_eq!(refusal_message(Refusal::RewardNotFound), "Reward not found");
    assert_eq!(refusal_message(Refusal::InsufficientStock), "Insufficient stock");
    assert_eq!(refusal_message(Refusal::TradeLimitExceeded), "Would exceed trade limit");
    assert_eq!(refusal_message(Refusal::InsufficientCoins), "Insufficient coins");
    let refused = purchase_refused(Refusal::InsufficientCoins);
    assert!(!refused.success);
    assert_eq!(refused.message, "Insufficient coins");
    assert_eq!(refused.transaction, None);
}

#[test]
fn a_purchase_that_was_made_is_told_with_its_cost() {
    let made = purchase_made(transaction("id-1", "u1", "pending", 2, 5), 60);
    assert!(made.success);
    assert_eq!(made.message, "Transaction successful");
    assert_eq!(
        made.transaction,
        Some(TransactionResponse {
            transaction_id: "id-1".to_string(),
            reward_name: "Sticker".to_string(),
            count: 2,
            total_cost: 60,
            status: "pending".to_string(),
        })
    );
}

#[test]
fn a_trade_is_bound_by_stock_and_limit_always() {
    assert_eq!(decide_trade(0, &reward(1, 1, 1), 0, 10, 0), Err(Refusal::CountNotPositive));
    assert_eq!(decide_trade(1, &None, 0, 10, 0), Err(Refusal::RewardNotFound));
    assert_eq!(decide_trade(1, &reward(1, -1, 5), 0, 10, 0), Err(Refusal::InsufficientStock));
    assert_eq!(decide_trade(1, &reward(1, 5, -1), 0, 10, 0), Err(Refusal::TradeLimitExceeded));
    assert_eq!(decide_trade(2, &reward(4, 5, 5), 3, 10, 0), Ok(8));
    assert_eq!(decide_trade(2, &reward(4, 5, 5), 4, 10, 0), Err(Refusal::TradeLimitExceeded));
    assert_eq!(decide_trade(2, &reward(4, 5, 5), 0, 10, 3), Err(Refusal::InsufficientCoins));
    let refused = trade_refused(Refusal::InsufficientStock);
    assert_eq!((refused.success, refused.message.as_str(), refused.trade), (false, "Insufficient stock", None));
    let made = trade_made(
        Trade { user_id: "u1".to_string(), reward_name: "Mug".to_string(), timestamp: at(1), count: 2 },
        8,
    );
    assert_eq!(made.message, "Trade successful");
    assert_eq!(made.trade, Some(TradeResponse { reward_name: "Mug".to_string(), count: 2, total_cost: 8 }));
}

#[test]
fn only_the_buyer_cancels_and_only_pending_purchases() {
    assert_eq!(decide_cancellation(&None, "u1"), Cancellation::NotFound);
    let other = Some(transaction("t", "u2", "pending", 1, 0));
    assert_eq!(decide_cancellation(&other, "u1"), Cancellation::Forbidden);
    let complete = Some(transaction("t", "u1", "complete", 1, 0));
    assert_eq!(decide_cancellation(&complete, "u1"), Cancellation::NotCancellable);
    let unknown = Some(transaction("t", "u1", "incomplete", 1, 0));
    assert_eq!(decide_cancellation(&unknown, "u1"), Cancellation::NotCancellable);
    let pending = Some(transaction("t", "u1", "pending", 1, 0));
    assert_eq!(decide_cancellation(&pending, "u1"), Cancellation::Delete);
}

#[test]
fn a_purchase_can_be_cancelled_as_it_was_made() {
    let made = backend::services::transaction::new_transaction(
        "u1",
        "Sticker",
        2,
        backend::entities::Timestamp { seconds: 1_700_000_000, nanos: 0 },
    );
    assert_eq!(decide_cancellation(&Some(made), "u1"), Cancellation::Delete);
}

#[test]
fn a_cancellation_is_answered_in_words() {
    let not_found = cancellation_refused(Cancellation::NotFound).unwrap();
    assert_eq!((not_found.success, not_found.message.as_str()), (false, "Transaction not found"));
    let complete = cancellation_refused(Cancellation::NotCancellable).unwrap();
    assert_eq!(complete.message, "Cannot cancel completed transactions");
    assert_eq!(cancellation_refused(Cancellation::Forbidden), None);
    assert_eq!(cancellation_refused(Cancellation::Delete), None);
    let done = cancellation_done(true);
    assert_eq!((done.success, done.message.as_str()), (true, "Transaction cancelled successfully"));
    let failed = cancellation_done(false);
    assert_eq!((failed.success, failed.message.as_str()), (false, "Failed to cancel transaction"));
}

#[test]
fn a_challenge_is_completed_available_or_locked() {
    assert_eq!(challenge_status(Some(at(5)), at(100), at(10)), ChallengeStatus::Completed);
    assert_eq!(challenge_status(None, at(100), at(100)), ChallengeStatus::Available);
    assert_eq!(challenge_status(None, at(100), at(101)), ChallengeStatus::Available);
    assert_eq!(challenge_status(None, at(100), at(99)), ChallengeStatus::Locked);
    let just_before = Timestamp { seconds: 99, nanos: 999_999_999 };
    assert_eq!(challenge_status(None, at(100), just_before), ChallengeStatus::Locked);
    let same_second = Timestamp { seconds: 100, nanos: 1 };
    assert_eq!(challenge_status(None, same_second, at(100)), ChallengeStatus::Locked);
    assert_eq!(status_name(ChallengeStatus::Locked), "locked");
    assert_eq!(status_name(ChallengeStatus::Available), "available");
    assert_eq!(status_name(ChallengeStatus::Completed), "completed");
}

#[test]
fn a_locked_challenge_shows_no_details() {
    let mut completions = TextMap::new();
    completions.insert("Done".to_string(), at(7));
    let locked = challenge_response(&challenge("Later", 100), &completions, at(50));
    assert_eq!(locked.status, ChallengeStatus::Locked);
    assert_eq!(locked.details, None);
    assert_eq!(locked.completed_at, None);
    assert_eq!(locked.unlock_timestamp, at(100));
    let open = challenge_response(&challenge("Now", 10), &completions, at(50));
    assert_eq!(open.status, ChallengeStatus::Available);
    let details = open.details.as_ref().unwrap();
    assert_eq!(details.scotty_coins, 100);
    assert_eq!(details.maps_link, Some("https://maps.example/fence".to_string()));
    assert_eq!(details.location, "The Fence");
    let done = challenge_response(&challenge("Done", 10), &completions, at(50));
    assert_eq!(done.status, ChallengeStatus::Completed);
    assert_eq!(done.completed_at, Some(at(7)));
    let list = challenges_list(
        &vec![challenge("Later", 100), challenge("Now", 10), challenge("Done", 10)],
        &completions,
        at(50),
    );
    assert_eq!(list.challenges, vec![locked, open, done]);
}

#[test]
fn an_administrator_sees_all_of_a_locked_challenge() {
    let completions = TextMap::new();
    let mut hidden = challenge("Later", 100);
    hidden.latitude_bits = Some(5);
    hidden.location_accuracy = Some(FixedPoint { mantissa: 255, scale: 1 });
    let seen = admin_challenge_response(&hidden, &completions, at(50));
    assert_eq!(seen.status, ChallengeStatus::Locked);
    assert_eq!(seen.secret, "fence-secret");
    assert_eq!(seen.latitude_bits, Some(5));
    assert_eq!(seen.location_accuracy, Some(FixedPoint { mantissa: 255, scale: 1 }));
    let list = get_all_challenges(&vec![hidden], &completions, at(50));
    assert_eq!(list.challenges, vec![seen]);
}

#[test]
fn a_verification_is_answered_in_words() {
    assert_eq!(verified_status(), "complete");
    let found = verify_transaction(true);
    assert_eq!((found.success, found.message.as_str()), (true, "Transaction verified successfully"));
    let missing = verify_transaction(false);
    assert_eq!((missing.success, missing.message.as_str()), (false, "Transaction not found"));
}

#[test]
fn a_completion_is_checked_before_the_store_is_asked() {
    let now = at(50);
    assert_eq!(check_challenge(&None, now, "x"), Some(CompletionRefusal::ChallengeNotFound));
    let later = Some(challenge("Later", 51));
    assert_eq!(check_challenge(&later, now, "fence-secret"), Some(CompletionRefusal::NotYetUnlocked));
    let open = Some(challenge("Now", 50));
    assert_eq!(check_challenge(&open, now, "fence-secre"), Some(CompletionRefusal::InvalidCode));
    assert_eq!(check_challenge(&open, now, ""), Some(CompletionRefusal::InvalidCode));
    assert_eq!(check_challenge(&open, now, "fence-secret"), None);
    assert_eq!(check_challenge(&open, now, "https://q.example/?c=fence-secret&x=1"), None);
    assert_eq!(check_repeat(true), Some(CompletionRefusal::AlreadyCompleted));
    assert_eq!(check_repeat(false), None);
}

#[test]
fn a_completion_is_answered_in_words() {
    let texts = [
        (CompletionRefusal::ChallengeNotFound, "Challenge not found"),
        (CompletionRefusal::NotYetUnlocked, "Challenge is not yet unlocked"),
        (CompletionRefusal::InvalidCode, "Invalid verification code"),
        (CompletionRefusal::AlreadyCompleted, "Challenge already completed"),
        (CompletionRefusal::TooFar, "You are not close enough to the challenge location"),
    ];
    for (refusal, text) in texts {
        let refused = completion_refused(refusal);
        assert_eq!((refused.success, refused.message.as_str(), refused.completion), (false, text, None));
    }
    let made = completion_made(
        Completion {
            user_id: "u1".to_string(),
            challenge_name: "Fence".to_string(),
            timestamp: at(9),
            s3_link: None,
            note: None,
        },
        100,
    );
    assert!(made.success);
    assert_eq!(made.message, "Challenge completed successfully!");
    assert_eq!(
        made.completion,
        Some(CompletionResponse {
            challenge_name: "Fence".to_string(),
            completed_at: at(9),
            coins_earned: 100,
        })
    );
}

#[test]
fn the_place_of_a_challenge_is_checked_only_where_all_of_it_is_known() {
    let mut placed = challenge("Fence", 0);
    assert_eq!(checked_place(&placed), None);
    placed.latitude_bits = Some(1);
    placed.longitude_bits = Some(2);
    assert_eq!(checked_place(&placed), None);
    placed.location_accuracy = Some(FixedPoint { mantissa: 5000, scale: 1 });
    assert_eq!(checked_place(&placed), Some((1, 2, FixedPoint { mantissa: 5000, scale: 1 })));
    assert_eq!(stored_link(String::new()), None);
    assert_eq!(stored_link("s3://b/k".to_string()), Some("s3://b/k".to_string()));
}

fn entry(name: &str, time: i64) -> JournalEntry {
    JournalEntry {
        challenge_name: name.to_string(),
        completed_at: at(time),
        note: None,
        image_url: None,
        coins_earned: 100,
        challenge_tagline: "Paint it".to_string(),
        challenge_location: "The Fence".to_string(),
        challenge_category: "Campus".to_string(),
    }
}

#[test]
fn the_journal_shows_the_most_recent_completion_first() {
    let journal = get_journal(vec![
        entry("old", 10),
        entry("new", 30),
        entry("tie-first", 20),
        entry("tie-second", 20),
        entry("oldest", -5),
    ]);
    let names: Vec<&str> = journal.entries.iter().map(|e| e.challenge_name.as_str()).collect();
    assert_eq!(names, vec!["new", "tie-first", "tie-second", "old", "oldest"]);
    assert_eq!(get_journal(Vec::new()).entries, Vec::new());
    let mut early = entry("early", 20);
    early.completed_at = Timestamp { seconds: 20, nanos: 5 };
    let mut late = entry("late", 20);
    late.completed_at = Timestamp { seconds: 20, nanos: 6 };
    let by_nanos = get_journal(vec![early, late]);
    assert_eq!(by_nanos.entries[0].challenge_name, "late");
}

#[test]
fn a_journal_entry_is_made_of_completion_and_challenge() {
    let record = JournalRecord {
        completion: Completion {
            user_id: "u1".to_string(),
            challenge_name: "Fence".to_string(),
            timestamp: at(9),
            s3_link: Some("s3://b/k".to_string()),
            note: Some("fun".to_string()),
        },
        challenge: challenge("Fence", 0),
    };
    let made = journal_entry(record, Some("https://signed.example/k".to_string()));
    let mut expected = entry("Fence", 9);
    expected.note = Some("fun".to_string());
    expected.image_url = Some("https://signed.example/k".to_string());
    assert_eq!(made, expected);
}

#[test]
fn a_photo_is_deleted_only_where_there_is_one() {
    let missing = photo_to_delete(&None).unwrap_err();
    assert_eq!((missing.success, missing.message.as_str()), (false, "Journal entry not found"));
    let mut record = JournalRecord {
        completion: Completion {
            user_id: "u1".to_string(),
            challenge_name: "Fence".to_string(),
            timestamp: at(9),
            s3_link: None,
            note: None,
        },
        challenge: challenge("Fence", 0),
    };
    let bare = photo_to_delete(&Some(record.clone())).unwrap_err();
    assert_eq!((bare.success, bare.message.as_str()), (false, "No photo to delete"));
    record.completion.s3_link = Some("s3://b/k".to_string());
    assert_eq!(photo_to_delete(&Some(record)), Ok("s3://b/k".to_string()));
    let done = delete_journal_photo(true, true);
    assert_eq!((done.success, done.message.as_str()), (true, "Photo deleted successfully"));
    let half = delete_journal_photo(true, false);
    assert_eq!(
        (half.success, half.message.as_str()),
        (true, "Photo removed from journal, S3 deletion failed")
    );
    let failed = delete_journal_photo(false, true);
    assert_eq!((failed.success, failed.message.as_str()), (false, "Failed to delete photo"));
}

#[test]
fn dorms_have_their_limits() {
    for dorm in ["Res on Fifth", "McGill and Boss", "The Hill", "Hammerschlag"] {
        assert_eq!(ccup_limit_by_dorm(dorm), 4350);
    }
    assert_eq!(ccup_limit_by_dorm("Mudge"), 8670);
    assert_eq!(ccup_limit_by_dorm("Stever"), 8670);
    assert_eq!(ccup_limit_by_dorm("Morewood E-Tower"), 6090);
    assert_eq!(ccup_limit_by_dorm("Morewood Gardens"), 4170);
    assert_eq!(ccup_limit_by_dorm("Donner"), 6960);
    assert_eq!(ccup_limit_by_dorm("Margaret Morrison"), 8010);
    assert_eq!(ccup_limit_by_dorm("Whesco"), 8010);
    assert_eq!(ccup_limit_by_dorm("Unknown"), -1);
    assert_eq!(ccup_limit_by_dorm("mudge"), -1);
    assert_eq!(ccup_limit_by_dorm(unknown_dorm()), -1);
    assert!(is_shared_reward("Carnegie Cup Contribution"));
    assert!(!is_shared_reward("Carnegie Cup"));
}

#[test]
fn purchases_are_added_up_by_status() {
    let purchases = vec![
        transaction("a", "u1", "complete", 2, 10),
        transaction("b", "u1", "pending", 3, 30),
        transaction("c", "u1", "incomplete", 4, 20),
        transaction("d", "u1", "complete", 5, 30),
    ];
    let info = purchases_summary(&purchases);
    assert_eq!(info.total_purchased, 14);
    assert_eq!(info.complete_count, 7);
    assert_eq!(info.incomplete_count, 7);
    let ids: Vec<&str> = info.transactions.iter().map(|t| t.transaction_id.as_str()).collect();
    assert_eq!(ids, vec!["b", "d", "c", "a"]);
    assert_eq!(info.transactions[0].count, 3);
    assert_eq!(info.transactions[0].status, "pending");
    let none = purchases_summary(&Vec::new());
    assert_eq!((none.total_purchased, none.complete_count, none.incomplete_count), (0, 0, 0));
}

#[test]
fn the_shared_reward_shows_the_numbers_of_the_dorm() {
    let sticker = reward(5, 7, 2).unwrap();
    let own = reward_response(&sticker, purchases_summary(&vec![transaction("a", "u", "complete", 2, 1)]), None);
    assert_eq!((own.stock, own.trade_limit, own.transaction_info.total_purchased), (7, 2, 2));
    assert_eq!((own.name.as_str(), own.cost), ("Sticker", 5));
    let shared = reward_response(
        &sticker,
        purchases_summary(&vec![transaction("a", "u", "complete", 2, 1)]),
        Some((4350, 1200)),
    );
    assert_eq!((shared.stock, shared.trade_limit, shared.transaction_info.total_purchased), (4350, 4350, 1200));
    assert_eq!(shared.transaction_info.complete_count, 2);
}

#[test]
fn coins_in_hand_are_earned_less_spent() {
    let summary = coins_summary(300, 120);
    assert_eq!((summary.current, summary.total_earned, summary.total_spent), (180, 300, 120));
    assert_eq!(coins_summary(i32::MIN, i32::MAX).current, -4_294_967_295);
    assert_eq!(activity_window(), 7);
}

#[test]
fn a_profile_is_put_together_from_its_parts() {
    let mut by_category = TextMap::new();
    by_category.insert("Campus".to_string(), 2);
    let mut totals = TextMap::new();
    totals.insert("Campus".to_string(), 9);
    let profile = get_profile(
        User { user_id: "u1".to_string(), name: "Una".to_string(), dorm: Some("Mudge".to_string()) },
        vec!["students".to_string()],
        300,
        120,
        4,
        by_category.clone(),
        2,
        totals.clone(),
        9,
        vec![at(86_400)],
    );
    assert_eq!(profile.user_id, "u1");
    assert_eq!(profile.name, "Una");
    assert_eq!(profile.dorm, Some("Mudge".to_string()));
    assert_eq!(profile.scotty_coins.current, 180);
    assert_eq!(profile.groups, vec!["students".to_string()]);
    assert_eq!(profile.leaderboard_position, 4);
    assert_eq!(profile.challenges_completed.total, 2);
    assert_eq!(profile.challenges_completed.by_category, by_category);
    assert_eq!(profile.total_challenges.total, 9);
    assert_eq!(profile.total_challenges.by_category, totals);
    assert_eq!(profile.recent_activity_days, vec![at(86_400)]);
}

fn claims(groups: &[&str]) -> AuthClaims {
    let mut claims = dev_claims("https://issuer.example".to_string(), "client".to_string());
    claims.groups = groups.iter().map(|g| g.to_string()).collect();
    claims
}

#[test]
fn administrators_are_flagged_or_in_the_group() {
    assert!(require_admin(true, &claims(&[])));
    assert!(require_admin(false, &claims(&["students", "O-Quest Admin"])));
    assert!(!require_admin(false, &claims(&["students", "o-quest admin", "O-Quest Admin "])));
    assert!(!require_admin(false, &claims(&[])));
    assert!(in_group(&vec!["a".to_string(), "b".to_string()], "b"));
    assert!(!in_group(&vec!["a".to_string(), "b".to_string()], "c"));
}

#[test]
fn the_development_user_is_an_administrator() {
    let dev = dev_claims("https://issuer.example".to_string(), "client".to_string());
    assert_eq!(dev.iss, "https://issuer.example");
    assert_eq!(dev.aud, "client");
    assert_eq!(dev.sub, "devuser");
    assert_eq!(dev.name, "Dev User");
    assert_eq!(dev.email, "dev@example.com");
    assert_eq!((dev.exp, dev.iat, dev.auth_time), (9999999999, 1600000000, 1600000000));
    assert!(dev.email_verified);
    assert_eq!(dev.groups, vec!["O-Quest Admin".to_string()]);
    assert!(require_admin(false, &dev));
}

#[test]
fn a_purchase_is_decided_step_by_step() {
    let sticker = Reward { name: "Sticker".to_string(), cost: 5, stock: 3, trade_limit: 4 };
    let mut facts = PurchaseFacts { reward: None, current_count: None, coins: None };
    assert_eq!(next_purchase_step(0, &facts), PurchaseStep::Refuse(Refusal::CountNotPositive));
    assert_eq!(next_purchase_step(2, &facts), PurchaseStep::AskReward);
    facts.reward = Some(None);
    assert_eq!(next_purchase_step(2, &facts), PurchaseStep::Refuse(Refusal::RewardNotFound));
    facts.reward = Some(Some(sticker.clone()));
    assert_eq!(next_purchase_step(4, &facts), PurchaseStep::Refuse(Refusal::InsufficientStock));
    assert_eq!(next_purchase_step(2, &facts), PurchaseStep::AskCount);
    facts.current_count = Some(3);
    assert_eq!(next_purchase_step(2, &facts), PurchaseStep::Refuse(Refusal::TradeLimitExceeded));
    facts.current_count = Some(2);
    assert_eq!(next_purchase_step(2, &facts), PurchaseStep::AskCoins);
    facts.coins = Some((29, 20));
    assert_eq!(next_purchase_step(2, &facts), PurchaseStep::Refuse(Refusal::InsufficientCoins));
    facts.coins = Some((30, 20));
    assert_eq!(next_purchase_step(2, &facts), PurchaseStep::Create(10));
    assert_eq!(decide_purchase(2, &Some(sticker), 2, 30, 20), Ok(10));
}

#[test]
fn a_recorded_purchase_invalidates_the_user_and_the_leaderboard() {
    let mut cache = CacheManager::new();
    cache.set_user_coins_earned("u1", 30);
    cache.set_user_coins_earned("u2", 40);
    cache.set_user_position("u2", 1);
    cache.set_leaderboard_page(10, None, vec![]);
    cache.set_total_challenge_count(7);
    let failed = conclude_purchase(&mut cache, "u1", 10, Err(StoreError::Backend("down".to_string())));
    assert_eq!(failed, Err(StoreError::Backend("down".to_string())));
    assert_eq!(cache.get_user_coins_earned("u1"), Some(30));
    assert_eq!(cache.get_leaderboard_page(10, None), Some(vec![]));
    settle_coins(&mut cache, "u1", false);
    assert_eq!(cache.get_user_coins_earned("u1"), Some(30));
    assert_eq!(cache.get_user_position("u2"), Some(1));
    let made = conclude_purchase(&mut cache, "u1", 10, Ok(transaction("id-1", "u1", "pending", 2, 5)))
        .unwrap();
    assert!(made.success);
    assert_eq!(made.message, "Transaction successful");
    assert_eq!(made.transaction.unwrap().total_cost, 10);
    assert_eq!(cache.get_user_coins_earned("u1"), None);
    assert_eq!(cache.get_user_coins_earned("u2"), Some(40));
    assert_eq!(cache.get_user_position("u2"), None);
    assert_eq!(cache.get_leaderboard_page(10, None), None);
    assert_eq!(cache.get_total_challenge_count(), Some(7));
}

#[test]
fn a_cancellation_invalidates_only_when_the_purchase_was_deleted() {
    let mut cache = CacheManager::new();
    cache.set_user_coins_earned("u1", 30);
    cache.set_user_position("u1", 2);
    let kept = conclude_cancellation(&mut cache, "u1", Ok(false)).unwrap();
    assert_eq!((kept.success, kept.message.as_str()), (false, "Failed to cancel transaction"));
    assert_eq!(cache.get_user_coins_earned("u1"), Some(30));
    let failed = conclude_cancellation(&mut cache, "u1", Err(StoreError::Backend("down".to_string())));
    assert_eq!(failed, Err(StoreError::Backend("down".to_string())));
    assert_eq!(cache.get_user_position("u1"), Some(2));
    let gone = conclude_cancellation(&mut cache, "u1", Ok(true)).unwrap();
    assert_eq!((gone.success, gone.message.as_str()), (true, "Transaction cancelled successfully"));
    assert_eq!(cache.get_user_coins_earned("u1"), None);
    assert_eq!(cache.get_user_position("u1"), None);
}

#[test]
fn a_completion_is_decided_step_by_step() {
    let now = Timestamp { seconds: 1_000, nanos: 0 };
    let mut fence = challenge("Fence", 500);
    fence.secret = "open".to_string();
    let mut facts = CompletionFacts { challenge: None, already_completed: None, close_enough: None };
    assert_eq!(next_completion_step(&facts, now, "open"), CompletionStep::AskChallenge);
    facts.challenge = Some(None);
    assert_eq!(
        next_completion_step(&facts, now, "open"),
        CompletionStep::Refuse(CompletionRefusal::ChallengeNotFound)
    );
    facts.challenge = Some(Some(fence.clone()));
    assert_eq!(
        next_completion_step(&facts, Timestamp { seconds: 499, nanos: 0 }, "open"),
        CompletionStep::Refuse(CompletionRefusal::NotYetUnlocked)
    );
    assert_eq!(
        next_completion_step(&facts, now, "shut"),
        CompletionStep::Refuse(CompletionRefusal::InvalidCode)
    );
    assert_eq!(next_completion_step(&facts, now, "say open"), CompletionStep::AskRepeat);
    facts.already_completed = Some(true);
    assert_eq!(
        next_completion_step(&facts, now, "open"),
        CompletionStep::Refuse(CompletionRefusal::AlreadyCompleted)
    );
    facts.already_completed = Some(false);
    fence.latitude_bits = None;
    facts.challenge = Some(Some(fence.clone()));
    assert_eq!(next_completion_step(&facts, now, "open"), CompletionStep::Record);
    fence.latitude_bits = Some(40.5f64.to_bits());
    fence.longitude_bits = Some((-79.9f64).to_bits());
    fence.location_accuracy = Some(FixedPoint { mantissa: 25, scale: 0 });
    facts.challenge = Some(Some(fence));
    assert_eq!(
        next_completion_step(&facts, now, "open"),
        CompletionStep::ComparePlace(
            40.5f64.to_bits(),
            (-79.9f64).to_bits(),
            FixedPoint { mantissa: 25, scale: 0 }
        )
    );
    facts.close_enough = Some(false);
    assert_eq!(
        next_completion_step(&facts, now, "open"),
        CompletionStep::Refuse(CompletionRefusal::TooFar)
    );
    facts.close_enough = Some(true);
    assert_eq!(next_completion_step(&facts, now, "open"), CompletionStep::Record);
}
