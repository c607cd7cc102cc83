//! Buying a reward with coins: when a purchase is refused, what it costs,
//! and when a purchase can be cancelled.

use vstd::prelude::*;
use vstd::string::*;
use crate::cache::manager::{was_cleared_for_coins, CacheManager};
use crate::entities::{Reward, StoreError, Transaction};
use crate::services::transaction::new_status;
use crate::text::same_text;

verus! {

/// A request to buy `count` of a reward.
#[derive(Debug, PartialEq, Eq)]
pub struct CreateTransactionRequest {
    pub reward_name: String,
    pub count: i32,
}

/// A purchase as the client gets it.
#[derive(Debug, PartialEq, Eq)]
pub struct TransactionResponse {
    pub transaction_id: String,
    pub reward_name: String,
    pub count: i32,
    pub total_cost: i64,
    pub status: String,
}

/// The answer to a request to buy.
#[derive(Debug, PartialEq, Eq)]
pub struct CreateTransactionResponse {
    pub success: bool,
    pub message: String,
    pub transaction: Option<TransactionResponse>,
}

/// The answer to a request to cancel a purchase.
#[derive(Debug, PartialEq, Eq)]
pub struct CancelTransactionResponse {
    pub success: bool,
    pub message: String,
}

/// Why a purchase is refused.
#[derive(Clone, Copy, Debug, PartialEq, Eq, Structural)]
pub enum Refusal {
    CountNotPositive,
    RewardNotFound,
    InsufficientStock,
    TradeLimitExceeded,
    InsufficientCoins,
}

/// What the client is told of a refusal.
pub open spec fn refusal_text(refusal: Refusal) -> Seq<char> {
    match refusal {
        Refusal::CountNotPositive => "Count must be positive"@,
        Refusal::RewardNotFound => "Reward not found"@,
        Refusal::InsufficientStock => "Insufficient stock"@,
        Refusal::TradeLimitExceeded => "Would exceed trade limit"@,
        Refusal::InsufficientCoins => "Insufficient coins"@,
    }
}

/// What the client is told of a refusal.
pub fn refusal_message(refusal: Refusal) -> (message: String)
    ensures
        message@ == refusal_text(refusal),
{
    match refusal {
        Refusal::CountNotPositive => String::from_str("Count must be positive"),
        Refusal::RewardNotFound => String::from_str("Reward not found"),
        Refusal::InsufficientStock => String::from_str("Insufficient stock"),
        Refusal::TradeLimitExceeded => String::from_str("Would exceed trade limit"),
        Refusal::InsufficientCoins => String::from_str("Insufficient coins"),
    }
}

/// The stock of a tracked reward does not cover `count`.
pub open spec fn stock_is_short(reward: Reward, count: i32) -> bool {
    reward.stock >= 0 && count > reward.stock
}

/// With `count` more the user would hold more of a reward than its limit
/// allows.
pub open spec fn limit_is_exceeded(reward: Reward, current_count: i32, count: i32) -> bool {
    reward.trade_limit >= 0 && current_count + count > reward.trade_limit
}

/// What `count` of a reward cost.
pub open spec fn total_cost(reward: Reward, count: i32) -> int {
    reward.cost * count
}

/// The rule of a purchase: the first reason to refuse it, or what it costs.
pub open spec fn purchase_rule(
    count: i32,
    reward: Option<Reward>,
    current_count: i32,
    coins_earned: i32,
    coins_spent: i32,
) -> Result<int, Refusal> {
    if count <= 0 {
        Err(Refusal::CountNotPositive)
    } else {
        match reward {
            None => Err(Refusal::RewardNotFound),
            Some(reward) => if stock_is_short(reward, count) {
                Err(Refusal::InsufficientStock)
            } else if limit_is_exceeded(reward, current_count, count) {
                Err(Refusal::TradeLimitExceeded)
            } else if total_cost(reward, count) > coins_earned - coins_spent {
                Err(Refusal::InsufficientCoins)
            } else {
                Ok(total_cost(reward, count))
            },
        }
    }
}

/// Refuses a count that is not positive.
pub fn check_count(count: i32) -> (refusal: Option<Refusal>)
    ensures
        refusal == (if count <= 0 {
            Some(Refusal::CountNotPositive)
        } else {
            None
        }),
{
    if count <= 0 {
        Some(Refusal::CountNotPositive)
    } else {
        None
    }
}

/// Refuses a reward that does not exist or whose stock is short.
pub fn check_stock(reward: &Option<Reward>, count: i32) -> (refusal: Option<Refusal>)
    ensures
        refusal == (match *reward {
            None => Some(Refusal::RewardNotFound),
            Some(r) => if stock_is_short(r, count) {
                Some(Refusal::InsufficientStock)
            } else {
                None
            },
        }),
{
    match reward {
        None => Some(Refusal::RewardNotFound),
        Some(r) => if r.stock >= 0 && count > r.stock {
            Some(Refusal::InsufficientStock)
        } else {
            None
        },
    }
}

/// Refuses a purchase that would exceed the trade limit of the reward.
pub fn check_trade_limit(
    reward: &Reward,
    current_count: i32,
    count: i32,
) -> (refusal: Option<Refusal>)
    ensures
        refusal == (if limit_is_exceeded(*reward, current_count, count) {
            Some(Refusal::TradeLimitExceeded)
        } else {
            None
        }),
{
    if reward.trade_limit >= 0 && current_count as i64 + count as i64 > reward.trade_limit as i64 {
        Some(Refusal::TradeLimitExceeded)
    } else {
        None
    }
}

/// What `count` of a reward cost.
pub fn cost_of(reward: &Reward, count: i32) -> (cost: i64)
    ensures
        cost == total_cost(*reward, count),
{
    assert(-0x4000_0000_0000_0000 <= (reward.cost as int) * (count as int)
        <= 0x4000_0000_0000_0000) by (nonlinear_arith)
        requires
            -0x8000_0000 <= reward.cost as int <= 0x7fff_ffff,
            -0x8000_0000 <= count as int <= 0x7fff_ffff,
    ;
    reward.cost as i64 * count as i64
}

/// Refuses a purchase that costs more coins than the user has, and else
/// gives what it costs.
pub fn check_coins(
    reward: &Reward,
    count: i32,
    coins_earned: i32,
    coins_spent: i32,
) -> (cost: Result<i64, Refusal>)
    ensures
        match cost {
            Ok(total) => total == total_cost(*reward, count) && total <= coins_earned
                - coins_spent,
            Err(refusal) => refusal == Refusal::InsufficientCoins && total_cost(*reward, count)
                > coins_earned - coins_spent,
        },
{
    let available: i64 = coins_earned as i64 - coins_spent as i64;
    let total = cost_of(reward, count);
    if total > available {
        Err(Refusal::InsufficientCoins)
    } else {
        Ok(total)
    }
}

/// Decides a purchase by the rule: the first reason to refuse it, or what
/// it costs.
pub fn decide_purchase(
    count: i32,
    reward: &Option<Reward>,
    current_count: i32,
    coins_earned: i32,
    coins_spent: i32,
) -> (decision: Result<i64, Refusal>)
    ensures
        match decision {
            Ok(total) => purchase_rule(count, *reward, current_count, coins_earned, coins_spent)
                == Ok::<int, Refusal>(total as int),
            Err(refusal) => purchase_rule(count, *reward, current_count, coins_earned, coins_spent)
                == Err::<int, Refusal>(refusal),
        },
{
    if let Some(refusal) = check_count(count) {
        return Err(refusal);
    }
    if let Some(refusal) = check_stock(reward, count) {
        return Err(refusal);
    }
    match reward {
        Some(r) => {
            if let Some(refusal) = check_trade_limit(r, current_count, count) {
                return Err(refusal);
            }
            check_coins(r, count, coins_earned, coins_spent)
        },
        None => Err(Refusal::RewardNotFound),
    }
}

/// The answer to a purchase that is refused.
pub fn purchase_refused(refusal: Refusal) -> (response: CreateTransactionResponse)
    ensures
        !response.success,
        response.message@ == refusal_text(refusal),
        response.transaction is None,
{
    CreateTransactionResponse {
        success: false,
        message: refusal_message(refusal),
        transaction: None,
    }
}

/// The answer to a purchase that was made.
pub fn purchase_made(
    transaction: Transaction,
    total_cost: i64,
) -> (response: CreateTransactionResponse)
    ensures
        response.success,
        response.message@ == "Transaction successful"@,
        response.transaction == Some(
            TransactionResponse {
                transaction_id: transaction.id,
                reward_name: transaction.reward_name,
                count: transaction.count,
                total_cost,
                status: transaction.status,
            },
        ),
{
    CreateTransactionResponse {
        success: true,
        message: String::from_str("Transaction successful"),
        transaction: Some(
            TransactionResponse {
                transaction_id: transaction.id,
                reward_name: transaction.reward_name,
                count: transaction.count,
                total_cost,
                status: transaction.status,
            },
        ),
    }
}

/// What to do with a request to cancel a purchase.
#[derive(Clone, Copy, Debug, PartialEq, Eq, Structural)]
pub enum Cancellation {
    /// There is no such purchase.
    NotFound,
    /// The purchase belongs to another user.
    Forbidden,
    /// The purchase is no longer pending.
    NotCancellable,
    /// The purchase may be deleted.
    Delete,
}

/// The rule of a cancellation: only the user who made a purchase cancels
/// it, and only while it is pending, which is the status that a purchase is
/// made with.
pub open spec fn cancellation_rule(
    transaction: Option<Transaction>,
    user_id: Seq<char>,
) -> Cancellation {
    match transaction {
        None => Cancellation::NotFound,
        Some(t) => if t.user_id@ != user_id {
            Cancellation::Forbidden
        } else if t.status@ != "pending"@ {
            Cancellation::NotCancellable
        } else {
            Cancellation::Delete
        },
    }
}

/// Decides a request of `user_id` to cancel a purchase.
pub fn decide_cancellation(
    transaction: &Option<Transaction>,
    user_id: &str,
) -> (decision: Cancellation)
    ensures
        decision == cancellation_rule(*transaction, user_id@),
{
    match transaction {
        None => Cancellation::NotFound,
        Some(t) => if !same_text(t.user_id.as_str(), user_id) {
            Cancellation::Forbidden
        } else if !same_text(t.status.as_str(), new_status()) {
            Cancellation::NotCancellable
        } else {
            Cancellation::Delete
        },
    }
}

/// The answer to a cancellation that is refused with a message; a
/// forbidden one is refused by the transport, and one that may go on has no
/// answer yet.
pub fn cancellation_refused(decision: Cancellation) -> (response: Option<CancelTransactionResponse>)
    ensures
        match decision {
            Cancellation::NotFound => response matches Some(r) && !r.success && r.message@
                == "Transaction not found"@,
            Cancellation::NotCancellable => response matches Some(r) && !r.success && r.message@
                == "Cannot cancel completed transactions"@,
            _ => response is None,
        },
{
    match decision {
        Cancellation::NotFound => Some(
            CancelTransactionResponse {
                success: false,
                message: String::from_str("Transaction not found"),
            },
        ),
        Cancellation::NotCancellable => Some(
            CancelTransactionResponse {
                success: false,
                message: String::from_str("Cannot cancel completed transactions"),
            },
        ),
        _ => None,
    }
}

/// The answer to a cancellation after the store was asked to delete the
/// purchase.
pub fn cancellation_done(deleted: bool) -> (response: CancelTransactionResponse)
    ensures
        response.success == deleted,
        response.message@ == (if deleted {
            "Transaction cancelled successfully"@
        } else {
            "Failed to cancel transaction"@
        }),
{
    if deleted {
        CancelTransactionResponse {
            success: true,
            message: String::from_str("Transaction cancelled successfully"),
        }
    } else {
        CancelTransactionResponse {
            success: false,
            message: String::from_str("Failed to cancel transaction"),
        }
    }
}

/// What is known of a purchase while it is decided: each fact is absent
/// until the store was asked for it.
#[derive(Debug, PartialEq, Eq)]
pub struct PurchaseFacts {
    /// The reward by its name, or that there is none.
    pub reward: Option<Option<Reward>>,
    /// How many of the reward the user holds.
    pub current_count: Option<i32>,
    /// The coins that the user earned and spent.
    pub coins: Option<(i32, i32)>,
}

/// What to do next with a request to buy.
#[derive(Debug, PartialEq, Eq)]
pub enum PurchaseStep {
    /// Answer with the refusal; nothing is recorded.
    Refuse(Refusal),
    /// Ask for the reward.
    AskReward,
    /// Ask how many of the reward the user holds.
    AskCount,
    /// Ask for the coins that the user earned and spent.
    AskCoins,
    /// Record the purchase, at this cost.
    Create(i64),
}

/// The order in which a purchase is decided: the count first, then the
/// reward and its stock, then the trade limit, then the coins. Each fact is
/// asked for only when the checks before it passed, and the purchase is
/// recorded only when none refused it.
pub open spec fn purchase_step(count: i32, facts: PurchaseFacts) -> PurchaseStep {
    if count <= 0 {
        PurchaseStep::Refuse(Refusal::CountNotPositive)
    } else {
        match facts.reward {
            None => PurchaseStep::AskReward,
            Some(None) => PurchaseStep::Refuse(Refusal::RewardNotFound),
            Some(Some(reward)) => if stock_is_short(reward, count) {
                PurchaseStep::Refuse(Refusal::InsufficientStock)
            } else {
                match facts.current_count {
                    None => PurchaseStep::AskCount,
                    Some(current_count) => if limit_is_exceeded(reward, current_count, count) {
                        PurchaseStep::Refuse(Refusal::TradeLimitExceeded)
                    } else {
                        match facts.coins {
                            None => PurchaseStep::AskCoins,
                            Some((earned, spent)) => if total_cost(reward, count) > earned
                                - spent {
                                PurchaseStep::Refuse(Refusal::InsufficientCoins)
                            } else {
                                PurchaseStep::Create(total_cost(reward, count) as i64)
                            },
                        }
                    },
                }
            },
        }
    }
}

/// The next step of a request to buy `count` of a reward, from what is
/// known so far.
pub fn next_purchase_step(count: i32, facts: &PurchaseFacts) -> (step: PurchaseStep)
    ensures
        step == purchase_step(count, *facts),
{
    if let Some(refusal) = check_count(count) {
        return PurchaseStep::Refuse(refusal);
    }
    match &facts.reward {
        None => PurchaseStep::AskReward,
        Some(found) => {
            if let Some(refusal) = check_stock(found, count) {
                return PurchaseStep::Refuse(refusal);
            }
            match found {
                None => PurchaseStep::Refuse(Refusal::RewardNotFound),
                Some(reward) => match facts.current_count {
                    None => PurchaseStep::AskCount,
                    Some(current_count) => {
                        if let Some(refusal) = check_trade_limit(reward, current_count, count) {
                            return PurchaseStep::Refuse(refusal);
                        }
                        match facts.coins {
                            None => PurchaseStep::AskCoins,
                            Some((earned, spent)) => match check_coins(
                                reward,
                                count,
                                earned,
                                spent,
                            ) {
                                Ok(total) => PurchaseStep::Create(total),
                                Err(refusal) => PurchaseStep::Refuse(refusal),
                            },
                        }
                    },
                },
            }
        },
    }
}

/// Once everything is known, the steps end as the rule of a purchase says:
/// with its first reason to refuse, or with the purchase at its cost, which
/// the user's coins cover.
pub proof fn lemma_steps_follow_the_rule(
    count: i32,
    reward: Option<Reward>,
    current_count: i32,
    coins_earned: i32,
    coins_spent: i32,
)
    ensures
        match purchase_rule(count, reward, current_count, coins_earned, coins_spent) {
            Ok(cost) => purchase_step(
                count,
                PurchaseFacts {
                    reward: Some(reward),
                    current_count: Some(current_count),
                    coins: Some((coins_earned, coins_spent)),
                },
            ) == PurchaseStep::Create(cost as i64) && cost <= coins_earned - coins_spent && (
            reward matches Some(r) && cost == r.cost * count),
            Err(refusal) => purchase_step(
                count,
                PurchaseFacts {
                    reward: Some(reward),
                    current_count: Some(current_count),
                    coins: Some((coins_earned, coins_spent)),
                },
            ) == PurchaseStep::Refuse(refusal),
        },
{
}

/// A purchase is recorded only when everything was asked for and nothing
/// refuses it: the count is positive, the reward exists, its stock and
/// trade limit allow the count, and the cost, which is the cost of the
/// reward times the count, is within the coins that the user has left.
pub proof fn lemma_recorded_purchase_is_covered(count: i32, facts: PurchaseFacts, cost: i64)
    requires
        purchase_step(count, facts) == PurchaseStep::Create(cost),
    ensures
        count > 0,
        facts.reward matches Some(Some(reward)) && facts.current_count matches Some(current_count)
            && facts.coins matches Some((earned, spent)) && !stock_is_short(reward, count)
            && !limit_is_exceeded(reward, current_count, count) && cost == reward.cost * count
            && cost <= earned - spent,
{
    let reward = facts.reward->0->0;
    assert(-0x4000_0000_0000_0000 <= (reward.cost as int) * (count as int)
        <= 0x4000_0000_0000_0000) by (nonlinear_arith)
        requires
            -0x8000_0000 <= reward.cost as int <= 0x7fff_ffff,
            -0x8000_0000 <= count as int <= 0x7fff_ffff,
    ;
}

/// Tells the cache whether the coins of `user_id` changed: where they did,
/// what the cache holds for the user and the whole leaderboard are
/// invalidated; where they did not, the cache is left as it is.
pub fn settle_coins(cache: &mut CacheManager, user_id: &str, changed: bool)
    ensures
        changed ==> was_cleared_for_coins(*old(cache), *final(cache), user_id@),
        !changed ==> *final(cache) == *old(cache),
{
    if changed {
        cache.invalidate_user_and_leaderboard(user_id);
    }
}

/// Ends a request to buy after the store was asked to record the purchase.
/// A recorded purchase is answered as made, at `cost`, and the cache is
/// told that the user's coins changed; a failure of the store is passed
/// on, and the cache is left as it is.
pub fn conclude_purchase(
    cache: &mut CacheManager,
    user_id: &str,
    cost: i64,
    created: Result<Transaction, StoreError>,
) -> (answer: Result<CreateTransactionResponse, StoreError>)
    ensures
        match created {
            Ok(transaction) => {
                &&& answer matches Ok(response)
                &&& response.success
                &&& response.message@ == "Transaction successful"@
                &&& response.transaction == Some(
                    TransactionResponse {
                        transaction_id: transaction.id,
                        reward_name: transaction.reward_name,
                        count: transaction.count,
                        total_cost: cost,
                        status: transaction.status,
                    },
                )
                &&& was_cleared_for_coins(*old(cache), *final(cache), user_id@)
            },
            Err(error) => answer == Err::<CreateTransactionResponse, StoreError>(error)
                && *final(cache) == *old(cache),
        },
{
    match created {
        Ok(transaction) => {
            settle_coins(cache, user_id, true);
            Ok(purchase_made(transaction, cost))
        },
        Err(error) => Err(error),
    }
}

/// Ends a request to cancel after the store was asked to delete the
/// purchase: the cache is told that the user's coins changed exactly when
/// the purchase was deleted.
pub fn conclude_cancellation(
    cache: &mut CacheManager,
    user_id: &str,
    deleted: Result<bool, StoreError>,
) -> (answer: Result<CancelTransactionResponse, StoreError>)
    ensures
        match deleted {
            Ok(gone) => {
                &&& answer matches Ok(response)
                &&& response.success == gone
                &&& response.message@ == (if gone {
                    "Transaction cancelled successfully"@
                } else {
                    "Failed to cancel transaction"@
                })
                &&& gone ==> was_cleared_for_coins(*old(cache), *final(cache), user_id@)
                &&& !gone ==> *final(cache) == *old(cache)
            },
            Err(error) => answer == Err::<CancelTransactionResponse, StoreError>(error)
                && *final(cache) == *old(cache),
        },
{
    match deleted {
        Ok(gone) => {
            settle_coins(cache, user_id, gone);
            Ok(cancellation_done(gone))
        },
        Err(error) => Err(error),
    }
}

} // verus!
