//! Trading coins for a reward at once: when a trade is refused and what it
//! costs.

use vstd::prelude::*;
use vstd::string::*;
use crate::entities::{Reward, Trade};
use crate::handlers::transaction::{
    check_count, cost_of, refusal_message, refusal_text, total_cost, Refusal,
};

verus! {

/// A request to trade coins for `count` of a reward.
#[derive(Debug, PartialEq, Eq)]
pub struct CreateTradeRequest {
    pub reward_name: String,
    pub count: i32,
}

/// A trade as the client gets it.
#[derive(Debug, PartialEq, Eq)]
pub struct TradeResponse {
    pub reward_name: String,
    pub count: i32,
    pub total_cost: i64,
}

/// The answer to a request to trade.
#[derive(Debug, PartialEq, Eq)]
pub struct CreateTradeResponse {
    pub success: bool,
    pub message: String,
    pub trade: Option<TradeResponse>,
}

/// The rule of a trade: the first reason to refuse it, or what it costs.
/// Stock and trade limit always bind.
pub open spec fn trade_rule(
    count: i32,
    reward: Option<Reward>,
    current_count: i32,
    coins_earned: i32,
    coins_spent: i32,
) -> Result<int, Refusal> {
    if count <= 0 {
        Err(Refusal::CountNotPositive)
    } else {
        match reward {
            None => Err(Refusal::RewardNotFound),
            Some(reward) => if count > reward.stock {
                Err(Refusal::InsufficientStock)
            } else if current_count + count > reward.trade_limit {
                Err(Refusal::TradeLimitExceeded)
            } else if total_cost(reward, count) > coins_earned - coins_spent {
                Err(Refusal::InsufficientCoins)
            } else {
                Ok(total_cost(reward, count))
            },
        }
    }
}

/// Decides a trade by the rule: the first reason to refuse it, or what it
/// costs.
pub fn decide_trade(
    count: i32,
    reward: &Option<Reward>,
    current_count: i32,
    coins_earned: i32,
    coins_spent: i32,
) -> (decision: Result<i64, Refusal>)
    ensures
        match decision {
            Ok(total) => trade_rule(count, *reward, current_count, coins_earned, coins_spent)
                == Ok::<int, Refusal>(total as int),
            Err(refusal) => trade_rule(count, *reward, current_count, coins_earned, coins_spent)
                == Err::<int, Refusal>(refusal),
        },
{
    if let Some(refusal) = check_count(count) {
        return Err(refusal);
    }
    match reward {
        None => Err(Refusal::RewardNotFound),
        Some(r) => {
            if count > r.stock {
                return Err(Refusal::InsufficientStock);
            }
            if current_count as i64 + count as i64 > r.trade_limit as i64 {
                return Err(Refusal::TradeLimitExceeded);
            }
            let available: i64 = coins_earned as i64 - coins_spent as i64;
            let total = cost_of(r, count);
            if total > available {
                Err(Refusal::InsufficientCoins)
            } else {
                Ok(total)
            }
        },
    }
}

/// The answer to a trade that is refused.
pub fn trade_refused(refusal: Refusal) -> (response: CreateTradeResponse)
    ensures
        !response.success,
        response.message@ == refusal_text(refusal),
        response.trade is None,
{
    CreateTradeResponse { success: false, message: refusal_message(refusal), trade: None }
}

/// The answer to a trade that was made.
pub fn trade_made(trade: Trade, total_cost: i64) -> (response: CreateTradeResponse)
    ensures
        response.success,
        response.message@ == "Trade successful"@,
        response.trade == Some(
            TradeResponse { reward_name: trade.reward_name, count: trade.count, total_cost },
        ),
{
    CreateTradeResponse {
        success: true,
        message: String::from_str("Trade successful"),
        trade: Some(
            TradeResponse { reward_name: trade.reward_name, count: trade.count, total_cost },
        ),
    }
}

} // verus!
