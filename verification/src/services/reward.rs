//! The stock of rewards: how a purchase and a return change it.

use vstd::prelude::*;
use vstd::string::*;
use crate::entities::{Reward, StoreError};

verus! {

/// The stock that stands for "not tracked".
pub open spec fn untracked() -> i32 {
    -1i32
}

/// What to do with the stock of a reward.
#[derive(Clone, Copy, Debug, PartialEq, Eq, Structural)]
pub enum StockChange {
    /// The stock is not tracked and stays as it is.
    Keep,
    /// The stock becomes the given number.
    Become(i32),
}

/// The rule of taking `amount` from the stock of a reward: an untracked
/// stock stays; a tracked stock goes down by `amount`, and must not go below
/// zero.
pub open spec fn decrement_rule(stock: i32, amount: i32) -> Option<StockChange> {
    if stock == untracked() {
        Some(StockChange::Keep)
    } else if stock - amount < 0 {
        None
    } else {
        Some(StockChange::Become((stock - amount) as i32))
    }
}

/// The rule of adding `amount` to the stock of a reward: an untracked stock
/// stays; a tracked stock goes up by `amount`.
pub open spec fn increment_rule(stock: i32, amount: i32) -> StockChange {
    if stock == untracked() {
        StockChange::Keep
    } else {
        StockChange::Become((stock + amount) as i32)
    }
}

/// What taking `amount` from the stock of a reward does to it, or the
/// failure where the stock does not cover `amount`.
pub fn decrement_stock(reward: &Reward, amount: i32) -> (change: Result<StockChange, StoreError>)
    requires
        reward.stock != untracked() ==> i32::MIN <= reward.stock - amount <= i32::MAX,
    ensures
        match change {
            Ok(c) => decrement_rule(reward.stock, amount) == Some(c),
            Err(error) => decrement_rule(reward.stock, amount) is None && (
            error matches StoreError::Custom(message) && message@
                == "Insufficient stock for transaction"@),
        },
{
    if reward.stock != -1 {
        let new_stock: i32 = reward.stock - amount;
        if new_stock < 0 {
            Err(StoreError::Custom(String::from_str("Insufficient stock for transaction")))
        } else {
            Ok(StockChange::Become(new_stock))
        }
    } else {
        Ok(StockChange::Keep)
    }
}

/// What adding `amount` to the stock of a reward does to it.
pub fn increment_stock(reward: &Reward, amount: i32) -> (change: StockChange)
    requires
        reward.stock != untracked() ==> i32::MIN <= reward.stock + amount <= i32::MAX,
    ensures
        change == increment_rule(reward.stock, amount),
{
    if reward.stock != -1 {
        StockChange::Become(reward.stock + amount)
    } else {
        StockChange::Keep
    }
}

/// The reward with its stock changed.
pub fn with_stock(reward: Reward, change: StockChange) -> (changed: Reward)
    ensures
        changed == (Reward {
            stock: match change {
                StockChange::Keep => reward.stock,
                StockChange::Become(stock) => stock,
            },
            ..reward
        }),
{
    match change {
        StockChange::Keep => reward,
        StockChange::Become(stock) => Reward {
            name: reward.name,
            cost: reward.cost,
            stock,
            trade_limit: reward.trade_limit,
        },
    }
}

} // verus!
