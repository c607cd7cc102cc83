//! The reward list: each reward with what the user bought of it.

use vstd::prelude::*;
use crate::entities::{Reward, Timestamp, Transaction};
use crate::handlers::journal::{recency_key, recency_key_of};
use crate::sorting::{ascending_places, as_places, places_ascending};
use crate::text::same_text;

verus! {

/// One purchase as the reward list shows it.
#[derive(Debug, PartialEq, Eq)]
pub struct TransactionDetail {
    pub transaction_id: String,
    pub count: i32,
    pub timestamp: Timestamp,
    pub status: String,
}

/// What a user bought of one reward.
#[derive(Debug, PartialEq, Eq)]
pub struct RewardTransactionInfo {
    pub total_purchased: i128,
    pub incomplete_count: i128,
    pub complete_count: i128,
    pub transactions: Vec<TransactionDetail>,
}

/// A reward as the user gets it.
#[derive(Debug, PartialEq, Eq)]
pub struct RewardResponse {
    pub name: String,
    pub cost: i32,
    pub stock: i32,
    pub trade_limit: i32,
    pub transaction_info: RewardTransactionInfo,
}

/// The list of rewards as the user gets it.
#[derive(Debug, PartialEq, Eq)]
pub struct RewardsListResponse {
    pub rewards: Vec<RewardResponse>,
}

/// The reward that dorms buy together.
pub open spec fn shared_reward() -> Seq<char> {
    "Carnegie Cup Contribution"@
}

/// Whether a reward is the one that dorms buy together.
pub fn is_shared_reward(name: &str) -> (shared: bool)
    ensures
        shared == (name@ == shared_reward()),
{
    same_text(name, "Carnegie Cup Contribution")
}

/// The dorm of a user who named none.
pub fn unknown_dorm() -> (dorm: &'static str)
    ensures
        dorm@ == "Unknown"@,
{
    "Unknown"
}

/// How much of the shared reward a dorm may buy; -1 for a dorm that is not
/// on the list.
pub open spec fn dorm_limit(dorm: Seq<char>) -> i32 {
    if dorm == "Res on Fifth"@ || dorm == "McGill and Boss"@ || dorm == "The Hill"@ || dorm
        == "Hammerschlag"@ {
        4350
    } else if dorm == "Mudge"@ || dorm == "Stever"@ {
        8670
    } else if dorm == "Morewood E-Tower"@ {
        6090
    } else if dorm == "Morewood Gardens"@ {
        4170
    } else if dorm == "Donner"@ {
        6960
    } else if dorm == "Margaret Morrison"@ || dorm == "Whesco"@ {
        8010
    } else {
        -1i32
    }
}

/// How much of the shared reward a dorm may buy.
pub fn ccup_limit_by_dorm(dorm: &str) -> (limit: i32)
    ensures
        limit == dorm_limit(dorm@),
{
    if same_text(dorm, "Res on Fifth") || same_text(dorm, "McGill and Boss") || same_text(
        dorm,
        "The Hill",
    ) || same_text(dorm, "Hammerschlag") {
        4350
    } else if same_text(dorm, "Mudge") || same_text(dorm, "Stever") {
        8670
    } else if same_text(dorm, "Morewood E-Tower") {
        6090
    } else if same_text(dorm, "Morewood Gardens") {
        4170
    } else if same_text(dorm, "Donner") {
        6960
    } else if same_text(dorm, "Margaret Morrison") || same_text(dorm, "Whesco") {
        8010
    } else {
        -1
    }
}

/// Whether a purchase is complete.
pub open spec fn is_complete(transaction: Transaction) -> bool {
    transaction.status@ == "complete"@
}

/// How many items the first `n` purchases hold.
pub open spec fn purchased(transactions: Seq<Transaction>, n: nat) -> int
    decreases n,
{
    if n == 0 {
        0
    } else {
        purchased(transactions, (n - 1) as nat) + transactions[n - 1].count
    }
}

/// How many items the complete ones among the first `n` purchases hold.
pub open spec fn purchased_complete(transactions: Seq<Transaction>, n: nat) -> int
    decreases n,
{
    if n == 0 {
        0
    } else {
        purchased_complete(transactions, (n - 1) as nat) + if is_complete(transactions[n - 1]) {
            transactions[n - 1].count as int
        } else {
            0
        }
    }
}

/// The purchases hold no more than their number allows.
pub proof fn lemma_purchased_bounds(transactions: Seq<Transaction>, n: nat)
    requires
        n <= transactions.len(),
    ensures
        -0x8000_0000 * n <= purchased(transactions, n) <= 0x7fff_ffff * n,
        -0x8000_0000 * n <= purchased_complete(transactions, n) <= 0x7fff_ffff * n,
        -0x8000_0000 * n <= purchased(transactions, n) - purchased_complete(transactions, n)
            <= 0x7fff_ffff * n,
    decreases n,
{
    if n > 0 {
        lemma_purchased_bounds(transactions, (n - 1) as nat);
    }
}

/// A purchase as the reward list shows it.
pub open spec fn detail_of(transaction: Transaction) -> TransactionDetail {
    TransactionDetail {
        transaction_id: transaction.id,
        count: transaction.count,
        timestamp: transaction.timestamp,
        status: transaction.status,
    }
}

/// The keys of purchases by recency.
pub open spec fn purchase_keys(transactions: Seq<Transaction>) -> Seq<i128> {
    Seq::new(transactions.len(), |i: int| recency_key(transactions[i].timestamp))
}

/// The purchases as the reward list shows them: the most recent first,
/// purchases of the same time in the order given.
pub open spec fn details_of(transactions: Seq<Transaction>) -> Seq<TransactionDetail> {
    Seq::new(
        transactions.len(),
        |k: int| detail_of(transactions[ascending_places(purchase_keys(transactions))[k]]),
    )
}

/// What a user bought of one reward, from their purchases of it: the items
/// in all, those of complete purchases and those of the others, and the
/// purchases with the most recent first.
pub fn purchases_summary(transactions: &Vec<Transaction>) -> (info: RewardTransactionInfo)
    ensures
        info.total_purchased == purchased(transactions@, transactions@.len()),
        info.complete_count == purchased_complete(transactions@, transactions@.len()),
        info.incomplete_count == info.total_purchased - info.complete_count,
        info.transactions@ == details_of(transactions@),
{
    let n: usize = transactions.len();
    let mut total: i128 = 0;
    let mut complete: i128 = 0;
    let mut keys: Vec<i128> = Vec::new();
    let mut i: usize = 0;
    while i < n
        invariant
            i <= n,
            n == transactions@.len(),
            total == purchased(transactions@, i as nat),
            complete == purchased_complete(transactions@, i as nat),
            keys@.len() == i,
            forall|j: int| 0 <= j < i ==> keys@[j] == recency_key(transactions@[j].timestamp),
        decreases n - i,
    {
        proof {
            lemma_purchased_bounds(transactions@, i as nat);
        }
        let transaction = &transactions[i];
        total = total + transaction.count as i128;
        if same_text(transaction.status.as_str(), "complete") {
            complete = complete + transaction.count as i128;
        }
        keys.push(recency_key_of(&transaction.timestamp));
        i = i + 1;
    }
    proof {
        lemma_purchased_bounds(transactions@, n as nat);
    }
    assert(keys@ =~= purchase_keys(transactions@));
    let order = places_ascending(&keys);
    let mut details: Vec<TransactionDetail> = Vec::new();
    let mut k: usize = 0;
    while k < order.len()
        invariant
            k <= order@.len(),
            order@.len() == transactions@.len(),
            details@.len() == k,
            as_places(order@) == ascending_places(purchase_keys(transactions@)),
            forall|j: int| 0 <= j < order@.len() ==> #[trigger] order@[j] < transactions@.len(),
            forall|j: int| 0 <= j < k ==> details@[j] == details_of(transactions@)[j],
        decreases order@.len() - k,
    {
        assert(as_places(order@)[k as int] == order@[k as int] as int);
        let transaction = &transactions[order[k]];
        details.push(
            TransactionDetail {
                transaction_id: transaction.id.clone(),
                count: transaction.count,
                timestamp: transaction.timestamp,
                status: transaction.status.clone(),
            },
        );
        k = k + 1;
    }
    assert(details@ =~= details_of(transactions@));
    RewardTransactionInfo {
        total_purchased: total,
        incomplete_count: total - complete,
        complete_count: complete,
        transactions: details,
    }
}

/// A reward as the user gets it. For the reward that dorms buy together,
/// `shared` gives the limit of the user's dorm and what the dorm bought:
/// the limit stands for stock and trade limit, and what the dorm bought for
/// what the user bought in all.
pub fn reward_response(
    reward: &Reward,
    info: RewardTransactionInfo,
    shared: Option<(i32, i64)>,
) -> (response: RewardResponse)
    ensures
        response.name == reward.name,
        response.cost == reward.cost,
        response.transaction_info.incomplete_count == info.incomplete_count,
        response.transaction_info.complete_count == info.complete_count,
        response.transaction_info.transactions == info.transactions,
        match shared {
            Some((limit, bought)) => response.stock == limit && response.trade_limit == limit
                && response.transaction_info.total_purchased == bought,
            None => response.stock == reward.stock && response.trade_limit == reward.trade_limit
                && response.transaction_info.total_purchased == info.total_purchased,
        },
{
    let (stock, trade_limit, total_purchased) = match shared {
        Some((limit, bought)) => (limit, limit, bought as i128),
        None => (reward.stock, reward.trade_limit, info.total_purchased),
    };
    RewardResponse {
        name: reward.name.clone(),
        cost: reward.cost,
        stock,
        trade_limit,
        transaction_info: RewardTransactionInfo {
            total_purchased,
            incomplete_count: info.incomplete_count,
            complete_count: info.complete_count,
            transactions: info.transactions,
        },
    }
}

} // verus!
