//! Purchases in the store: what a new purchase holds, and what a user
//! bought and spent in all.

use vstd::prelude::*;
use vstd::string::*;
use crate::entities::{StoreError, TextMap, Timestamp, Transaction};

verus! {

/// The status of a purchase that was just made.
pub fn new_status() -> (status: &'static str)
    ensures
        status@ == "pending"@,
{
    "pending"
}

/// A purchase that was just made, under the given id.
pub fn create_transaction(
    id: String,
    user_id: &str,
    reward_name: &str,
    count: i32,
    now: Timestamp,
) -> (transaction: Transaction)
    ensures
        transaction.id == id,
        transaction.user_id@ == user_id@,
        transaction.reward_name@ == reward_name@,
        transaction.timestamp == now,
        transaction.status@ == "pending"@,
        transaction.count == count,
{
    Transaction {
        id,
        user_id: String::from_str(user_id),
        reward_name: String::from_str(reward_name),
        timestamp: now,
        status: String::from_str(new_status()),
        count,
    }
}

/// How many items of the reward `reward_name` the first `n` purchases hold.
pub open spec fn bought_of(transactions: Seq<Transaction>, reward_name: Seq<char>, n: nat) -> int
    decreases n,
{
    if n == 0 {
        0
    } else {
        bought_of(transactions, reward_name, (n - 1) as nat) + if transactions[n - 1].reward_name@
            == reward_name {
            transactions[n - 1].count as int
        } else {
            0
        }
    }
}

/// The rewards that the first `n` purchases name.
pub open spec fn named_rewards(transactions: Seq<Transaction>, n: nat) -> Set<Seq<char>> {
    Set::new(
        |name: Seq<char>|
            exists|i: int| 0 <= i < n && (#[trigger] transactions[i]).reward_name@ == name,
    )
}

/// No reward holds more among the purchases than their number allows.
pub proof fn lemma_bought_bounds(transactions: Seq<Transaction>, reward_name: Seq<char>, n: nat)
    requires
        n <= transactions.len(),
    ensures
        -0x8000_0000 * n <= bought_of(transactions, reward_name, n) <= 0x7fff_ffff * n,
    decreases n,
{
    if n > 0 {
        lemma_bought_bounds(transactions, reward_name, (n - 1) as nat);
    }
}

/// How many items of each reward a user bought, from their purchases.
pub fn get_user_total_counts(transactions: &Vec<Transaction>) -> (totals: TextMap<i128>)
    ensures
        totals@.dom() == named_rewards(transactions@, transactions@.len()),
        forall|name: Seq<char>| #[trigger]
            totals@.contains_key(name) ==> totals@[name] == bought_of(
                transactions@,
                name,
                transactions@.len(),
            ),
{
    let mut totals: TextMap<i128> = TextMap::new();
    let mut i: usize = 0;
    assert(totals@.dom() =~= named_rewards(transactions@, 0));
    while i < transactions.len()
        invariant
            i <= transactions@.len(),
            totals@.dom() == named_rewards(transactions@, i as nat),
            forall|name: Seq<char>| #[trigger]
                totals@.contains_key(name) ==> totals@[name] == bought_of(
                    transactions@,
                    name,
                    i as nat,
                ),
            forall|name: Seq<char>|
                !(#[trigger] totals@.contains_key(name)) ==> bought_of(
                    transactions@,
                    name,
                    i as nat,
                ) == 0,
        decreases transactions@.len() - i,
    {
        let transaction = &transactions[i];
        let ghost before = totals@;
        let ghost added = transaction.reward_name@;
        proof {
            lemma_bought_bounds(transactions@, added, i as nat);
        }
        let so_far: i128 = match totals.get(transaction.reward_name.as_str()) {
            Some(total) => total,
            None => 0,
        };
        totals.insert(transaction.reward_name.clone(), so_far + transaction.count as i128);
        proof {
            assert(totals@.dom() =~= named_rewards(transactions@, (i + 1) as nat)) by {
                assert forall|name: Seq<char>| totals@.dom().contains(name) implies named_rewards(
                    transactions@,
                    (i + 1) as nat,
                ).contains(name) by {
                    if name == added {
                        assert(transactions@[i as int].reward_name@ == name);
                    } else {
                        assert(before.dom().contains(name));
                        let at = choose|at: int|
                            0 <= at < i && (#[trigger] transactions@[at]).reward_name@ == name;
                        assert(transactions@[at].reward_name@ == name);
                    }
                }
                assert forall|name: Seq<char>|
                    named_rewards(transactions@, (i + 1) as nat).contains(
                        name,
                    ) implies totals@.dom().contains(name) by {
                    let at = choose|at: int|
                        0 <= at < i + 1 && (#[trigger] transactions@[at]).reward_name@ == name;
                    if at < i {
                        assert(named_rewards(transactions@, i as nat).contains(name));
                    }
                }
            }
        }
        i = i + 1;
    }
    totals
}

/// How many items a dorm bought of the reward that dorms buy together: none
/// where the store has no purchases to add up.
pub fn get_ccup_total_purchased(total: Option<i64>) -> (bought: i64)
    ensures
        bought == (match total {
            Some(t) => t,
            None => 0,
        }),
{
    match total {
        Some(t) => t,
        None => 0,
    }
}

/// The sum of the first `n` numbers.
pub open spec fn sum_of(numbers: Seq<i32>, n: nat) -> int
    decreases n,
{
    if n == 0 {
        0
    } else {
        sum_of(numbers, (n - 1) as nat) + numbers[n - 1]
    }
}

/// A sum is no greater than the number of its terms allows.
pub proof fn lemma_sum_bounds(numbers: Seq<i32>, n: nat)
    requires
        n <= numbers.len(),
    ensures
        -0x8000_0000 * n <= sum_of(numbers, n) <= 0x7fff_ffff * n,
    decreases n,
{
    if n > 0 {
        lemma_sum_bounds(numbers, (n - 1) as nat);
    }
}

/// The coins in all of what the store lists: what each completion earned,
/// or what each purchase cost.
pub fn total_coins(coins: &Vec<i32>) -> (total: i128)
    ensures
        total == sum_of(coins@, coins@.len()),
{
    let mut total: i128 = 0;
    let mut i: usize = 0;
    while i < coins.len()
        invariant
            i <= coins@.len(),
            total == sum_of(coins@, i as nat),
        decreases coins@.len() - i,
    {
        proof {
            lemma_sum_bounds(coins@, i as nat);
        }
        total = total + coins[i] as i128;
        i = i + 1;
    }
    total
}

/// Whether a text is the text of a UUID, as `uuid::Uuid::parse_str` reads
/// it.
pub uninterp spec fn is_uuid_text(text: Seq<char>) -> bool;

/// `uuid::Uuid::parse_str`: whether the text parses as a UUID, in any of
/// the forms that the crate writes.
#[verifier::external_body]
fn parses_as_uuid(text: &str) -> (parses: bool)
    ensures
        parses == is_uuid_text(text@),
{
    uuid::Uuid::parse_str(text).is_ok()
}

/// `uuid::Uuid::new_v4`: the text of a fresh random UUID. Nothing is said
/// of it: every call gives another.
#[verifier::external_body]
fn random_uuid() -> (id: String) {
    uuid::Uuid::new_v4().to_string()
}

/// The id of a purchase, from whether its text parses as a UUID: the store
/// is asked only about ids that do.
pub fn transaction_id_from(parses: bool) -> (checked: Result<(), StoreError>)
    ensures
        match checked {
            Ok(_) => parses,
            Err(error) => !parses && (error matches StoreError::Custom(message) && message@
                == "Invalid UUID"@),
        },
{
    if parses {
        Ok(())
    } else {
        Err(StoreError::Custom(String::from_str("Invalid UUID")))
    }
}

/// Checks the id of a purchase before the store is asked about it.
pub fn check_transaction_id(transaction_id: &str) -> (checked: Result<(), StoreError>)
    ensures
        match checked {
            Ok(_) => is_uuid_text(transaction_id@),
            Err(error) => !is_uuid_text(transaction_id@) && (
            error matches StoreError::Custom(message) && message@ == "Invalid UUID"@),
        },
{
    transaction_id_from(parses_as_uuid(transaction_id))
}

/// A purchase that was just made, under a fresh id.
pub fn new_transaction(
    user_id: &str,
    reward_name: &str,
    count: i32,
    now: Timestamp,
) -> (transaction: Transaction)
    ensures
        transaction.user_id@ == user_id@,
        transaction.reward_name@ == reward_name@,
        transaction.timestamp == now,
        transaction.status@ == "pending"@,
        transaction.count == count,
{
    create_transaction(random_uuid(), user_id, reward_name, count, now)
}

/// Whether the store deleted a purchase, from the number of rows that it
/// says it deleted.
pub fn delete_transaction(rows_affected: u64) -> (deleted: bool)
    ensures
        deleted == (rows_affected > 0),
{
    rows_affected > 0
}

} // verus!
