//! What administrators see and do: every challenge with its secret, and the
//! verification of purchases.

use vstd::prelude::*;
use vstd::string::*;
use crate::entities::{Challenge, FixedPoint, TextMap, Timestamp};
use crate::handlers::challenges::{challenge_status, completed_when, status_rule, ChallengeStatus};
use crate::text::copy_optional_text;

verus! {

/// A challenge as an administrator gets it: all of it, locked or not.
#[derive(Debug, PartialEq, Eq)]
pub struct AdminChallengeResponse {
    pub name: String,
    pub category: String,
    pub location: String,
    pub scotty_coins: i32,
    pub maps_link: Option<String>,
    pub tagline: String,
    pub description: String,
    pub more_info_link: Option<String>,
    pub unlock_timestamp: Timestamp,
    pub secret: String,
    pub latitude_bits: Option<u64>,
    pub longitude_bits: Option<u64>,
    pub location_accuracy: Option<FixedPoint>,
    pub status: ChallengeStatus,
    pub completed_at: Option<Timestamp>,
}

/// The list of challenges as an administrator gets it.
#[derive(Debug, PartialEq, Eq)]
pub struct AdminChallengesListResponse {
    pub challenges: Vec<AdminChallengeResponse>,
}

/// A request to mark a purchase as handed over.
#[derive(Debug, PartialEq, Eq)]
pub struct VerifyTransactionRequest {
    pub transaction_id: String,
}

/// The answer to a request to verify a purchase.
#[derive(Debug, PartialEq, Eq)]
pub struct VerifyTransactionResponse {
    pub success: bool,
    pub message: String,
}

/// The status that a verified purchase gets.
pub fn verified_status() -> (status: &'static str)
    ensures
        status@ == "complete"@,
{
    "complete"
}

/// A challenge as an administrator gets it at the time `now`.
pub open spec fn admin_response_rule(
    challenge: Challenge,
    completions: Map<Seq<char>, Timestamp>,
    now: Timestamp,
) -> AdminChallengeResponse {
    let completed_at = completed_when(completions, challenge.name@);
    AdminChallengeResponse {
        name: challenge.name,
        category: challenge.category,
        location: challenge.location,
        scotty_coins: challenge.scotty_coins,
        maps_link: challenge.maps_link,
        tagline: challenge.tagline,
        description: challenge.description,
        more_info_link: challenge.more_info_link,
        unlock_timestamp: challenge.unlock_timestamp,
        secret: challenge.secret,
        latitude_bits: challenge.latitude_bits,
        longitude_bits: challenge.longitude_bits,
        location_accuracy: challenge.location_accuracy,
        status: status_rule(completed_at, challenge.unlock_timestamp, now),
        completed_at,
    }
}

/// A challenge as an administrator gets it at the time `now`.
pub fn admin_challenge_response(
    challenge: &Challenge,
    completions: &TextMap<Timestamp>,
    now: Timestamp,
) -> (response: AdminChallengeResponse)
    ensures
        response == admin_response_rule(*challenge, completions@, now),
{
    let completed_at = completions.get(challenge.name.as_str());
    AdminChallengeResponse {
        name: challenge.name.clone(),
        category: challenge.category.clone(),
        location: challenge.location.clone(),
        scotty_coins: challenge.scotty_coins,
        maps_link: copy_optional_text(&challenge.maps_link),
        tagline: challenge.tagline.clone(),
        description: challenge.description.clone(),
        more_info_link: copy_optional_text(&challenge.more_info_link),
        unlock_timestamp: challenge.unlock_timestamp,
        secret: challenge.secret.clone(),
        latitude_bits: challenge.latitude_bits,
        longitude_bits: challenge.longitude_bits,
        location_accuracy: challenge.location_accuracy,
        status: challenge_status(completed_at, challenge.unlock_timestamp, now),
        completed_at,
    }
}

/// The list of challenges as an administrator gets it at the time `now`, in
/// the order of the store.
pub fn get_all_challenges(
    challenges: &Vec<Challenge>,
    completions: &TextMap<Timestamp>,
    now: Timestamp,
) -> (list: AdminChallengesListResponse)
    ensures
        list.challenges@.len() == challenges@.len(),
        forall|i: int|
            0 <= i < challenges@.len() ==> #[trigger] list.challenges@[i] == admin_response_rule(
                challenges@[i],
                completions@,
                now,
            ),
{
    let mut responses: Vec<AdminChallengeResponse> = Vec::new();
    let mut i: usize = 0;
    while i < challenges.len()
        invariant
            i <= challenges@.len(),
            responses@.len() == i,
            forall|j: int|
                0 <= j < i ==> #[trigger] responses@[j] == admin_response_rule(
                    challenges@[j],
                    completions@,
                    now,
                ),
        decreases challenges@.len() - i,
    {
        responses.push(admin_challenge_response(&challenges[i], completions, now));
        i = i + 1;
    }
    AdminChallengesListResponse { challenges: responses }
}

/// The answer to a request to verify a purchase, by whether the store had
/// the purchase.
pub fn verify_transaction(found: bool) -> (response: VerifyTransactionResponse)
    ensures
        response.success == found,
        response.message@ == (if found {
            "Transaction verified successfully"@
        } else {
            "Transaction not found"@
        }),
{
    if found {
        VerifyTransactionResponse {
            success: true,
            message: String::from_str("Transaction verified successfully"),
        }
    } else {
        VerifyTransactionResponse {
            success: false,
            message: String::from_str("Transaction not found"),
        }
    }
}

} // verus!
