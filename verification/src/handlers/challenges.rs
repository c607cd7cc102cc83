//! The challenge list: what a user may see of each challenge, and how each
//! challenge stands for them.

use vstd::prelude::*;
use crate::entities::{Challenge, TextMap, Timestamp};
use crate::text::copy_optional_text;

verus! {

/// How a challenge stands for a user.
#[derive(Clone, Copy, Debug, PartialEq, Eq, Structural)]
pub enum ChallengeStatus {
    Locked,
    Available,
    Completed,
}

/// What a user sees of a challenge once it is unlocked.
#[derive(Debug, PartialEq, Eq)]
pub struct ChallengeDetails {
    pub category: String,
    pub location: String,
    pub scotty_coins: i32,
    pub maps_link: Option<String>,
    pub tagline: String,
    pub description: String,
    pub more_info_link: Option<String>,
}

/// A challenge as a user gets it.
#[derive(Debug, PartialEq, Eq)]
pub struct ChallengeResponse {
    pub name: String,
    pub status: ChallengeStatus,
    pub unlock_timestamp: Timestamp,
    pub completed_at: Option<Timestamp>,
    pub details: Option<ChallengeDetails>,
}

/// The list of challenges as a user gets it.
#[derive(Debug, PartialEq, Eq)]
pub struct ChallengesListResponse {
    pub challenges: Vec<ChallengeResponse>,
}

/// The name of a status as the client reads it.
pub open spec fn status_text(status: ChallengeStatus) -> Seq<char> {
    match status {
        ChallengeStatus::Locked => "locked"@,
        ChallengeStatus::Available => "available"@,
        ChallengeStatus::Completed => "completed"@,
    }
}

/// The name of a status as the client reads it.
pub fn status_name(status: ChallengeStatus) -> (name: &'static str)
    ensures
        name@ == status_text(status),
{
    match status {
        ChallengeStatus::Locked => "locked",
        ChallengeStatus::Available => "available",
        ChallengeStatus::Completed => "completed",
    }
}

/// When a user completed a challenge, where they did.
pub open spec fn completed_when(
    completions: Map<Seq<char>, Timestamp>,
    name: Seq<char>,
) -> Option<Timestamp> {
    if completions.contains_key(name) {
        Some(completions[name])
    } else {
        None
    }
}

/// The rule of the status: completed where the user completed the
/// challenge; else available once it is unlocked; else locked.
pub open spec fn status_rule(
    completed_at: Option<Timestamp>,
    unlock: Timestamp,
    now: Timestamp,
) -> ChallengeStatus {
    if completed_at is Some {
        ChallengeStatus::Completed
    } else if unlock.at_or_before(now) {
        ChallengeStatus::Available
    } else {
        ChallengeStatus::Locked
    }
}

/// What a user sees of a challenge.
pub open spec fn details_of(challenge: Challenge) -> ChallengeDetails {
    ChallengeDetails {
        category: challenge.category,
        location: challenge.location,
        scotty_coins: challenge.scotty_coins,
        maps_link: challenge.maps_link,
        tagline: challenge.tagline,
        description: challenge.description,
        more_info_link: challenge.more_info_link,
    }
}

/// A challenge as a user gets it at the time `now`: its details only once
/// it is unlocked.
pub open spec fn response_rule(
    challenge: Challenge,
    completions: Map<Seq<char>, Timestamp>,
    now: Timestamp,
) -> ChallengeResponse {
    let completed_at = completed_when(completions, challenge.name@);
    ChallengeResponse {
        name: challenge.name,
        status: status_rule(completed_at, challenge.unlock_timestamp, now),
        unlock_timestamp: challenge.unlock_timestamp,
        completed_at,
        details: if challenge.unlock_timestamp.at_or_before(now) {
            Some(details_of(challenge))
        } else {
            None
        },
    }
}

/// How a challenge stands for a user at the time `now`.
pub fn challenge_status(
    completed_at: Option<Timestamp>,
    unlock: Timestamp,
    now: Timestamp,
) -> (status: ChallengeStatus)
    ensures
        status == status_rule(completed_at, unlock, now),
{
    if completed_at.is_some() {
        ChallengeStatus::Completed
    } else if unlock.is_at_or_before(&now) {
        ChallengeStatus::Available
    } else {
        ChallengeStatus::Locked
    }
}

/// A challenge as a user gets it at the time `now`.
pub fn challenge_response(
    challenge: &Challenge,
    completions: &TextMap<Timestamp>,
    now: Timestamp,
) -> (response: ChallengeResponse)
    ensures
        response == response_rule(*challenge, completions@, now),
{
    let completed_at = completions.get(challenge.name.as_str());
    let status = challenge_status(completed_at, challenge.unlock_timestamp, now);
    let details = if challenge.unlock_timestamp.is_at_or_before(&now) {
        Some(
            ChallengeDetails {
                category: challenge.category.clone(),
                location: challenge.location.clone(),
                scotty_coins: challenge.scotty_coins,
                maps_link: copy_optional_text(&challenge.maps_link),
                tagline: challenge.tagline.clone(),
                description: challenge.description.clone(),
                more_info_link: copy_optional_text(&challenge.more_info_link),
            },
        )
    } else {
        None
    };
    ChallengeResponse {
        name: challenge.name.clone(),
        status,
        unlock_timestamp: challenge.unlock_timestamp,
        completed_at,
        details,
    }
}

/// The list of challenges as a user gets it at the time `now`, in the order
/// of the store.
pub fn challenges_list(
    challenges: &Vec<Challenge>,
    completions: &TextMap<Timestamp>,
    now: Timestamp,
) -> (list: ChallengesListResponse)
    ensures
        list.challenges@.len() == challenges@.len(),
        forall|i: int|
            0 <= i < challenges@.len() ==> #[trigger] list.challenges@[i] == response_rule(
                challenges@[i],
                completions@,
                now,
            ),
{
    let mut responses: Vec<ChallengeResponse> = Vec::new();
    let mut i: usize = 0;
    while i < challenges.len()
        invariant
            i <= challenges@.len(),
            responses@.len() == i,
            forall|j: int|
                0 <= j < i ==> #[trigger] responses@[j] == response_rule(
                    challenges@[j],
                    completions@,
                    now,
                ),
        decreases challenges@.len() - i,
    {
        responses.push(challenge_response(&challenges[i], completions, now));
        i = i + 1;
    }
    ChallengesListResponse { challenges: responses }
}

} // verus!
