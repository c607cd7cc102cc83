//! Completing a challenge: when a completion is refused, and what the user
//! is told.

use vstd::prelude::*;
use vstd::string::*;
use crate::entities::{Challenge, Completion, FixedPoint, Timestamp};
use crate::text::{text_contains, text_occurs_in};

verus! {

/// A completion as the user gets it.
#[derive(Debug, PartialEq, Eq)]
pub struct CompletionResponse {
    pub challenge_name: String,
    pub completed_at: Timestamp,
    pub coins_earned: i32,
}

/// The answer to a request to complete a challenge.
#[derive(Debug, PartialEq, Eq)]
pub struct CreateCompletionResponse {
    pub success: bool,
    pub message: String,
    pub completion: Option<CompletionResponse>,
}

/// Why a completion is refused.
#[derive(Clone, Copy, Debug, PartialEq, Eq, Structural)]
pub enum CompletionRefusal {
    ChallengeNotFound,
    NotYetUnlocked,
    InvalidCode,
    AlreadyCompleted,
    TooFar,
}

/// What the user is told of a refusal.
pub open spec fn completion_refusal_text(refusal: CompletionRefusal) -> Seq<char> {
    match refusal {
        CompletionRefusal::ChallengeNotFound => "Challenge not found"@,
        CompletionRefusal::NotYetUnlocked => "Challenge is not yet unlocked"@,
        CompletionRefusal::InvalidCode => "Invalid verification code"@,
        CompletionRefusal::AlreadyCompleted => "Challenge already completed"@,
        CompletionRefusal::TooFar => "You are not close enough to the challenge location"@,
    }
}

/// The rule of what is checked before the store is asked whether the user
/// completed the challenge: it exists, it is unlocked at the time `now`, and
/// the code that the user sent holds its secret.
pub open spec fn challenge_rule(
    challenge: Option<Challenge>,
    now: Timestamp,
    verification_code: Seq<char>,
) -> Option<CompletionRefusal> {
    match challenge {
        None => Some(CompletionRefusal::ChallengeNotFound),
        Some(c) => if !c.unlock_timestamp.at_or_before(now) {
            Some(CompletionRefusal::NotYetUnlocked)
        } else if !text_occurs_in(verification_code, c.secret@) {
            Some(CompletionRefusal::InvalidCode)
        } else {
            None
        },
    }
}

/// Checks a challenge and the code sent for it, before the store is asked
/// whether the user completed the challenge.
pub fn check_challenge(
    challenge: &Option<Challenge>,
    now: Timestamp,
    verification_code: &str,
) -> (refusal: Option<CompletionRefusal>)
    ensures
        refusal == challenge_rule(*challenge, now, verification_code@),
{
    match challenge {
        None => Some(CompletionRefusal::ChallengeNotFound),
        Some(c) => if !c.unlock_timestamp.is_at_or_before(&now) {
            Some(CompletionRefusal::NotYetUnlocked)
        } else if !text_contains(verification_code, c.secret.as_str()) {
            Some(CompletionRefusal::InvalidCode)
        } else {
            None
        },
    }
}

/// Refuses a challenge that the user completed before.
pub fn check_repeat(already_completed: bool) -> (refusal: Option<CompletionRefusal>)
    ensures
        refusal == (if already_completed {
            Some(CompletionRefusal::AlreadyCompleted)
        } else {
            None
        }),
{
    if already_completed {
        Some(CompletionRefusal::AlreadyCompleted)
    } else {
        None
    }
}

/// Where a challenge is, for those challenges whose place is checked: the
/// bit patterns of latitude and longitude, and the accuracy.
pub fn checked_place(challenge: &Challenge) -> (place: Option<(u64, u64, FixedPoint)>)
    ensures
        place == (match (
            challenge.latitude_bits,
            challenge.longitude_bits,
            challenge.location_accuracy,
        ) {
            (Some(latitude), Some(longitude), Some(accuracy)) => Some(
                (latitude, longitude, accuracy),
            ),
            _ => None,
        }),
{
    match (challenge.latitude_bits, challenge.longitude_bits, challenge.location_accuracy) {
        (Some(latitude), Some(longitude), Some(accuracy)) => Some((latitude, longitude, accuracy)),
        _ => None,
    }
}

/// The link of the photo as the store keeps it: none where no photo was
/// uploaded.
pub fn stored_link(s3_link: String) -> (link: Option<String>)
    ensures
        link == (if s3_link@.len() > 0 {
            Some(s3_link)
        } else {
            None
        }),
{
    if s3_link.as_str().is_empty() {
        None
    } else {
        Some(s3_link)
    }
}

/// The answer to a completion that is refused.
pub fn completion_refused(refusal: CompletionRefusal) -> (response: CreateCompletionResponse)
    ensures
        !response.success,
        response.message@ == completion_refusal_text(refusal),
        response.completion is None,
{
    let message = match refusal {
        CompletionRefusal::ChallengeNotFound => String::from_str("Challenge not found"),
        CompletionRefusal::NotYetUnlocked => String::from_str("Challenge is not yet unlocked"),
        CompletionRefusal::InvalidCode => String::from_str("Invalid verification code"),
        CompletionRefusal::AlreadyCompleted => String::from_str("Challenge already completed"),
        CompletionRefusal::TooFar => String::from_str(
            "You are not close enough to the challenge location",
        ),
    };
    CreateCompletionResponse { success: false, message, completion: None }
}

/// The answer to a completion that was recorded.
pub fn completion_made(
    completion: Completion,
    coins_earned: i32,
) -> (response: CreateCompletionResponse)
    ensures
        response.success,
        response.message@ == "Challenge completed successfully!"@,
        response.completion == Some(
            CompletionResponse {
                challenge_name: completion.challenge_name,
                completed_at: completion.timestamp,
                coins_earned,
            },
        ),
{
    CreateCompletionResponse {
        success: true,
        message: String::from_str("Challenge completed successfully!"),
        completion: Some(
            CompletionResponse {
                challenge_name: completion.challenge_name,
                completed_at: completion.timestamp,
                coins_earned,
            },
        ),
    }
}

/// What is known of a completion while it is decided: each fact is absent
/// until it was asked for.
#[derive(Debug, PartialEq, Eq)]
pub struct CompletionFacts {
    /// The challenge by its name, or that there is none.
    pub challenge: Option<Option<Challenge>>,
    /// Whether the user completed the challenge before.
    pub already_completed: Option<bool>,
    /// Whether the user is close enough to where the challenge is.
    pub close_enough: Option<bool>,
}

/// What to do next with a request to complete a challenge.
#[derive(Debug, PartialEq, Eq)]
pub enum CompletionStep {
    /// Answer with the refusal; nothing is recorded.
    Refuse(CompletionRefusal),
    /// Ask for the challenge.
    AskChallenge,
    /// Ask whether the user completed the challenge before.
    AskRepeat,
    /// Compare where the user is with where the challenge is: the bit
    /// patterns of its latitude and longitude, and its accuracy.
    ComparePlace(u64, u64, FixedPoint),
    /// Record the completion.
    Record,
}

/// The order in which a completion is decided: the challenge, its unlock
/// time and its secret first; then whether the user completed it before;
/// then, for a challenge whose place is set, whether the user is close
/// enough. Each fact is asked for only when the checks before it passed.
pub open spec fn completion_step(
    facts: CompletionFacts,
    now: Timestamp,
    verification_code: Seq<char>,
) -> CompletionStep {
    match facts.challenge {
        None => CompletionStep::AskChallenge,
        Some(found) => match challenge_rule(found, now, verification_code) {
            Some(refusal) => CompletionStep::Refuse(refusal),
            None => match facts.already_completed {
                None => CompletionStep::AskRepeat,
                Some(true) => CompletionStep::Refuse(CompletionRefusal::AlreadyCompleted),
                Some(false) => match (
                    found->0.latitude_bits,
                    found->0.longitude_bits,
                    found->0.location_accuracy,
                ) {
                    (Some(latitude), Some(longitude), Some(accuracy)) => match facts.close_enough {
                        None => CompletionStep::ComparePlace(latitude, longitude, accuracy),
                        Some(false) => CompletionStep::Refuse(CompletionRefusal::TooFar),
                        Some(true) => CompletionStep::Record,
                    },
                    _ => CompletionStep::Record,
                },
            },
        },
    }
}

/// The next step of a request to complete a challenge, from what is known
/// so far.
pub fn next_completion_step(
    facts: &CompletionFacts,
    now: Timestamp,
    verification_code: &str,
) -> (step: CompletionStep)
    ensures
        step == completion_step(*facts, now, verification_code@),
{
    match &facts.challenge {
        None => CompletionStep::AskChallenge,
        Some(found) => {
            if let Some(refusal) = check_challenge(found, now, verification_code) {
                return CompletionStep::Refuse(refusal);
            }
            match found {
                None => CompletionStep::Refuse(CompletionRefusal::ChallengeNotFound),
                Some(challenge) => match facts.already_completed {
                    None => CompletionStep::AskRepeat,
                    Some(already_completed) => {
                        if let Some(refusal) = check_repeat(already_completed) {
                            return CompletionStep::Refuse(refusal);
                        }
                        match checked_place(challenge) {
                            Some((latitude, longitude, accuracy)) => match facts.close_enough {
                                None => CompletionStep::ComparePlace(latitude, longitude, accuracy),
                                Some(false) => CompletionStep::Refuse(CompletionRefusal::TooFar),
                                Some(true) => CompletionStep::Record,
                            },
                            None => CompletionStep::Record,
                        }
                    },
                },
            }
        },
    }
}

} // verus!
