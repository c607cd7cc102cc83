//! The profile of a user: coins, completions and recent activity.

use vstd::prelude::*;
use crate::entities::{TextMap, Timestamp, User};

verus! {

/// The coins of a user.
#[derive(Debug, PartialEq, Eq)]
pub struct CoinsSummaryResponse {
    pub current: i64,
    pub total_earned: i32,
    pub total_spent: i32,
}

/// How many challenges a user completed, in all and in each category.
#[derive(Debug, PartialEq, Eq)]
pub struct ChallengeCompletionStats {
    pub total: i32,
    pub by_category: TextMap<i32>,
}

/// How many challenges there are, in all and in each category.
#[derive(Debug, PartialEq, Eq)]
pub struct ChallengeTotalStats {
    pub total: i32,
    pub by_category: TextMap<i32>,
}

/// A request to set the dorm of a user.
#[derive(Debug, PartialEq, Eq)]
pub struct UpdateDormRequest {
    pub dorm: Option<String>,
}

/// The profile of a user as they get it.
#[derive(Debug, PartialEq, Eq)]
pub struct UserProfileResponse {
    pub user_id: String,
    pub dorm: Option<String>,
    pub name: String,
    pub scotty_coins: CoinsSummaryResponse,
    pub groups: Vec<String>,
    pub leaderboard_position: i64,
    pub challenges_completed: ChallengeCompletionStats,
    pub total_challenges: ChallengeTotalStats,
    pub recent_activity_days: Vec<Timestamp>,
}

/// The window of recent activity that a profile shows, in days.
pub fn activity_window() -> (days: i64)
    ensures
        days == 7,
{
    7
}

/// The coins of a user: what they have is what they earned less what they
/// spent.
pub fn coins_summary(total_earned: i32, total_spent: i32) -> (summary: CoinsSummaryResponse)
    ensures
        summary.current == total_earned - total_spent,
        summary.total_earned == total_earned,
        summary.total_spent == total_spent,
{
    CoinsSummaryResponse {
        current: total_earned as i64 - total_spent as i64,
        total_earned,
        total_spent,
    }
}

/// The profile of a user, put together from what the services gave.
pub fn get_profile(
    user: User,
    groups: Vec<String>,
    coins_earned: i32,
    coins_spent: i32,
    leaderboard_position: i64,
    user_completions_by_category: TextMap<i32>,
    user_completion_count: i32,
    total_challenges_by_category: TextMap<i32>,
    total_challenge_count: i32,
    recent_activity_days: Vec<Timestamp>,
) -> (profile: UserProfileResponse)
    ensures
        profile.user_id == user.user_id,
        profile.dorm == user.dorm,
        profile.name == user.name,
        profile.scotty_coins.current == coins_earned - coins_spent,
        profile.scotty_coins.total_earned == coins_earned,
        profile.scotty_coins.total_spent == coins_spent,
        profile.groups == groups,
        profile.leaderboard_position == leaderboard_position,
        profile.challenges_completed.total == user_completion_count,
        profile.challenges_completed.by_category == user_completions_by_category,
        profile.total_challenges.total == total_challenge_count,
        profile.total_challenges.by_category == total_challenges_by_category,
        profile.recent_activity_days == recent_activity_days,
{
    UserProfileResponse {
        user_id: user.user_id,
        dorm: user.dorm,
        name: user.name,
        scotty_coins: coins_summary(coins_earned, coins_spent),
        groups,
        leaderboard_position,
        challenges_completed: ChallengeCompletionStats {
            total: user_completion_count,
            by_category: user_completions_by_category,
        },
        total_challenges: ChallengeTotalStats {
            total: total_challenge_count,
            by_category: total_challenges_by_category,
        },
        recent_activity_days,
    }
}

} // verus!
