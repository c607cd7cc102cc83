//! The read-through cache: partitions, the manager that owns them, and the
//! cached services that put it in front of the store.
//!
//! One manager holds every partition. A cached service borrows the manager
//! exclusively for as long as it lives, so callers that share a manager
//! take turns; what is said of the cache holds between their turns.
//! Staleness is a matter of invalidation alone: nothing expires by time.
//! A partition that has taken no more values than its capacity since it
//! was made or last cleared holds exactly what was stored and not
//! invalidated; beyond that, the bound on its size is kept by evicting
//! entries at any operation, and only what it does not hold is promised.

pub mod manager;
pub mod partition;
pub mod wrappers;

pub use manager::CacheManager;
pub use wrappers::{
    CachedChallengeService, CachedCompletionService, CachedLeaderboardService, CachedRewardService,
};
