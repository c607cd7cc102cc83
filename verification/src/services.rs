//! The services over the backing store.

pub mod completion;
pub mod leaderboard;
pub mod reward;
pub mod storage;
pub mod traits;
pub mod transaction;
