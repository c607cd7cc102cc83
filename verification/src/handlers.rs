//! What the request handlers decide and compute, apart from the transport
//! that carries their requests and responses.

pub mod admin;
pub mod challenges;
pub mod completion;
pub mod journal;
pub mod leaderboard;
pub mod rewards;
pub mod trade;
pub mod transaction;
pub mod user;
