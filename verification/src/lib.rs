//! The core of a campus quest backend: a read-through cache with explicit
//! invalidation, and the leaderboard ranking engine that it shields,
//! together with the rules that the endpoints and tools of the backend
//! apply.
//!
//! - [`cache`]: the partitions, the manager that owns them, and the cached
//!   services that put the cache in front of the services over the store.
//! - [`services`]: the capabilities of the store, the ranking engine, and
//!   what the services compute of what the store gives them.
//! - [`handlers`]: what the endpoints decide and answer.
//! - [`entities`]: the records of the store as plain values.
//! - [`seed`], [`export`]: reading tables into the store, and writing the
//!   challenges out.
//! - [`auth`]: claims and administrators.
//! - [`text`], [`sorting`]: texts, numerals and orders that the rest builds
//!   on.

pub mod auth;
pub mod cache;
pub mod entities;
pub mod export;
pub mod handlers;
pub mod seed;
pub mod services;
pub mod sorting;
pub mod text;

pub use auth::AuthClaims;
