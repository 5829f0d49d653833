//! A hosted leaderboard: named boards hold player score entries and are
//! guarded by three tiers of secret keys (read, submit, admin).
pub mod auth;
pub mod entry;
pub mod error;
pub mod keys;
pub mod laws;
pub mod store;
pub mod text;
