//! Directory and registration consistency layer for a messaging bot.
//!
//! The crate keeps an in-memory read cache (the directory) consistent with a
//! relational store of users and identity links, and implements the
//! registration protocol that links an external messaging identity to a user
//! exactly once, rejecting conflicting re-use of a one-time start token.

pub mod cache;
pub mod client;
pub mod connection;
pub mod errors;
pub mod handlers;
pub mod healthcheck;
pub mod laws;
pub mod lookup;
pub mod model;
pub mod storage_config;
pub mod store;
pub mod token;
pub mod user_representation;
