//! Session-token authentication core: password hashing, a single-use token
//! cache, a sliding-window rate limiter and the account operations built on
//! them.

pub mod auth;
pub mod cache;
pub mod error;
pub mod hasher;
pub mod identity;
pub mod ratelimit;
pub mod store;
pub mod token;
pub mod validate;
pub mod wire;
