//! Authentication and state guard for a bouldering-gym backend: password
//! hashing, bearer sessions, a per-address login throttle and the dirty-flag
//! bookkeeping of the persisted collections, with the rules for registering,
//! logging in, and keeping the problem and sector collections.

pub mod hasher;
pub mod session;
pub mod throttle;
pub mod models;
pub mod account;
pub mod persist;
pub mod problems;
pub mod sector;
