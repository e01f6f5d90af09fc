//! Tracks domain-registration expiry for customer accounts: an expiry cache with
//! time-based eviction, per-domain checks that consult the cache before a whois
//! lookup, a priority-ordered report, and the decision whether to send it.
pub mod timestamp;
pub mod errors;
pub mod cache;
pub mod customers;
pub mod checker;
pub mod config;
pub mod policy;
pub mod report;
