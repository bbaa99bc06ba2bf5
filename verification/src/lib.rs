//! A deterministic state-transition engine for a referral-based gift-card
//! sales ledger.
//!
//! Buyers purchase fixed-denomination gift cards; each purchase splits the
//! payment among a referrer (commission), a withheld bonus share, and the
//! founder/treasury (residual), and records a referral relationship into a
//! capacity-bounded referral structure. Placement applies a deterministic
//! first-fit spillover search when a referrer is saturated.
//!
//! The engine itself is pure: every transition takes the ledger state by
//! exclusive reference together with plain values (caller identity, amount,
//! timestamp) and either mutates the state and returns an event describing
//! the value movements the environment must perform, or rejects the call
//! with a typed error and leaves the state untouched. Account custody,
//! transfer execution, clock reads and event delivery belong to the hosting
//! environment.

pub mod config;
pub mod errors;
pub mod events;
pub mod ops;
pub mod placement;
pub mod principal;
pub mod split;
pub mod state;
