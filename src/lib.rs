//! A fungible-token ledger with owner-granted allowances, verified with Verus.
//!
//! The host (caller identity, persistence, event delivery) stays outside:
//! every operation takes the caller explicitly and returns the event that the
//! host is expected to publish.

pub mod account;
pub mod allowance;
pub mod entries;
pub mod erc20;
pub mod ledger;
