//! A single-asset auction state machine.
//!
//! A seller escrows an asset; bidders compete with a bid currency over a
//! fixed time window; the highest qualifying bid at expiry wins the asset
//! and the seller receives the winning amount. Every superseded bidder is
//! refunded immediately when outbid.
//!
//! The state machine here is pure: it owns the auction record, validates
//! every transition, and issues [`Transfer`](auction::Transfer)
//! instructions for an external asset-transfer service to execute. The
//! durable store, the clock, the caller-authorization mechanism and the
//! event channel are collaborators of the embedding environment; the
//! current time and the authorization proof enter each operation as plain
//! arguments.

pub mod auction;
pub mod laws;
pub mod ledger;
