//! A verified core for a live-stream alerting client.
//!
//! The library watches a configured set of channels on a streaming platform
//! and decides, for each polled status result, whether a channel has started a
//! new live session, raising exactly one notification per session while
//! suppressing duplicates.  Everything that makes a decision lives here and
//! carries a contract: the watch-list store, the suppression window, the
//! error taxonomy, and the poll-cycle engine.  The surrounding process (HTTP,
//! timers, config files) hands plain values in and carries the decided
//! actions out.

pub mod client;
pub mod config;
pub mod engine;
pub mod error;
pub mod laws;
pub mod suppression;
pub mod watchlist;
