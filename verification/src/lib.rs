//! A multi-lane Raft consensus core.
//!
//! A process hosts many independent replicated logs ("lanes"). Each lane owns
//! a [`voter::Voter`] (election state machine), a [`command_log::CommandLog`]
//! (replicated entries plus the commit and apply cursors), a membership set,
//! and a deduplication table that guarantees at-most-once application per
//! client request. The modules here hold the decision logic of the engine;
//! transport and durable storage are collaborators that exchange plain values
//! with this crate.

pub mod types;
pub mod log;
pub mod voter;
pub mod election;
pub mod command_log;
pub mod replication;
pub mod heartbeat;
pub mod applier;
pub mod event;
pub mod advance_kern;
pub mod entry_codec;
pub mod ballot_codec;
pub mod membership;
pub mod lane;
pub mod snapshot;
