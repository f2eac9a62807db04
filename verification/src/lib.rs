//! Coordination of a cluster restart: every validator publishes the fork it
//! last voted on, the cluster agrees on the heaviest fork that a supermajority
//! shares, and each validator produces a snapshot of the agreed slot.
//!
//! The library holds the decisions of that protocol as verified functions on
//! plain values. Gossip, the ledger store, replay and the snapshot archives stay
//! with the caller, which hands their results in and carries the actions out.

pub mod hash;
pub mod pubkey;
pub mod string_map;
pub mod text;
pub mod slots;
pub mod progress;
pub mod error;
pub mod root_bank;
pub mod last_voted_fork_slots_aggregate;
pub mod last_voted_fork_slots_phase;
pub mod heaviest_fork;
pub mod heaviest_fork_aggregate;
pub mod state;
pub mod driver;
pub mod snapshot;
pub mod coordinator;
pub mod allocator;
pub mod event_notification_synchronizer;
