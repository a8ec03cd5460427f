//! Core of a proof-of-stake beacon node's networking layer.
//!
//! Two independent components are provided:
//!
//! * [`observed_attesters`]: an epoch-bounded observation cache answering
//!   "has validator V already been seen attesting in epoch E?", with a
//!   sliding retention window of two epochs.
//! * [`behaviour`]: the network behaviour coordinator, a single-threaded
//!   state machine that multiplexes gossip, RPC, discovery and identify
//!   engine events into one application-level event stream, deduplicates
//!   gossip deliveries, and manages fork-aware topic subscriptions.
//!
//! The protocol engines themselves (gossip mesh, RPC transport, discovery
//! routing table) are external collaborators: the coordinator consumes their
//! events as plain values and emits the commands it wants performed, so the
//! surrounding runtime can drive the real engines.

pub mod behaviour;
pub mod dedup;
pub mod observed_attesters;
pub mod types;
