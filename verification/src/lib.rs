//! Consensus core of a leaderless, gossip-based ledger in the
//! hashgraph / virtual-voting family.  Validators append immutable events to
//! a shared DAG; the core derives, from the DAG alone, a causal ancestry
//! relation, per-event rounds, witness designation, a stake-weighted
//! strongly-see relation, and a fame verdict for witnesses.
//!
//! Insertion is a single-writer operation: a host must serialize all
//! `add_event` calls.  Queries on already-inserted events read immutable
//! state (only the fame field transitions, once) and may run concurrently
//! once insertion is serialized.

pub mod ancestry;
pub mod fame;
pub mod graph;
pub mod insert;
pub mod laws;
pub mod model;
pub mod registry;
pub mod seeing;

pub use graph::Graph;
pub use graph::IndexAllocator;
pub use model::ConsensusError;
pub use model::FameStatus;
pub use registry::ValidatorRegistry;
