//! A replicated metadata store: the storage side of a consensus node.
//!
//! The crate holds the log of entries, the key/value state machine that
//! committed entries are applied to, snapshots of that state machine, and
//! the decisions a node takes around them. Everything here is plain data and
//! sequential code; locks, transport and the consensus engine itself live
//! with the caller.

pub mod decimal;
pub mod directory;
pub mod error;
pub mod laws;
pub mod log;
pub mod network;
pub mod node;
pub mod state_machine;
pub mod store;
pub mod text_map;
pub mod types;
