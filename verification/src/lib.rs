//! A replicated key-value store: commands, their wire encoding, the state
//! machine they drive, and the decisions a Raft node takes on proposals and
//! replication messages.

pub mod api;
pub mod command;
pub mod config;
pub mod laws;
pub mod raft;
pub mod raft_node;
pub mod state_machine;
pub mod text;
pub mod wire;
