//! Core of a periodic DNS-record reconciler: service state, update cycles,
//! the local control protocol, and the startup/shutdown decisions, all with
//! verified contracts. Network, filesystem and scheduling plumbing live in
//! the surrounding application, which drives these functions.

pub mod addr;
pub mod clock;
pub mod config;
pub mod cycle;
pub mod dispatch;
pub mod ipc_path;
pub mod lifecycle;
pub mod logch;
pub mod state;
pub mod status;
pub mod text;
pub mod wire;
