//! Hosting core for sandboxed WebAssembly applications ("lapps"): the
//! permission gate, the registry with its lifecycle state machine, the call
//! protocol into a loaded instance, gossip delivery decisions and the
//! routing table of the HTTP gateway.
pub mod error;
pub mod frame;
pub mod gateway;
pub mod keyed;
pub mod lapp;
pub mod laws;
pub mod manager;
pub mod permission;
pub mod storage;
