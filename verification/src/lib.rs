//! Verified core of wprs, a rootless remote desktop transport: wire types, buffer codecs, client
//! state machines and the decisions of its backends. Everything here is pure; sockets, windows,
//! GPUs and processes are driven by the application crate.

pub mod client;
pub mod error;
pub mod launcher;
pub mod models;
pub mod protocols;
pub mod server;
pub mod utils;
