//! The server: what it is set up to do, and what it makes of that.

pub mod config;
pub mod daemon;
pub mod recorder;
