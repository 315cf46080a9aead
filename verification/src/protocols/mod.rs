//! Protocol definitions, one submodule per protocol.

pub mod image;
pub mod rdp;
pub mod video;
pub mod wctl;
pub mod wprs;
