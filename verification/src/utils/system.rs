//! What the host system offers.
use vstd::prelude::*;

verus! {

/// The kind of system that a program runs on. Only some have Unix domain sockets.
#[derive(Debug, Clone, Copy, PartialEq, Eq, Structural)]
pub enum SystemFamily {
    Unix,
    Other,
}

} // verus!
