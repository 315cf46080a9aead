use vstd::prelude::*;

verus! {

/// A pair with named wire fields.
#[derive(Debug, Clone, Copy, PartialEq, Eq, Structural)]
pub struct Tuple2<A, B>(pub A, pub B);

} // verus!
