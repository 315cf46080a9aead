use vstd::prelude::*;

verus! {

/// How many pixels of a buffer make one unit of the server's coordinates.
#[derive(Debug, Clone, Copy, PartialEq, Eq, Structural)]
pub struct ServerBufferScale(pub i32);

impl ServerBufferScale {
    /// The scale, which is at least one.
    pub fn normalized(self) -> (r: i32)
        ensures
            r == if self.0 < 1 {
                1
            } else {
                self.0
            },
    {
        if self.0 < 1 {
            1
        } else {
            self.0
        }
    }
}

} // verus!
