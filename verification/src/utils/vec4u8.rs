//! Pixels of four bytes, stored as four planes.
use vstd::prelude::*;

verus! {

/// `len` pixels of four channels. The bytes hold all first channels, then all second channels, and
/// so on; bytes past the last whole pixel are kept and mean nothing.
#[derive(Debug)]
pub struct Vec4u8s {
    pub bytes: Vec<u8>,
}

impl View for Vec4u8s {
    type V = Seq<u8>;

    open spec fn view(&self) -> Seq<u8> {
        self.bytes@
    }
}

/// The number of whole pixels in `bytes`.
pub open spec fn pixel_count(bytes: Seq<u8>) -> nat {
    bytes.len() / 4
}

/// Channel `c` of pixel `i` where the planes are stored one after the other.
pub open spec fn plane_byte(bytes: Seq<u8>, c: int, i: int) -> u8 {
    bytes[c * pixel_count(bytes) + i]
}

impl Vec4u8s {
    pub fn from_bytes(bytes: Vec<u8>) -> (r: Self)
        ensures
            r@ == bytes@,
    {
        Vec4u8s { bytes }
    }

    /// The number of pixels.
    pub fn len(&self) -> (r: usize)
        ensures
            r == pixel_count(self@),
    {
        self.bytes.len() / 4
    }

    pub fn is_empty(&self) -> (r: bool)
        ensures
            r == (pixel_count(self@) == 0),
    {
        self.len() == 0
    }
}

impl Clone for Vec4u8s {
    fn clone(&self) -> (r: Self)
        ensures
            r@ == self@,
    {
        let bytes = self.bytes.clone();
        assert(bytes@ =~= self.bytes@);
        Vec4u8s { bytes }
    }
}

} // verus!
