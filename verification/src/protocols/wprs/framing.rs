//! How values are laid out in the byte stream.
use crate::error::{Error, ForeignError};
use crate::models::surface::WlSurfaceId;
use crate::utils::text::owned;
use vstd::prelude::*;

verus! {

/// A value with a layout in the byte stream.
pub trait Framed: Sized {
    /// The bytes of the value, or nothing where it has no complete layout.
    spec fn framed(&self) -> Option<Seq<u8>>;

    /// The value at the beginning of `input` and the number of its bytes, if there is one.
    spec fn parsed(input: Seq<u8>) -> Option<(Self, int)>;

    /// How it is told that a value has no complete layout.
    spec fn write_failure(&self, err: Error) -> bool;

    /// How it is told that there is no value at the beginning of `input`.
    spec fn read_failure(input: Seq<u8>, err: Error) -> bool;

    /// Puts the bytes of the value behind `out`.
    fn framed_write(&self, out: &mut Vec<u8>) -> (r: Result<(), Error>)
        ensures
            match self.framed() {
                Some(bytes) => r is Ok && final(out)@ == old(out)@ + bytes,
                None => (r matches Err(err) && self.write_failure(err))
                    && old(out)@.is_prefix_of(final(out)@),
            },
    ;

    /// Reads the value at `at` and says where it ends.
    fn framed_read(input: &[u8], at: usize) -> (r: Result<(Self, usize), Error>)
        requires
            at <= input@.len(),
        ensures
            match Self::parsed(input@.subrange(at as int, input@.len() as int)) {
                Some((value, n)) => r matches Ok((v, end)) && v == value && end == at + n && end
                    <= input@.len(),
                None => r matches Err(err) && Self::read_failure(
                    input@.subrange(at as int, input@.len() as int),
                    err,
                ),
            },
    ;
}

pub open spec fn is_stream_end(err: Error) -> bool {
    err matches Error::Io(f) && f.message@ == "failed to fill whole buffer"@
}

/// The error of a stream that ends too early.
pub fn stream_ended() -> (r: Error)
    ensures
        is_stream_end(r),
{
    Error::Io(ForeignError::new(owned("failed to fill whole buffer")))
}

impl Framed for u8 {
    open spec fn framed(&self) -> Option<Seq<u8>> {
        Some(seq![*self])
    }

    open spec fn parsed(input: Seq<u8>) -> Option<(Self, int)> {
        if input.len() == 0 {
            None
        } else {
            Some((input[0], 1))
        }
    }

    open spec fn write_failure(&self, err: Error) -> bool {
        false
    }

    open spec fn read_failure(input: Seq<u8>, err: Error) -> bool {
        is_stream_end(err)
    }

    fn framed_write(&self, out: &mut Vec<u8>) -> (r: Result<(), Error>) {
        let ghost before = out@;
        out.push(*self);
        assert(out@ =~= before + seq![*self]);
        Ok(())
    }

    fn framed_read(input: &[u8], at: usize) -> (r: Result<(Self, usize), Error>) {
        if at < input.len() {
            Ok((input[at], at + 1))
        } else {
            Err(stream_ended())
        }
    }
}

/// A number from its eight bytes, the most significant first.
pub open spec fn be_value(b: Seq<u8>) -> int {
    b[0] * 0x100_0000_0000_0000 + b[1] * 0x1_0000_0000_0000 + b[2] * 0x100_0000_0000 + b[3]
        * 0x1_0000_0000 + b[4] * 0x100_0000 + b[5] * 0x1_0000 + b[6] * 0x100 + b[7]
}

/// The eight bytes of a number, the most significant first.
pub open spec fn be_bytes(n: u64) -> Seq<u8> {
    seq![
        (n as int / 0x100_0000_0000_0000) as u8,
        (n as int / 0x1_0000_0000_0000 % 256) as u8,
        (n as int / 0x100_0000_0000 % 256) as u8,
        (n as int / 0x1_0000_0000 % 256) as u8,
        (n as int / 0x100_0000 % 256) as u8,
        (n as int / 0x1_0000 % 256) as u8,
        (n as int / 0x100 % 256) as u8,
        (n as int % 256) as u8,
    ]
}

impl Framed for WlSurfaceId {
    open spec fn framed(&self) -> Option<Seq<u8>> {
        Some(be_bytes(self.0))
    }

    open spec fn parsed(input: Seq<u8>) -> Option<(Self, int)> {
        if input.len() < 8 {
            None
        } else {
            Some((WlSurfaceId(be_value(input) as u64), 8))
        }
    }

    open spec fn write_failure(&self, err: Error) -> bool {
        false
    }

    open spec fn read_failure(input: Seq<u8>, err: Error) -> bool {
        is_stream_end(err)
    }

    fn framed_write(&self, out: &mut Vec<u8>) -> (r: Result<(), Error>) {
        let ghost before = out@;
        let n: u64 = self.0;
        out.push((n / 0x100_0000_0000_0000) as u8);
        out.push((n / 0x1_0000_0000_0000 % 256) as u8);
        out.push((n / 0x100_0000_0000 % 256) as u8);
        out.push((n / 0x1_0000_0000 % 256) as u8);
        out.push((n / 0x100_0000 % 256) as u8);
        out.push((n / 0x1_0000 % 256) as u8);
        out.push((n / 0x100 % 256) as u8);
        out.push((n % 256) as u8);
        assert(out@ =~= before + be_bytes(n));
        Ok(())
    }

    fn framed_read(input: &[u8], at: usize) -> (r: Result<(Self, usize), Error>) {
        if input.len() - at < 8 {
            return Err(stream_ended());
        }
        let n: u64 = input[at] as u64 * 0x100_0000_0000_0000 + input[at + 1] as u64
            * 0x1_0000_0000_0000 + input[at + 2] as u64 * 0x100_0000_0000 + input[at + 3] as u64
            * 0x1_0000_0000 + input[at + 4] as u64 * 0x100_0000 + input[at + 5] as u64 * 0x1_0000
            + input[at + 6] as u64 * 0x100 + input[at + 7] as u64;
        Ok((WlSurfaceId(n), at + 8))
    }
}

/// The eight bytes of a number give the number back.
pub proof fn be_round_trip(n: u64)
    ensures
        be_bytes(n).len() == 8,
        be_value(be_bytes(n)) == n,
{
    let a0 = n as int;
    let a1 = a0 / 256;
    let a2 = a1 / 256;
    let a3 = a2 / 256;
    let a4 = a3 / 256;
    let a5 = a4 / 256;
    let a6 = a5 / 256;
    let a7 = a6 / 256;
    assert(a2 == a0 / 0x1_0000);
    assert(a3 == a0 / 0x100_0000) by {
        assert(a3 == a2 / 256);
    }
    assert(a4 == a0 / 0x1_0000_0000);
    assert(a5 == a0 / 0x100_0000_0000);
    assert(a6 == a0 / 0x1_0000_0000_0000);
    assert(a7 == a0 / 0x100_0000_0000_0000);
    assert(a7 < 256);
    let b = be_bytes(n);
    assert(b[0] == a7 && b[1] == a6 % 256 && b[2] == a5 % 256 && b[3] == a4 % 256);
    assert(b[4] == a3 % 256 && b[5] == a2 % 256 && b[6] == a1 % 256 && b[7] == a0 % 256);
}

/// Numbers travel as eight bytes, the most significant first, and are read as such.
pub proof fn numbers_are_big_endian(n: u64, input: Seq<u8>)
    ensures
        WlSurfaceId(n).framed() matches Some(b) && b.len() == 8 && b[0] * 0x100_0000_0000_0000 + b[1]
            * 0x1_0000_0000_0000 + b[2] * 0x100_0000_0000 + b[3] * 0x1_0000_0000 + b[4]
            * 0x100_0000 + b[5] * 0x1_0000 + b[6] * 0x100 + b[7] == n,
        input.len() < 8 ==> WlSurfaceId::parsed(input) is None,
        input.len() >= 8 ==> (WlSurfaceId::parsed(input) matches Some((id, used)) && used == 8
            && input[0] * 0x100_0000_0000_0000 + input[1] * 0x1_0000_0000_0000 + input[2]
            * 0x100_0000_0000 + input[3] * 0x1_0000_0000 + input[4] * 0x100_0000 + input[5]
            * 0x1_0000 + input[6] * 0x100 + input[7] == id.0),
{
    be_round_trip(n);
}

/// A byte travels as it is.
pub proof fn bytes_are_bytes(n: u8, input: Seq<u8>)
    ensures
        n.framed() == Some(seq![n]),
        u8::parsed(input) == (if input.len() == 0 {
            None
        } else {
            Some((input[0], 1int))
        }),
{
}

} // verus!
