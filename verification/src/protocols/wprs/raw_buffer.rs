//! Frame contents that travel beside the surface messages.
use crate::error::Error;
use crate::models::surface::WlSurfaceId;
use crate::protocols::wprs::framing::{be_bytes, be_round_trip, is_stream_end, Framed};
use crate::utils::text::{decimal, owned, push_decimal};
use vstd::prelude::*;

verus! {

/// What the bytes of a raw buffer are.
#[derive(Debug, Clone, Copy, PartialEq, Eq, Structural)]
pub enum RawBufferKind {
    /// Filtered pixel bytes.
    FilteredBgra,
    /// H.264 bitstream bytes.
    H264,
    /// PNG image bytes.
    Png,
    /// JPEG image bytes.
    Jpeg,
}

impl RawBufferKind {
    /// The number that stands for the kind in the stream.
    pub open spec fn number(self) -> u8 {
        match self {
            RawBufferKind::FilteredBgra => 1,
            RawBufferKind::H264 => 2,
            RawBufferKind::Png => 3,
            RawBufferKind::Jpeg => 4,
        }
    }

    pub open spec fn of_number(n: u8) -> Option<Self> {
        if n == 1 {
            Some(RawBufferKind::FilteredBgra)
        } else if n == 2 {
            Some(RawBufferKind::H264)
        } else if n == 3 {
            Some(RawBufferKind::Png)
        } else if n == 4 {
            Some(RawBufferKind::Jpeg)
        } else {
            None
        }
    }

    /// The kind that a number stands for.
    pub fn from_number(n: u8) -> (r: Result<Self, Error>)
        ensures
            match Self::of_number(n) {
                Some(kind) => r == Ok::<Self, Error>(kind),
                None => r matches Err(err) && is_invalid_kind(n, err),
            },
    {
        match n {
            1 => Ok(RawBufferKind::FilteredBgra),
            2 => Ok(RawBufferKind::H264),
            3 => Ok(RawBufferKind::Png),
            4 => Ok(RawBufferKind::Jpeg),
            _ => {
                let mut message = owned("invalid RawBufferKind ");
                push_decimal(&mut message, n as u64);
                Err(Error::InvalidArgument(message))
            },
        }
    }
}

pub open spec fn is_invalid_kind(n: u8, err: Error) -> bool {
    err matches Error::InvalidArgument(message) && message@ == "invalid RawBufferKind "@ + decimal(
        n as nat,
    )
}

impl Framed for RawBufferKind {
    open spec fn framed(&self) -> Option<Seq<u8>> {
        Some(seq![self.number()])
    }

    open spec fn parsed(input: Seq<u8>) -> Option<(Self, int)> {
        if input.len() == 0 {
            None
        } else {
            match Self::of_number(input[0]) {
                Some(kind) => Some((kind, 1)),
                None => None,
            }
        }
    }

    open spec fn write_failure(&self, err: Error) -> bool {
        false
    }

    open spec fn read_failure(input: Seq<u8>, err: Error) -> bool {
        if input.len() == 0 {
            is_stream_end(err)
        } else {
            is_invalid_kind(input[0], err)
        }
    }

    fn framed_write(&self, out: &mut Vec<u8>) -> (r: Result<(), Error>) {
        let n: u8 = match self {
            RawBufferKind::FilteredBgra => 1,
            RawBufferKind::H264 => 2,
            RawBufferKind::Png => 3,
            RawBufferKind::Jpeg => 4,
        };
        n.framed_write(out)
    }

    fn framed_read(input: &[u8], at: usize) -> (r: Result<(Self, usize), Error>) {
        match <u8 as Framed>::framed_read(input, at) {
            Ok((n, end)) => match RawBufferKind::from_number(n) {
                Ok(kind) => Ok((kind, end)),
                Err(err) => Err(err),
            },
            Err(err) => Err(err),
        }
    }
}

#[derive(Debug, Clone, Copy, PartialEq, Eq, Structural)]
pub struct RawBufferHeader {
    pub version: u8,
    pub kind: RawBufferKind,
    /// The surface the buffer is for. Only headers from the second version on say so.
    pub surface: Option<WlSurfaceId>,
}

impl RawBufferHeader {
    pub const V1: u8 = 1;

    pub const V2: u8 = 2;
}

impl Framed for RawBufferHeader {
    open spec fn framed(&self) -> Option<Seq<u8>> {
        if self.version >= 2 {
            match self.surface {
                Some(surface) => Some(
                    seq![self.version, self.kind.number()] + surface.framed()->0,
                ),
                None => None,
            }
        } else {
            Some(seq![self.version, self.kind.number()])
        }
    }

    open spec fn parsed(input: Seq<u8>) -> Option<(Self, int)> {
        if input.len() < 2 {
            None
        } else {
            match RawBufferKind::of_number(input[1]) {
                None => None,
                Some(kind) => if input[0] >= 2 {
                    match WlSurfaceId::parsed(input.subrange(2, input.len() as int)) {
                        Some((surface, n)) => Some(
                            (
                                RawBufferHeader {
                                    version: input[0],
                                    kind,
                                    surface: Some(surface),
                                },
                                2 + n,
                            ),
                        ),
                        None => None,
                    }
                } else {
                    Some((RawBufferHeader { version: input[0], kind, surface: None }, 2))
                },
            }
        }
    }

    open spec fn write_failure(&self, err: Error) -> bool {
        err matches Error::InvalidArgument(message) && message@
            == "RawBufferHeader v2 requires surface"@
    }

    open spec fn read_failure(input: Seq<u8>, err: Error) -> bool {
        if input.len() < 2 || RawBufferKind::of_number(input[1]) is Some {
            is_stream_end(err)
        } else {
            is_invalid_kind(input[1], err)
        }
    }

    fn framed_write(&self, out: &mut Vec<u8>) -> (r: Result<(), Error>) {
        let ghost before = out@;
        let _ = self.version.framed_write(out);
        let _ = self.kind.framed_write(out);
        assert(out@ =~= before + seq![self.version, self.kind.number()]);
        if self.version >= Self::V2 {
            match self.surface {
                Some(surface) => {
                    let _ = surface.framed_write(out);
                    assert(out@ =~= before + (seq![self.version, self.kind.number()]
                        + surface.framed()->0));
                },
                None => {
                    return Err(
                        Error::InvalidArgument(owned("RawBufferHeader v2 requires surface")),
                    );
                },
            }
        }
        Ok(())
    }

    fn framed_read(input: &[u8], at: usize) -> (r: Result<(Self, usize), Error>) {
        let ghost rest = input@.subrange(at as int, input@.len() as int);
        let (version, at2): (u8, usize) = match <u8 as Framed>::framed_read(input, at) {
            Ok(x) => x,
            Err(err) => {
                return Err(err);
            },
        };
        assert(input@.subrange(at2 as int, input@.len() as int) =~= rest.subrange(
            1,
            rest.len() as int,
        ));
        let (kind, at3): (RawBufferKind, usize) = match RawBufferKind::framed_read(input, at2) {
            Ok(x) => x,
            Err(err) => {
                return Err(err);
            },
        };
        assert(input@.subrange(at3 as int, input@.len() as int) =~= rest.subrange(
            2,
            rest.len() as int,
        ));
        if version >= Self::V2 {
            match WlSurfaceId::framed_read(input, at3) {
                Ok((surface, end)) => Ok(
                    (RawBufferHeader { version, kind, surface: Some(surface) }, end),
                ),
                Err(err) => Err(err),
            }
        } else {
            Ok((RawBufferHeader { version, kind, surface: None }, at3))
        }
    }
}

/// One piece of a frame.
#[derive(Debug)]
pub struct CompressedShard {
    pub idx: usize,
    pub compression: bool,
    pub uncompressed_size: usize,
    pub data: Vec<u8>,
}

/// A frame in pieces, each compressed or not.
#[derive(Debug)]
pub struct CompressedShards {
    pub shards: Vec<CompressedShard>,
}

impl CompressedShards {
    pub fn is_empty(&self) -> (r: bool)
        ensures
            r == (self.shards@.len() == 0),
    {
        self.shards.len() == 0
    }
}

#[derive(Debug)]
pub struct RawBufferPayload {
    pub surface: WlSurfaceId,
    pub kind: RawBufferKind,
    pub shards: CompressedShards,
}

#[derive(Debug)]
pub struct RawBufferMessage {
    pub header: RawBufferHeader,
    pub bytes: Vec<u8>,
}

/// Whether a frame is a single piece that is stored as it is.
pub open spec fn is_single_uncompressed(shards: CompressedShards) -> bool {
    &&& shards.shards@.len() == 1
    &&& shards.shards@[0].idx == 0
    &&& !shards.shards@[0].compression
    &&& shards.shards@[0].uncompressed_size == shards.shards@[0].data@.len()
}

/// The bytes of a frame that needs no decompression, or else the frame.
pub fn extract_single_uncompressed_shard(shards: CompressedShards) -> (r: Result<
    Vec<u8>,
    CompressedShards,
>)
    ensures
        match r {
            Ok(bytes) => is_single_uncompressed(shards) && bytes == shards.shards@[0].data,
            Err(same) => !is_single_uncompressed(shards) && same == shards,
        },
{
    if shards.shards.len() != 1 {
        return Err(shards);
    }
    let shard = &shards.shards[0];
    if shard.idx != 0 || shard.compression || shard.uncompressed_size != shard.data.len() {
        return Err(shards);
    }
    let mut shards = shards;
    match shards.shards.pop() {
        Some(shard) => Ok(shard.data),
        None => Err(shards),
    }
}

/// A header is read back from its bytes, whatever follows them. A first version drops the surface.
pub proof fn header_round_trip(header: RawBufferHeader, rest: Seq<u8>)
    requires
        header.framed() is Some,
    ensures
        RawBufferHeader::parsed(header.framed()->0 + rest) == Some(
            (
                RawBufferHeader {
                    surface: if header.version >= 2 {
                        header.surface
                    } else {
                        None
                    },
                    ..header
                },
                header.framed()->0.len() as int,
            ),
        ),
{
    let input = header.framed()->0 + rest;
    assert(input[0] == header.version);
    assert(input[1] == header.kind.number());
    if header.version >= 2 {
        let surface = header.surface->0;
        be_round_trip(surface.0);
        let tail = input.subrange(2, input.len() as int);
        assert(tail.subrange(0, 8) =~= surface.framed()->0);
        assert forall|i: int| 0 <= i < 8 implies tail[i] == surface.framed()->0[i] by {
            assert(tail.subrange(0, 8)[i] == tail[i]);
        }
    }
}

/// The header of a frame: the version, the kind (1 filtered pixels, 2 video, 3 PNG, 4 JPEG) and, from
/// the second version on, the surface.
pub proof fn headers_have_their_layout(header: RawBufferHeader, input: Seq<u8>)
    ensures
        ({
            let kind: u8 = match header.kind {
                RawBufferKind::FilteredBgra => 1,
                RawBufferKind::H264 => 2,
                RawBufferKind::Png => 3,
                RawBufferKind::Jpeg => 4,
            };
            header.framed() == (if header.version < 2 {
                Some(seq![header.version, kind])
            } else {
                match header.surface {
                    Some(surface) => Some(seq![header.version, kind] + be_bytes(surface.0)),
                    None => None,
                }
            })
        }),
        RawBufferHeader::parsed(input) matches Some((read, used)) ==> {
            &&& used == (if input[0] < 2 {
                2int
            } else {
                10int
            })
            &&& used <= input.len()
            &&& read.version == input[0]
            &&& read.kind == (if input[1] == 1 {
                RawBufferKind::FilteredBgra
            } else if input[1] == 2 {
                RawBufferKind::H264
            } else if input[1] == 3 {
                RawBufferKind::Png
            } else {
                RawBufferKind::Jpeg
            })
            &&& 1 <= input[1] <= 4
            &&& (read.surface is Some) == (input[0] >= 2)
        },
        input.len() >= 10 && 1 <= input[1] <= 4 ==> RawBufferHeader::parsed(input) is Some,
{
}

/// Only a frame that is one piece, stored as it is and whole, needs no decompression.
pub proof fn compressed_frames_are_not_taken_as_they_are(shards: CompressedShards)
    requires
        is_single_uncompressed(shards),
    ensures
        shards.shards@.len() == 1,
        shards.shards@[0].idx == 0,
        !shards.shards@[0].compression,
        shards.shards@[0].uncompressed_size == shards.shards@[0].data@.len(),
{
}

} // verus!
