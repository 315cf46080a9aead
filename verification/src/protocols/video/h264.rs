//! H.264 streams: units behind start codes, as decoders want them, and units behind their lengths,
//! as some encoders give them.
use crate::error::Error;
use crate::protocols::image::pixels::{copy_rows, padded_rows, rows_within};
use crate::utils::text::{decimal, owned, push_decimal};
use vstd::prelude::*;

verus! {

/// A picture: rows of BGRA pixels without gaps.
#[derive(Debug)]
pub struct DecodedFrame {
    pub width: u32,
    pub height: u32,
    pub stride: usize,
    pub bgra: Vec<u8>,
}

/// A number in base 256, the most significant byte first.
pub open spec fn be_value(bytes: Seq<u8>) -> nat
    decreases bytes.len(),
{
    if bytes.len() == 0 {
        0
    } else {
        be_value(bytes.drop_last()) * 256 + bytes.last() as nat
    }
}

pub open spec fn start_code() -> Seq<u8> {
    seq![0u8, 0u8, 0u8, 1u8]
}

/// Units, each behind a start code.
pub open spec fn start_coded(units: Seq<Seq<u8>>) -> Seq<u8>
    decreases units.len(),
{
    if units.len() == 0 {
        Seq::empty()
    } else {
        start_coded(units.drop_last()) + start_code() + units.last()
    }
}

/// Whether a text begins with a start code of four or three bytes.
pub open spec fn is_annexb(data: Seq<u8>) -> bool {
    ||| data.len() >= 4 && data.subrange(0, 4) == start_code()
    ||| data.len() >= 3 && data.subrange(0, 3) == seq![0u8, 0u8, 1u8]
}

/// What is wrong with a packet.
pub enum PacketFault {
    /// A unit is longer than what is left.
    Truncated,
    /// Too few bytes for another length.
    Trailing,
}

/// The units of a packet, each behind its length in `size` bytes. Empty ones do not count.
pub open spec fn packet_units(data: Seq<u8>, size: nat) -> Result<Seq<Seq<u8>>, PacketFault>
    decreases data.len(),
{
    if data.len() < size || size == 0 {
        if data.len() == 0 {
            Ok(Seq::empty())
        } else {
            Err(PacketFault::Trailing)
        }
    } else {
        let len = be_value(data.subrange(0, size as int));
        let end = size + len;
        if end > data.len() {
            Err(PacketFault::Truncated)
        } else {
            match packet_units(data.subrange(end as int, data.len() as int), size) {
                Ok(rest) => if len == 0 {
                    Ok(rest)
                } else {
                    Ok(seq![data.subrange(size as int, end as int)] + rest)
                },
                Err(fault) => Err(fault),
            }
        }
    }
}

/// Sets of parameters, each behind its length in two bytes, and what follows them.
pub open spec fn parameter_sets(data: Seq<u8>, count: nat) -> Option<(Seq<Seq<u8>>, Seq<u8>)>
    decreases count,
{
    if count == 0 {
        Some((Seq::empty(), data))
    } else if data.len() < 2 {
        None
    } else {
        let len = be_value(data.subrange(0, 2));
        let end = 2 + len;
        if end > data.len() {
            None
        } else {
            match parameter_sets(data.subrange(end as int, data.len() as int), (count - 1) as nat) {
                Some((rest, tail)) => Some((seq![data.subrange(2, end as int)] + rest, tail)),
                None => None,
            }
        }
    }
}

/// The description of a stream in which units stand behind their lengths: the number of bytes of a
/// length, and the sets of parameters of sequences and pictures.
pub open spec fn avcc_description(data: Seq<u8>) -> Option<(nat, Seq<Seq<u8>>)> {
    if data.len() < 7 || data[0] != 1 {
        None
    } else {
        let size = (data[4] % 4 + 1) as nat;
        match parameter_sets(data.subrange(6, data.len() as int), (data[5] % 32) as nat) {
            None => None,
            Some((sequences, tail)) => if tail.len() == 0 {
                Some((size, sequences))
            } else {
                match parameter_sets(tail.subrange(1, tail.len() as int), tail[0] as nat) {
                    None => None,
                    Some((pictures, _)) => Some((size, sequences + pictures)),
                }
            },
        }
    }
}

proof fn lemma_start_coded_push(units: Seq<Seq<u8>>, unit: Seq<u8>)
    ensures
        start_coded(units.push(unit)) == start_coded(units) + start_code() + unit,
{
    assert(units.push(unit).drop_last() =~= units);
}

fn push_unit(out: &mut Vec<u8>, data: &[u8], from: usize, to: usize)
    requires
        from <= to <= data@.len(),
    ensures
        final(out)@ == old(out)@ + start_code() + data@.subrange(from as int, to as int),
{
    let ghost before = out@;
    out.push(0);
    out.push(0);
    out.push(0);
    out.push(1);
    let mut i: usize = from;
    assert(out@ =~= before + start_code() + data@.subrange(from as int, from as int));
    while i < to
        invariant
            from <= i <= to <= data@.len(),
            out@ == before + start_code() + data@.subrange(from as int, i as int),
        decreases to - i,
    {
        out.push(data[i]);
        i = i + 1;
        assert(data@.subrange(from as int, i as int) =~= data@.subrange(from as int, i - 1).push(
            data@[i - 1],
        ));
        assert(out@ =~= before + start_code() + data@.subrange(from as int, i as int));
    }
}

proof fn lemma_be_bound(bytes: Seq<u8>)
    requires
        bytes.len() <= 4,
    ensures
        bytes.len() == 0 ==> be_value(bytes) == 0,
        bytes.len() <= 1 ==> be_value(bytes) < 0x100,
        bytes.len() <= 2 ==> be_value(bytes) < 0x1_0000,
        bytes.len() <= 3 ==> be_value(bytes) < 0x100_0000,
        be_value(bytes) < 0x1_0000_0000,
    decreases bytes.len(),
{
    if bytes.len() > 0 {
        lemma_be_bound(bytes.drop_last());
    }
}

/// The number in the `size` bytes from `at` on.
fn read_be_nal_length(data: &[u8], at: usize, size: usize) -> (r: usize)
    requires
        at + size <= data@.len(),
        size <= 4,
    ensures
        r == be_value(data@.subrange(at as int, at + size)),
{
    let total: usize = data.len();
    let mut len: usize = 0;
    let mut i: usize = 0;
    assert(data@.subrange(at as int, at as int) =~= Seq::empty());
    while i < size
        invariant
            i <= size <= 4,
            at + size <= total,
            total == data@.len(),
            len == be_value(data@.subrange(at as int, at + i)),
        decreases size - i,
    {
        let ghost so_far = data@.subrange(at as int, at + i + 1);
        assert(so_far.drop_last() =~= data@.subrange(at as int, at + i));
        assert(so_far.last() == data@[at + i]);
        proof {
            lemma_be_bound(so_far);
        }
        len = len * 256 + data[at + i] as usize;
        i = i + 1;
    }
    len
}

fn begins_with(data: &[u8], a: u8, b: u8, c: u8) -> (r: bool)
    ensures
        r == (data@.len() >= 3 && data@.subrange(0, 3) == seq![a, b, c]),
{
    if data.len() < 3 {
        return false;
    }
    let r = data[0] == a && data[1] == b && data[2] == c;
    let ghost front = data@.subrange(0, 3);
    assert(front[0] == data@[0] && front[1] == data@[1] && front[2] == data@[2]);
    if r {
        assert(front =~= seq![a, b, c]);
    }
    r
}

/// Whether the data begin with a start code.
pub fn looks_like_annexb(data: &[u8]) -> (r: bool)
    ensures
        r == is_annexb(data@),
{
    let four = data.len() >= 4 && begins_with(data, 0, 0, 0) && data[3] == 1;
    proof {
        if data@.len() >= 4 {
            let front = data@.subrange(0, 4);
            let three = data@.subrange(0, 3);
            assert(three[0] == data@[0] && three[1] == data@[1] && three[2] == data@[2]);
            assert(front[0] == data@[0] && front[1] == data@[1] && front[2] == data@[2] && front[3]
                == data@[3]);
            if four {
                assert(front =~= start_code());
            }
            if front == start_code() {
                assert(three =~= seq![0u8, 0u8, 0u8]);
            }
        }
    }
    four || begins_with(data, 0, 0, 1)
}

/// Converts a packet: start codes in place of lengths.
pub fn avcc_packet_to_annexb(data: &[u8], nal_length_size: usize) -> (r: Result<Vec<u8>, Error>)
    ensures
        if 1 <= nal_length_size <= 4 {
            match packet_units(data@, nal_length_size as nat) {
                Ok(units) => r matches Ok(out) && out@ == start_coded(units),
                Err(PacketFault::Truncated) => r matches Err(Error::InvalidArgument(text)) && text@
                    == "truncated avcc packet"@,
                Err(PacketFault::Trailing) => r matches Err(Error::InvalidArgument(text)) && text@
                    == "trailing avcc bytes"@,
            }
        } else {
            r matches Err(Error::InvalidArgument(text)) && text@ == "invalid nal length size "@
                + decimal(nal_length_size as nat)
        },
{
    if nal_length_size < 1 || nal_length_size > 4 {
        let mut text = owned("invalid nal length size ");
        push_decimal(&mut text, nal_length_size as u64);
        return Err(Error::InvalidArgument(text));
    }
    let ghost size = nal_length_size as nat;
    let ghost all = packet_units(data@, size);
    let ghost mut units: Seq<Seq<u8>> = Seq::empty();
    let mut out: Vec<u8> = Vec::new();
    let mut offset: usize = 0;
    assert(data@.subrange(0, data@.len() as int) =~= data@);
    proof {
        if let Ok(rest) = all {
            assert(units + rest =~= rest);
        }
    }
    while data.len() - offset >= nal_length_size
        invariant
            offset <= data@.len(),
            size == nal_length_size,
            1 <= nal_length_size <= 4,
            all == packet_units(data@, size),
            out@ == start_coded(units),
            match packet_units(data@.subrange(offset as int, data@.len() as int), size) {
                Ok(rest) => all == Ok::<Seq<Seq<u8>>, PacketFault>(units + rest),
                Err(fault) => all == Err::<Seq<Seq<u8>>, PacketFault>(fault),
            },
        decreases data@.len() - offset,
    {
        let ghost left = data@.subrange(offset as int, data@.len() as int);
        let len: usize = read_be_nal_length(data, offset, nal_length_size);
        assert(left.subrange(0, size as int) =~= data@.subrange(offset as int, offset + size));
        offset = offset + nal_length_size;
        if len > data.len() - offset {
            return Err(Error::InvalidArgument(owned("truncated avcc packet")));
        }
        let ghost end = size + len;
        assert(left.subrange(end as int, left.len() as int) =~= data@.subrange(
            offset + len,
            data@.len() as int,
        ));
        assert(left.subrange(size as int, end as int) =~= data@.subrange(
            offset as int,
            offset + len,
        ));
        if len == 0 {
            continue;
        }
        push_unit(&mut out, data, offset, offset + len);
        proof {
            let unit = data@.subrange(offset as int, offset + len);
            lemma_start_coded_push(units, unit);
            if let Ok(rest) = packet_units(
                data@.subrange(offset + len, data@.len() as int),
                size,
            ) {
                assert(units + (seq![unit] + rest) =~= units.push(unit) + rest);
            }
            units = units.push(unit);
        }
        offset = offset + len;
    }
    let ghost left = data@.subrange(offset as int, data@.len() as int);
    if offset != data.len() {
        return Err(Error::InvalidArgument(owned("trailing avcc bytes")));
    }
    assert(left.len() == 0);
    assert(units + Seq::<Seq<u8>>::empty() =~= units);
    Ok(out)
}

/// Converts sets of parameters from `from` on; where they end.
fn push_parameter_sets(out: &mut Vec<u8>, data: &[u8], from: usize, count: usize) -> (r: Option<
    usize,
>)
    requires
        from <= data@.len(),
    ensures
        match parameter_sets(data@.subrange(from as int, data@.len() as int), count as nat) {
            Some((sets, tail)) => r matches Some(end) && end <= data@.len() && tail
                == data@.subrange(end as int, data@.len() as int) && final(out)@ == old(out)@
                + start_coded(sets),
            None => r is None,
        },
{
    let ghost before = out@;
    let ghost all = parameter_sets(
        data@.subrange(from as int, data@.len() as int),
        count as nat,
    );
    let ghost mut sets: Seq<Seq<u8>> = Seq::empty();
    let mut offset: usize = from;
    let mut i: usize = 0;
    assert(out@ =~= before + start_coded(sets));
    proof {
        if let Some((rest, tail)) = all {
            assert(sets + rest =~= rest);
        }
    }
    while i < count
        invariant
            i <= count,
            offset <= data@.len(),
            out@ == before + start_coded(sets),
            match parameter_sets(
                data@.subrange(offset as int, data@.len() as int),
                (count - i) as nat,
            ) {
                Some((rest, tail)) => all == Some((sets + rest, tail)),
                None => all is None,
            },
            all == parameter_sets(
                data@.subrange(from as int, data@.len() as int),
                count as nat,
            ),
        decreases count - i,
    {
        let ghost left = data@.subrange(offset as int, data@.len() as int);
        if data.len() - offset < 2 {
            return None;
        }
        let len: usize = read_be_nal_length(data, offset, 2);
        assert(left.subrange(0, 2) =~= data@.subrange(offset as int, offset + 2));
        offset = offset + 2;
        if len > data.len() - offset {
            return None;
        }
        push_unit(out, data, offset, offset + len);
        proof {
            let set = data@.subrange(offset as int, offset + len);
            assert(left.subrange(2, 2 + len as int) =~= set);
            assert(left.subrange(2 + len as int, left.len() as int) =~= data@.subrange(
                offset + len,
                data@.len() as int,
            ));
            lemma_start_coded_push(sets, set);
            assert(out@ =~= before + start_coded(sets.push(set)));
            if let Some((rest, tail)) = parameter_sets(
                data@.subrange(offset + len, data@.len() as int),
                (count - i - 1) as nat,
            ) {
                assert(sets + (seq![set] + rest) =~= sets.push(set) + rest);
            }
            sets = sets.push(set);
        }
        offset = offset + len;
        i = i + 1;
    }
    assert(sets + Seq::<Seq<u8>>::empty() =~= sets);
    Some(offset)
}

proof fn lemma_start_coded_join(a: Seq<Seq<u8>>, b: Seq<Seq<u8>>)
    ensures
        start_coded(a + b) == start_coded(a) + start_coded(b),
    decreases b.len(),
{
    if b.len() == 0 {
        assert(a + b =~= a);
        assert(start_coded(a) + start_coded(b) =~= start_coded(a));
    } else {
        lemma_start_coded_join(a, b.drop_last());
        assert((a + b).drop_last() =~= a + b.drop_last());
        assert(start_coded(a + b) =~= start_coded(a) + start_coded(b));
    }
}

/// Converts the description of a stream: the number of bytes of a length, and the sets of
/// parameters behind start codes.
pub fn avcc_extradata_to_annexb(data: &[u8]) -> (r: Option<(Option<usize>, Vec<u8>)>)
    ensures
        match avcc_description(data@) {
            Some((size, sets)) => r matches Some((Some(s), annexb)) && s == size && annexb@
                == start_coded(sets),
            None => r is None,
        },
{
    if data.len() < 7 || data[0] != 1 {
        return None;
    }
    let nal_length_size: usize = (data[4] % 4 + 1) as usize;
    let num_sps: usize = (data[5] % 32) as usize;
    let mut annexb: Vec<u8> = Vec::new();
    let offset: usize = match push_parameter_sets(&mut annexb, data, 6, num_sps) {
        Some(offset) => offset,
        None => {
            return None;
        },
    };
    let ghost first = parameter_sets(data@.subrange(6, data@.len() as int), num_sps as nat)->0;
    let ghost sequences = first.0;
    assert(annexb@ =~= start_coded(sequences));
    if offset >= data.len() {
        return Some((Some(nal_length_size), annexb));
    }
    let ghost tail = data@.subrange(offset as int, data@.len() as int);
    let num_pps: usize = data[offset] as usize;
    assert(tail.subrange(1, tail.len() as int) =~= data@.subrange(
        offset + 1,
        data@.len() as int,
    ));
    if push_parameter_sets(&mut annexb, data, offset + 1, num_pps).is_none() {
        return None;
    }
    proof {
        let second = parameter_sets(tail.subrange(1, tail.len() as int), num_pps as nat)->0;
        lemma_start_coded_join(sequences, second.0);
    }
    Some((Some(nal_length_size), annexb))
}

/// What an encoder says of its stream before the first packet.
pub open spec fn stream_config(extradata: Option<Seq<u8>>) -> (Option<usize>, Seq<u8>) {
    match extradata {
        Some(data) => if data.len() == 0 {
            (None, Seq::empty())
        } else if is_annexb(data) {
            (None, data)
        } else {
            match avcc_description(data) {
                Some((size, sets)) => (Some(size as usize), start_coded(sets)),
                None => (None, Seq::empty()),
            }
        },
        None => (None, Seq::empty()),
    }
}

/// The packets of an encoder on their way to a decoder.
#[derive(Debug)]
pub struct H264Stream {
    pub avcc_nal_length_size: Option<usize>,
    pub annexb_config: Vec<u8>,
    pub sent_config: bool,
}

/// A packet with start codes; as it is where it has them, or where it cannot be converted.
pub open spec fn annexb_packet(data: Seq<u8>, size: Option<usize>) -> Seq<u8> {
    match size {
        Some(size) => if !is_annexb(data) && 1 <= size <= 4 {
            match packet_units(data, size as nat) {
                Ok(units) => start_coded(units),
                Err(_) => data,
            }
        } else {
            data
        },
        None => data,
    }
}

/// A packet as it is sent: the first one has the parameters in front of it.
pub open spec fn sent_packet(stream: H264Stream, data: Seq<u8>) -> Seq<u8> {
    let front = if stream.sent_config {
        Seq::empty()
    } else {
        stream.annexb_config@
    };
    front + annexb_packet(data, stream.avcc_nal_length_size)
}

/// The bytes of a slice.
fn bytes_of(data: &[u8]) -> (r: Vec<u8>)
    ensures
        r@ == data@,
{
    let mut out: Vec<u8> = Vec::new();
    let mut i: usize = 0;
    while i < data.len()
        invariant
            i <= data@.len(),
            out@ == data@.subrange(0, i as int),
        decreases data@.len() - i,
    {
        out.push(data[i]);
        i = i + 1;
        assert(data@.subrange(0, i as int) =~= data@.subrange(0, i - 1).push(data@[i - 1]));
    }
    assert(data@.subrange(0, i as int) =~= data@);
    out
}

impl H264Stream {
    /// A stream of an encoder that says this of itself.
    pub fn new(extradata: Option<&[u8]>) -> (r: Self)
        ensures
            ({
                let config = stream_config(
                    match extradata {
                        Some(data) => Some(data@),
                        None => None,
                    },
                );
                &&& r.avcc_nal_length_size == config.0
                &&& r.annexb_config@ == config.1
                &&& !r.sent_config
            }),
    {
        let (avcc_nal_length_size, annexb_config) = match extradata {
            Some(data) => if data.len() == 0 {
                (None, Vec::new())
            } else if looks_like_annexb(data) {
                (None, bytes_of(data))
            } else {
                match avcc_extradata_to_annexb(data) {
                    Some(config) => config,
                    None => (None, Vec::new()),
                }
            },
            None => (None, Vec::new()),
        };
        H264Stream { avcc_nal_length_size, annexb_config, sent_config: false }
    }

    /// Adds a packet of the encoder to what is sent.
    pub fn push_packet(&mut self, data: &[u8], out: &mut Vec<u8>)
        ensures
            final(out)@ == old(out)@ + sent_packet(*old(self), data@),
            final(self).avcc_nal_length_size == old(self).avcc_nal_length_size,
            final(self).annexb_config == old(self).annexb_config,
            final(self).sent_config == (old(self).sent_config
                || old(self).annexb_config@.len() > 0),
    {
        let ghost before = out@;
        if !self.sent_config && self.annexb_config.len() > 0 {
            let mut config = bytes_of(self.annexb_config.as_slice());
            out.append(&mut config);
            self.sent_config = true;
        }
        let mut annexb = match self.avcc_nal_length_size {
            Some(size) => if !looks_like_annexb(data) {
                match avcc_packet_to_annexb(data, size) {
                    Ok(converted) => converted,
                    Err(_) => bytes_of(data),
                }
            } else {
                bytes_of(data)
            },
            None => bytes_of(data),
        };
        out.append(&mut annexb);
        assert(out@ =~= before + sent_packet(*old(self), data@));
    }
}

/// The bit rate of a stream: one bit for each pixel, but not too few.
pub fn bit_rate(width: u32, height: u32, fps: u32) -> (r: usize)
    requires
        width * height <= usize::MAX,
        width * height * fps <= usize::MAX,
    ensures
        r == if width * height * fps < 500_000 {
            500_000
        } else {
            width * height * fps
        },
{
    assert(width as usize * height as usize == width * height);
    let base_rate: usize = width as usize * height as usize * fps as usize;
    if base_rate < 500_000 {
        500_000
    } else {
        base_rate
    }
}

/// The distance of the rows that an encoder reads: rows do not overlap.
pub open spec fn encoder_stride(width: u32, stride: usize) -> int {
    if stride < width * 4 {
        width * 4
    } else {
        stride as int
    }
}

/// The rows of a picture at the distance at which an encoder wants them.
pub fn encoder_rows(bgra: &[u8], stride: usize, width: u32, height: u32, dst_stride: usize) -> (r:
    Vec<u8>)
    requires
        width * 4 <= dst_stride,
        rows_within(
            height as int,
            width * 4,
            encoder_stride(width, stride),
            bgra@.len() as int,
        ),
    ensures
        r@ == padded_rows(
            bgra@,
            encoder_stride(width, stride),
            width * 4,
            dst_stride as nat,
            height as nat,
        ),
{
    let row_bytes: usize = width as usize * 4;
    let src_stride: usize = if stride < row_bytes {
        row_bytes
    } else {
        stride
    };
    copy_rows(bgra, src_stride, row_bytes, dst_stride, height as usize)
}

/// The picture of a decoder whose rows are `src_stride` bytes apart.
pub fn decoded_frame(width: u32, height: u32, src_stride: usize, data: &[u8]) -> (r: DecodedFrame)
    requires
        width * 4 <= usize::MAX,
        rows_within(height as int, width * 4, src_stride as int, data@.len() as int),
    ensures
        r.width == width,
        r.height == height,
        r.stride == width * 4,
        r.bgra@ == padded_rows(
            data@,
            src_stride as int,
            width * 4,
            (width * 4) as nat,
            height as nat,
        ),
{
    let row_bytes: usize = width as usize * 4;
    let bgra = copy_rows(data, src_stride, row_bytes, row_bytes, height as usize);
    DecodedFrame { width, height, stride: row_bytes, bgra }
}

/// A number in `size` bytes, the most significant one first.
pub open spec fn length_bytes(n: nat, size: nat) -> Seq<u8>
    decreases size,
{
    if size == 0 {
        Seq::empty()
    } else {
        length_bytes(n / 256, (size - 1) as nat).push((n % 256) as u8)
    }
}

/// Units, each behind its length.
pub open spec fn length_coded(units: Seq<Seq<u8>>, size: nat) -> Seq<u8>
    decreases units.len(),
{
    if units.len() == 0 {
        Seq::empty()
    } else {
        length_bytes(units[0].len(), size) + units[0] + length_coded(
            units.subrange(1, units.len() as int),
            size,
        )
    }
}

proof fn lemma_length_bytes(n: nat, size: nat)
    requires
        n < vstd::arithmetic::power::pow(256, size),
    ensures
        length_bytes(n, size).len() == size,
        be_value(length_bytes(n, size)) == n,
    decreases size,
{
    if size == 0 {
        vstd::arithmetic::power::lemma_pow0(256);
    } else {
        let rest = (size - 1) as nat;
        assert(vstd::arithmetic::power::pow(256, size) == 256 * vstd::arithmetic::power::pow(
            256,
            rest,
        )) by {
            reveal(vstd::arithmetic::power::pow);
        }
        assert(n / 256 < vstd::arithmetic::power::pow(256, rest));
        lemma_length_bytes(n / 256, rest);
        assert(length_bytes(n, size).drop_last() =~= length_bytes(n / 256, rest));
        assert(n == n / 256 * 256 + n % 256);
    }
}

/// A packet holds the units that were put into it, so that converting it keeps them all, in order.
pub proof fn packets_keep_their_units(units: Seq<Seq<u8>>, size: nat)
    requires
        1 <= size <= 4,
        forall|i: int|
            0 <= i < units.len() ==> 0 < (#[trigger] units[i]).len()
                < vstd::arithmetic::power::pow(256, size),
    ensures
        packet_units(length_coded(units, size), size) == Ok::<Seq<Seq<u8>>, PacketFault>(units),
    decreases units.len(),
{
    let data = length_coded(units, size);
    if units.len() == 0 {
        assert(units =~= Seq::empty());
    } else {
        let rest = units.subrange(1, units.len() as int);
        assert forall|i: int| 0 <= i < rest.len() implies 0 < (#[trigger] rest[i]).len()
            < vstd::arithmetic::power::pow(256, size) by {
            assert(rest[i] == units[i + 1]);
        }
        packets_keep_their_units(rest, size);
        let unit = units[0];
        lemma_length_bytes(unit.len(), size);
        let head = length_bytes(unit.len(), size);
        let end = (size + unit.len()) as int;
        assert(data.subrange(0, size as int) =~= head);
        assert(data.subrange(size as int, end) =~= unit);
        assert(data.subrange(end, data.len() as int) =~= length_coded(rest, size));
        assert(seq![unit] + rest =~= units);
    }
}

/// Converted units keep their order and their bytes, each with the bytes 0, 0, 0, 1 in front of it.
pub proof fn start_codes_stand_in_front(units: Seq<Seq<u8>>, unit: Seq<u8>, i: int)
    ensures
        start_coded(Seq::empty()).len() == 0,
        ({
            let before = start_coded(units);
            let all = start_coded(units.push(unit));
            let n = before.len() as int;
            &&& all.len() == n + 4 + unit.len()
            &&& 0 <= i < n ==> all[i] == before[i]
            &&& all[n] == 0 && all[n + 1] == 0 && all[n + 2] == 0 && all[n + 3] == 1
            &&& 0 <= i < unit.len() ==> all[n + 4 + i] == unit[i]
        }),
{
    lemma_start_coded_push(units, unit);
}

/// Data have start codes if and only if they begin with 0, 0, 0, 1 or with 0, 0, 1.
pub proof fn start_codes_are_recognised(data: Seq<u8>)
    ensures
        is_annexb(data) <==> (data.len() >= 4 && data[0] == 0 && data[1] == 0 && data[2] == 0
            && data[3] == 1) || (data.len() >= 3 && data[0] == 0 && data[1] == 0 && data[2] == 1),
{
    if data.len() >= 4 {
        let head = data.subrange(0, 4);
        assert(head[0] == data[0] && head[1] == data[1] && head[2] == data[2] && head[3]
            == data[3]);
        if data[0] == 0 && data[1] == 0 && data[2] == 0 && data[3] == 1 {
            assert(head =~= start_code());
        }
    }
    if data.len() >= 3 {
        let head = data.subrange(0, 3);
        assert(head[0] == data[0] && head[1] == data[1] && head[2] == data[2]);
        if data[0] == 0 && data[1] == 0 && data[2] == 1 {
            assert(head =~= seq![0u8, 0u8, 1u8]);
        }
    }
}

proof fn lemma_parameter_sets(sets: Seq<Seq<u8>>, tail: Seq<u8>)
    requires
        forall|i: int| 0 <= i < sets.len() ==> (#[trigger] sets[i]).len() < 0x1_0000,
    ensures
        parameter_sets(length_coded(sets, 2) + tail, sets.len()) == Some((sets, tail)),
    decreases sets.len(),
{
    let data = length_coded(sets, 2) + tail;
    if sets.len() == 0 {
        assert(data =~= tail);
        assert(sets =~= Seq::empty());
    } else {
        let first = sets[0];
        let rest = sets.subrange(1, sets.len() as int);
        assert(vstd::arithmetic::power::pow(256, 2) == 0x1_0000) by {
            reveal(vstd::arithmetic::power::pow);
            reveal_with_fuel(vstd::arithmetic::power::pow, 4);
        }
        lemma_length_bytes(first.len(), 2);
        assert(data.subrange(0, 2) =~= length_bytes(first.len(), 2));
        let end = 2 + first.len();
        assert(data.subrange(end as int, data.len() as int) =~= length_coded(rest, 2) + tail);
        assert(data.subrange(2, end as int) =~= first);
        assert forall|i: int| 0 <= i < rest.len() implies (#[trigger] rest[i]).len() < 0x1_0000 by {
            assert(rest[i] == sets[i + 1]);
        }
        lemma_parameter_sets(rest, tail);
        assert(seq![first] + rest =~= sets);
    }
}

proof fn lemma_description(
    head: Seq<u8>,
    size: nat,
    sequences: Seq<Seq<u8>>,
    pictures: Seq<Seq<u8>>,
    rest: Seq<u8>,
)
    requires
        head.len() == 6,
        head[0] == 1,
        head[4] % 4 + 1 == size,
        head[5] % 32 == sequences.len(),
        pictures.len() < 256,
        forall|i: int| 0 <= i < sequences.len() ==> (#[trigger] sequences[i]).len() < 0x1_0000,
        forall|i: int| 0 <= i < pictures.len() ==> (#[trigger] pictures[i]).len() < 0x1_0000,
    ensures
        avcc_description(
            head + (length_coded(sequences, 2) + (seq![pictures.len() as u8] + length_coded(
                pictures,
                2,
            ) + rest)),
        ) == Some((size, sequences + pictures)),
{
    let tail = seq![pictures.len() as u8] + length_coded(pictures, 2) + rest;
    let data = head + (length_coded(sequences, 2) + tail);
    lemma_parameter_sets(sequences, tail);
    lemma_parameter_sets(pictures, rest);
    assert(data.subrange(6, data.len() as int) =~= length_coded(sequences, 2) + tail);
    assert(tail.subrange(1, tail.len() as int) =~= length_coded(pictures, 2) + rest);
    assert(tail[0] == pictures.len() as u8);
    assert(data[0] == head[0] && data[4] == head[4] && data[5] == head[5]);
}

/// The description of a stream: its version 1, three bytes that are not read, the number of bytes of
/// a length less one, the sets of parameters of sequences and those of pictures, each list behind its
/// number. All the sets come back in order, whatever the bits that are not read.
#[verifier::rlimit(40)]
pub proof fn descriptions_keep_their_sets(
    profile: Seq<u8>,
    size: u8,
    sequences: Seq<Seq<u8>>,
    pictures: Seq<Seq<u8>>,
    unread: u8,
    rest: Seq<u8>,
)
    requires
        profile.len() == 3,
        1 <= size <= 4,
        unread < 8,
        sequences.len() < 32,
        pictures.len() < 256,
        forall|i: int| 0 <= i < sequences.len() ==> (#[trigger] sequences[i]).len() < 0x1_0000,
        forall|i: int| 0 <= i < pictures.len() ==> (#[trigger] pictures[i]).len() < 0x1_0000,
    ensures
        avcc_description(
            seq![1u8] + profile + seq![
                (unread * 32 + size - 1) as u8,
                (unread * 32 + sequences.len()) as u8,
            ] + length_coded(sequences, 2) + seq![pictures.len() as u8] + length_coded(
                pictures,
                2,
            ) + rest,
        ) == Some((size as nat, sequences + pictures)),
{
    let head = seq![1u8] + profile + seq![
        (unread * 32 + size - 1) as u8,
        (unread * 32 + sequences.len()) as u8,
    ];
    let tail = seq![pictures.len() as u8] + length_coded(pictures, 2) + rest;
    let data = head + length_coded(sequences, 2) + seq![pictures.len() as u8] + length_coded(
        pictures,
        2,
    ) + rest;
    assert(head.len() == 6);
    assert(data =~= head + (length_coded(sequences, 2) + tail));
    assert((unread * 32 + size - 1) % 4 + 1 == size);
    assert((unread * 32 + sequences.len()) % 32 == sequences.len());
    lemma_description(head, size as nat, sequences, pictures, rest);
}

/// A description that is too short, or of another version, is none.
pub proof fn other_descriptions_are_refused(data: Seq<u8>)
    ensures
        data.len() < 7 ==> avcc_description(data) is None,
        data.len() > 0 && data[0] != 1 ==> avcc_description(data) is None,
{
}

/// A packet whose last unit is cut off is refused, and so are bytes that are no length.
#[verifier::rlimit(40)]
pub proof fn cut_packets_are_refused(
    units: Seq<Seq<u8>>,
    unit: Seq<u8>,
    size: nat,
    kept: nat,
)
    requires
        1 <= size <= 4,
        0 < unit.len() < vstd::arithmetic::power::pow(256, size),
        kept < size + unit.len(),
        forall|i: int|
            0 <= i < units.len() ==> 0 < (#[trigger] units[i]).len()
                < vstd::arithmetic::power::pow(256, size),
    ensures
        ({
            let cut = length_coded(units, size) + (length_bytes(unit.len(), size) + unit).subrange(
                0,
                kept as int,
            );
            packet_units(cut, size) == (if kept == 0 {
                Ok::<Seq<Seq<u8>>, PacketFault>(units)
            } else if kept < size {
                Err(PacketFault::Trailing)
            } else {
                Err(PacketFault::Truncated)
            })
        }),
    decreases units.len(),
{
    let piece = (length_bytes(unit.len(), size) + unit).subrange(0, kept as int);
    let cut = length_coded(units, size) + piece;
    lemma_length_bytes(unit.len(), size);
    if units.len() == 0 {
        assert(cut =~= piece);
        assert(units =~= Seq::empty());
        if kept >= size {
            assert(piece.subrange(0, size as int) =~= length_bytes(unit.len(), size));
        }
    } else {
        let first = units[0];
        let rest = units.subrange(1, units.len() as int);
        assert forall|i: int| 0 <= i < rest.len() implies 0 < (#[trigger] rest[i]).len()
            < vstd::arithmetic::power::pow(256, size) by {
            assert(rest[i] == units[i + 1]);
        }
        cut_packets_are_refused(rest, unit, size, kept);
        lemma_length_bytes(first.len(), size);
        let end = size + first.len();
        assert(cut.subrange(0, size as int) =~= length_bytes(first.len(), size));
        assert(cut.subrange(size as int, end as int) =~= first);
        assert(cut.subrange(end as int, cut.len() as int) =~= length_coded(rest, size) + piece);
        assert(seq![first] + rest =~= units);
    }
}

/// The parameters of a stream stand in front of its first packet and of no other one.
pub proof fn parameters_are_sent_once(first: H264Stream, later: H264Stream, data: Seq<u8>)
    requires
        !first.sent_config,
        later.sent_config,
        later.avcc_nal_length_size == first.avcc_nal_length_size,
    ensures
        sent_packet(first, data) == first.annexb_config@ + sent_packet(later, data),
        is_annexb(data) ==> sent_packet(later, data) == data,
        later.avcc_nal_length_size is None ==> sent_packet(later, data) == data,
{
    assert(Seq::<u8>::empty() + annexb_packet(data, later.avcc_nal_length_size) =~= annexb_packet(
        data,
        later.avcc_nal_length_size,
    ));
}

/// The units of a packet are sent behind start codes where the stream said how long lengths are.
pub proof fn packets_are_converted(stream: H264Stream, units: Seq<Seq<u8>>, size: usize)
    requires
        stream.sent_config,
        stream.avcc_nal_length_size == Some(size),
        1 <= size <= 4,
        forall|i: int|
            0 <= i < units.len() ==> 0 < (#[trigger] units[i]).len()
                < vstd::arithmetic::power::pow(256, size as nat),
        !is_annexb(length_coded(units, size as nat)),
    ensures
        sent_packet(stream, length_coded(units, size as nat)) == start_coded(units),
{
    packets_keep_their_units(units, size as nat);
    assert(Seq::<u8>::empty() + start_coded(units) =~= start_coded(units));
}

/// What an encoder says of its stream is kept as it is where it has start codes. A description is
/// converted, and anything else is left out.
pub proof fn parameters_are_converted(data: Seq<u8>)
    requires
        data.len() > 0,
    ensures
        is_annexb(data) ==> stream_config(Some(data)) == (None::<usize>, data),
        !is_annexb(data) ==> match avcc_description(data) {
            Some((size, sets)) => stream_config(Some(data)).0 == Some(size as usize)
                && stream_config(Some(data)).1 == start_coded(sets) && 1 <= size <= 4,
            None => stream_config(Some(data)) == (None::<usize>, Seq::<u8>::empty()),
        },
        stream_config(None) == (None::<usize>, Seq::<u8>::empty()),
{
}

/// Rows for an encoder do not overlap, and are as far apart as they were where they did not.
pub proof fn encoder_rows_do_not_overlap(width: u32, stride: usize)
    ensures
        encoder_stride(width, stride) >= width * 4,
        encoder_stride(width, stride) >= stride,
        encoder_stride(width, stride) == stride || encoder_stride(width, stride) == width * 4,
{
}

} // verus!
