//! Recording windows as numbered images.
use crate::error::Error;
use crate::models::surface::{BufferMetadata, WlSurfaceId};
use crate::protocols::image::codecs::png_file;
use crate::protocols::image::pixels::swapped_rows;
use crate::protocols::wprs::frame_codecs::{encode_png_from_bgra, frame_refusal};
use crate::utils::text::{decimal, owned, push_decimal, push_signed_decimal, signed_decimal};
use std::collections::HashMap;
use vstd::prelude::*;

verus! {

broadcast use vstd::std_specs::hash::group_hash_axioms;

/// The numbers of the windows that are recorded, and of their next images.
#[derive(Debug)]
pub struct Recorder {
    pub frame_seq: HashMap<u64, u64>,
    pub window_idx: HashMap<u64, u64>,
    pub next_idx: u64,
}

#[verifier::ext_equal]
pub struct RecorderModel {
    pub frame_seq: Map<u64, u64>,
    pub window_idx: Map<u64, u64>,
    pub next_idx: u64,
}

impl View for Recorder {
    type V = RecorderModel;

    open spec fn view(&self) -> RecorderModel {
        RecorderModel {
            frame_seq: self.frame_seq@,
            window_idx: self.window_idx@,
            next_idx: self.next_idx,
        }
    }
}

/// The number of a window: the one that it has, or the next one.
pub open spec fn window_number(m: RecorderModel, surface: u64) -> u64 {
    if m.window_idx.contains_key(surface) {
        m.window_idx[surface]
    } else {
        m.next_idx
    }
}

/// The number of the next image of a window.
pub open spec fn frame_number(m: RecorderModel, surface: u64) -> u64 {
    if m.frame_seq.contains_key(surface) {
        m.frame_seq[surface]
    } else {
        0
    }
}

/// The name of the next image of a window.
pub open spec fn file_name(m: RecorderModel, surface: u64) -> Seq<char> {
    "window_"@ + decimal(window_number(m, surface) as nat) + "_"@ + decimal(
        frame_number(m, surface) as nat,
    ) + ".png"@
}

/// The numbers after an image of a window was named.
pub open spec fn after_frame(m: RecorderModel, surface: u64) -> RecorderModel {
    RecorderModel {
        frame_seq: m.frame_seq.insert(surface, (frame_number(m, surface) + 1) as u64),
        window_idx: m.window_idx.insert(surface, window_number(m, surface)),
        next_idx: if m.window_idx.contains_key(surface) {
            m.next_idx
        } else {
            (m.next_idx + 1) as u64
        },
    }
}

/// What is wrong with the sizes of an image, if something is.
pub open spec fn size_fault(metadata: BufferMetadata) -> Option<Seq<char>> {
    if metadata.width <= 0 {
        Some("invalid width "@ + signed_decimal(metadata.width as int))
    } else if metadata.height <= 0 {
        Some("invalid height "@ + signed_decimal(metadata.height as int))
    } else if metadata.stride <= 0 {
        Some("invalid stride "@ + signed_decimal(metadata.stride as int))
    } else {
        None
    }
}

/// What comes of the pixels of a window.
pub enum Image {
    File(Seq<u8>),
    /// The sizes make no sense.
    Refused(Seq<char>),
}

pub open spec fn image_of(metadata: BufferMetadata, bgra: Seq<u8>) -> Image {
    let (width, height) = (metadata.width as u32, metadata.height as u32);
    let stride = metadata.stride as usize;
    match size_fault(metadata) {
        Some(text) => Image::Refused(text),
        None => match frame_refusal(width, height, stride, bgra.len()) {
            Some(text) => Image::Refused(text),
            None => Image::File(
                png_file(
                    width,
                    height,
                    swapped_rows(bgra, stride as int, width as nat, height as nat),
                ),
            ),
        },
    }
}

fn refuse(text: &str, n: i32) -> (r: Error)
    ensures
        r matches Error::InvalidArgument(message) && message@ == text@ + signed_decimal(n as int),
{
    let mut message = owned(text);
    push_signed_decimal(&mut message, n as i64);
    Error::InvalidArgument(message)
}

impl Recorder {
    pub fn new() -> (r: Self)
        ensures
            r@ == (RecorderModel {
                frame_seq: Map::empty(),
                window_idx: Map::empty(),
                next_idx: 0,
            }),
    {
        Recorder { frame_seq: HashMap::new(), window_idx: HashMap::new(), next_idx: 0 }
    }

    /// The sizes of an image, which must not be zero or less.
    fn sizes(metadata: &BufferMetadata) -> (r: Result<(u32, u32, usize), Error>)
        ensures
            match size_fault(*metadata) {
                Some(text) => r matches Err(Error::InvalidArgument(message)) && message@ == text,
                None => r == Ok::<(u32, u32, usize), Error>(
                    (metadata.width as u32, metadata.height as u32, metadata.stride as usize),
                ),
            },
    {
        if metadata.width <= 0 {
            return Err(refuse("invalid width ", metadata.width));
        }
        if metadata.height <= 0 {
            return Err(refuse("invalid height ", metadata.height));
        }
        if metadata.stride <= 0 {
            return Err(refuse("invalid stride ", metadata.stride));
        }
        Ok((metadata.width as u32, metadata.height as u32, metadata.stride as usize))
    }

    /// The name of the next image of a window.
    fn next_name(&mut self, surface: WlSurfaceId) -> (r: String)
        requires
            old(self).next_idx < u64::MAX,
            frame_number(old(self)@, surface.0) < u64::MAX,
        ensures
            r@ == file_name(old(self)@, surface.0),
            final(self)@ == after_frame(old(self)@, surface.0),
    {
        let idx: u64 = match self.window_idx.get(&surface.0) {
            Some(idx) => *idx,
            None => self.next_idx,
        };
        if !self.window_idx.contains_key(&surface.0) {
            self.next_idx = self.next_idx + 1;
        }
        let seq: u64 = match self.frame_seq.get(&surface.0) {
            Some(seq) => *seq,
            None => 0,
        };
        self.window_idx.insert(surface.0, idx);
        self.frame_seq.insert(surface.0, seq + 1);
        let mut name = owned("window_");
        push_decimal(&mut name, idx);
        name.append("_");
        push_decimal(&mut name, seq);
        name.append(".png");
        assert(self@ =~= after_frame(old(self)@, surface.0));
        name
    }

    /// The next image of a window: the name of its file, and the file. An image that cannot be
    /// made gets no number.
    pub fn record(&mut self, surface: WlSurfaceId, metadata: &BufferMetadata, bgra: &[u8]) -> (r:
        Result<(String, Vec<u8>), Error>)
        requires
            old(self).next_idx < u64::MAX,
            frame_number(old(self)@, surface.0) < u64::MAX,
        ensures
            match image_of(*metadata, bgra@) {
                Image::File(file) => {
                    &&& r matches Ok((name, out)) && out@ == file && name@ == file_name(
                        old(self)@,
                        surface.0,
                    )
                    &&& final(self)@ == after_frame(old(self)@, surface.0)
                },
                Image::Refused(text) => {
                    &&& r matches Err(Error::InvalidArgument(message)) && message@ == text
                    &&& final(self)@ == old(self)@
                },
            },
    {
        let (width, height, stride) = match Self::sizes(metadata) {
            Ok(sizes) => sizes,
            Err(err) => {
                return Err(err);
            },
        };
        match encode_png_from_bgra(width, height, stride, bgra) {
            Ok(file) => Ok((self.next_name(surface), file)),
            Err(err) => Err(err),
        }
    }

    /// Forgets a window that went.
    pub fn forget(&mut self, surface: WlSurfaceId)
        ensures
            final(self)@ == (RecorderModel {
                frame_seq: old(self)@.frame_seq.remove(surface.0),
                window_idx: old(self)@.window_idx.remove(surface.0),
                ..old(self)@
            }),
    {
        let _ = self.frame_seq.remove(&surface.0);
        let _ = self.window_idx.remove(&surface.0);
    }
}

/// Windows that are recorded at the same time have numbers of their own.
pub open spec fn has_distinct_numbers(m: RecorderModel) -> bool {
    &&& forall|a: u64| #[trigger] m.window_idx.contains_key(a) ==> m.window_idx[a] < m.next_idx
    &&& forall|a: u64, b: u64|
        #![trigger m.window_idx[a], m.window_idx[b]]
        m.window_idx.contains_key(a) && m.window_idx.contains_key(b) && a != b ==> m.window_idx[a]
            != m.window_idx[b]
}

/// Naming an image keeps the numbers apart.
pub proof fn numbers_stay_distinct(m: RecorderModel, surface: u64)
    requires
        has_distinct_numbers(m),
        m.next_idx < u64::MAX,
    ensures
        has_distinct_numbers(after_frame(m, surface)),
{
    let after = after_frame(m, surface);
    assert forall|a: u64| #[trigger] after.window_idx.contains_key(a) implies after.window_idx[a]
        < after.next_idx by {
        if a != surface {
            assert(m.window_idx.contains_key(a));
        }
    }
}

/// The images of a window are numbered from zero on, one after the other, and those of other windows
/// go on where they were.
pub proof fn images_are_numbered(m: RecorderModel, surface: u64, other: u64)
    requires
        other != surface,
        m.next_idx < u64::MAX,
        frame_number(m, surface) < u64::MAX,
    ensures
        ({
            let after = after_frame(m, surface);
            &&& !m.frame_seq.contains_key(surface) ==> frame_number(m, surface) == 0
            &&& frame_number(after, surface) == frame_number(m, surface) + 1
            &&& frame_number(after, other) == frame_number(m, other)
            &&& window_number(after, surface) == window_number(m, surface)
            &&& m.window_idx.contains_key(surface) ==> after.next_idx == m.next_idx
                && window_number(m, surface) == m.window_idx[surface]
            &&& !m.window_idx.contains_key(surface) ==> window_number(m, surface) == m.next_idx
                && after.next_idx == m.next_idx + 1
            &&& m.window_idx.contains_key(other) ==> window_number(after, other) == window_number(
                m,
                other,
            )
        }),
{
}

/// The name of an image has the number of its window, and its own.
pub proof fn images_are_named(m: RecorderModel, surface: u64)
    ensures
        file_name(m, surface) == "window_"@ + decimal(window_number(m, surface) as nat) + "_"@
            + decimal(frame_number(m, surface) as nat) + ".png"@,
        !m.frame_seq.contains_key(surface) && !m.window_idx.contains_key(surface) ==> file_name(
            m,
            surface,
        ) == "window_"@ + decimal(m.next_idx as nat) + "_"@ + decimal(0) + ".png"@,
{
}

/// An image is refused if one of its sizes is not positive, and the first of them is told.
pub proof fn sizes_are_positive(metadata: BufferMetadata, bgra: Seq<u8>)
    ensures
        (size_fault(metadata) is None) == (metadata.width > 0 && metadata.height > 0
            && metadata.stride > 0),
        metadata.width <= 0 ==> image_of(metadata, bgra) == Image::Refused(
            "invalid width "@ + signed_decimal(metadata.width as int),
        ),
        metadata.width > 0 && metadata.height <= 0 ==> image_of(metadata, bgra) == Image::Refused(
            "invalid height "@ + signed_decimal(metadata.height as int),
        ),
        metadata.width > 0 && metadata.height > 0 && metadata.stride <= 0 ==> image_of(
            metadata,
            bgra,
        ) == Image::Refused("invalid stride "@ + signed_decimal(metadata.stride as int)),
{
}

} // verus!
