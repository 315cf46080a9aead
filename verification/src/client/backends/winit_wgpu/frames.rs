//! Frames as the graphics card and the cursor want them.
use crate::models::surface::{BufferMetadata, WlSurfaceId};
use crate::protocols::image::pixels::{
    copy_rows, lemma_rows_within, padded_rows, swap_rows, swapped_rows,
};
use crate::utils::align::{align_up, aligned};
use crate::utils::filtering::{unfilter_to_buffer, unfiltered_buffer};
use crate::utils::vec4u8::Vec4u8s;
use vstd::prelude::*;

verus! {

/// The alignment of texture rows.
pub const ROW_ALIGNMENT: usize = 256;

/// A frame whose rows are aligned for upload.
#[derive(Debug)]
pub struct DecodedFrame {
    pub surface_id: WlSurfaceId,
    pub metadata: BufferMetadata,
    pub padded_row_bytes: u32,
    pub data: Vec<u8>,
}

/// A frame that waits to be unfiltered.
#[derive(Debug)]
pub struct DecodeJob {
    pub surface_id: WlSurfaceId,
    pub metadata: BufferMetadata,
    pub filtered: Vec4u8s,
}

/// A cursor image.
#[derive(Debug)]
pub struct CursorFrame {
    pub width: u16,
    pub height: u16,
    pub rgba: Vec<u8>,
}

/// Whether a buffer has rows that lie within it one after the other, and an upload of it fits.
pub open spec fn has_rows(metadata: BufferMetadata) -> bool {
    &&& metadata.width >= 0
    &&& metadata.height >= 0
    &&& metadata.width * 4 + 255 <= usize::MAX
    &&& metadata.height > 0 ==> {
        &&& metadata.width * 4 <= metadata.stride
        &&& metadata.height * metadata.stride <= i32::MAX
        &&& aligned(metadata.width * 4, 256) * metadata.height <= usize::MAX
    }
}

/// Whether a buffer has rows that can be uploaded.
pub fn buffer_has_rows(metadata: &BufferMetadata) -> (r: bool)
    ensures
        r == has_rows(*metadata),
{
    if metadata.width < 0 || metadata.height < 0 {
        return false;
    }
    let width: u64 = metadata.width as u64;
    if width * 4 + 255 > usize::MAX as u64 {
        return false;
    }
    if metadata.height == 0 {
        return true;
    }
    if metadata.stride < 0 {
        return false;
    }
    let height: u64 = metadata.height as u64;
    let stride: u64 = metadata.stride as u64;
    proof {
        assert(0 <= height * stride <= 0x4000_0000_0000_0000) by (nonlinear_arith)
            requires
                0 <= height <= 0x7FFF_FFFF,
                0 <= stride <= 0x7FFF_FFFF,
        ;
        crate::utils::align::lemma_aligned(width * 4, 256);
    }
    if height * stride > 0x7FFF_FFFF || width * 4 > stride {
        return false;
    }
    let padded: u64 = (width * 4 + 255) / 256 * 256;
    proof {
        assert(0 <= padded * height <= 0x4_0000_0000 * 0x7FFF_FFFF) by (nonlinear_arith)
            requires
                0 <= padded <= 0x4_0000_0000,
                0 <= height <= 0x7FFF_FFFF,
        ;
    }
    padded as u128 * height as u128 <= usize::MAX as u128
}

/// Undoes the filter and aligns the rows.
pub fn decode_filtered_to_padded_bgra(metadata: &BufferMetadata, filtered: &Vec4u8s) -> (r: (
    u32,
    Vec<u8>,
))
    requires
        has_rows(*metadata),
    ensures
        r.0 == aligned(metadata.width * 4, 256) as u32,
        r.1@ == padded_rows(
            unfiltered_buffer(filtered@, (metadata.height * metadata.stride) as nat),
            metadata.stride as int,
            metadata.width * 4,
            aligned(metadata.width * 4, 256) as nat,
            metadata.height as nat,
        ),
{
    let row_bytes: usize = metadata.width as usize * 4;
    let padded_row_bytes: usize = align_up(row_bytes, ROW_ALIGNMENT);
    if metadata.height == 0 {
        let empty: Vec<u8> = Vec::new();
        assert(padded_row_bytes as nat * 0 == 0) by (nonlinear_arith);
        assert(empty@ =~= padded_rows(
            unfiltered_buffer(filtered@, (metadata.height * metadata.stride) as nat),
            metadata.stride as int,
            row_bytes as int,
            padded_row_bytes as nat,
            0,
        ));
        return (padded_row_bytes as u32, empty);
    }
    let height: usize = metadata.height as usize;
    let src_stride: usize = metadata.stride as usize;
    assert(metadata.height * metadata.stride >= 0) by (nonlinear_arith)
        requires
            metadata.height >= 0,
            metadata.stride >= 0,
    ;
    let unfiltered = unfilter_to_buffer(filtered, metadata.len());
    proof {
        assert(src_stride * height == metadata.height * metadata.stride) by (nonlinear_arith)
            requires
                src_stride == metadata.stride,
                height == metadata.height,
        ;
        lemma_rows_within(
            height as int,
            row_bytes as int,
            src_stride as int,
            unfiltered@.len() as int,
        );
    }
    let padded = copy_rows(
        unfiltered.as_slice(),
        src_stride,
        row_bytes,
        padded_row_bytes,
        height,
    );
    (padded_row_bytes as u32, padded)
}

/// Whether a frame can be a cursor: between one and 65535 pixels in each direction, with all its
/// rows there.
pub open spec fn is_cursor_sized(metadata: BufferMetadata, padded_row_bytes: u32, len: nat) -> bool {
    &&& 0 < metadata.width <= u16::MAX
    &&& 0 < metadata.height <= u16::MAX
    &&& metadata.width * 4 <= padded_row_bytes
    &&& padded_row_bytes * metadata.height <= len
}

/// The cursor image of a frame, if it can be one.
pub fn bgra_padded_to_rgba(metadata: &BufferMetadata, padded_row_bytes: u32, padded: &[u8]) -> (r:
    Option<CursorFrame>)
    ensures
        match r {
            Some(frame) => is_cursor_sized(*metadata, padded_row_bytes, padded@.len())
                && frame.width == metadata.width && frame.height == metadata.height && frame.rgba@
                == swapped_rows(
                padded@,
                padded_row_bytes as int,
                metadata.width as nat,
                metadata.height as nat,
            ),
            None => !is_cursor_sized(*metadata, padded_row_bytes, padded@.len()),
        },
{
    if metadata.width <= 0 || metadata.height <= 0 || metadata.width > 65535 || metadata.height
        > 65535 {
        return None;
    }
    let width: usize = metadata.width as usize;
    let height: usize = metadata.height as usize;
    if (padded_row_bytes as u64) < width as u64 * 4 {
        return None;
    }
    proof {
        assert(padded_row_bytes * height <= 0xFFFF_FFFF * 0xFFFF) by (nonlinear_arith)
            requires
                padded_row_bytes <= 0xFFFF_FFFF,
                height <= 0xFFFF,
        ;
    }
    let total: u64 = padded_row_bytes as u64 * height as u64;
    if (padded.len() as u64) < total {
        return None;
    }
    proof {
        lemma_rows_within(
            height as int,
            width * 4,
            padded_row_bytes as int,
            padded@.len() as int,
        );
    }
    let rgba = swap_rows(padded, padded_row_bytes as usize, width, height);
    Some(CursorFrame { width: metadata.width as u16, height: metadata.height as u16, rgba })
}

} // verus!
