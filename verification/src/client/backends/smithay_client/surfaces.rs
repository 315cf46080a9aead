//! The pixels of surfaces, and patches to them.
use crate::models::surface::{BufferMetadata, WlSurfaceId};
use crate::models::surface_model::PatchModel;
use crate::protocols::wprs::geometry::Size;
use vstd::prelude::*;

verus! {

/// The pixels of a surface, and whether they changed since they were last drawn.
#[derive(Debug)]
pub struct SurfaceEntry {
    pub id: WlSurfaceId,
    pub metadata: BufferMetadata,
    pub data: Vec<u8>,
    pub dirty: bool,
}

#[verifier::ext_equal]
pub struct EntryModel {
    pub id: WlSurfaceId,
    pub metadata: BufferMetadata,
    pub data: Seq<u8>,
    pub dirty: bool,
}

impl View for SurfaceEntry {
    type V = EntryModel;

    open spec fn view(&self) -> EntryModel {
        EntryModel {
            id: self.id,
            metadata: self.metadata,
            data: self.data@,
            dirty: self.dirty,
        }
    }
}

/// Where row `row` of a patch goes in the bytes of a bitmap, and where it comes from.
pub open spec fn patch_target(stride: int, patch: PatchModel, row: int) -> int {
    (patch.y + row) * stride + patch.x * 4
}

pub open spec fn patch_source(patch: PatchModel, row: int) -> int {
    row * patch.stride
}

/// Whether a row of a patch lies within the bitmap and within the patch.
pub open spec fn row_fits(len: int, stride: int, patch: PatchModel, row: int) -> bool {
    &&& patch_target(stride, patch, row) + patch.width * 4 <= len
    &&& patch_source(patch, row) + patch.width * 4 <= patch.data.len()
}

/// A bitmap with the first `rows` rows of a patch copied over it. Rows that do not fit are left out.
pub open spec fn patched(data: Seq<u8>, stride: int, patch: PatchModel, rows: int) -> Seq<u8>
    decreases rows,
{
    if rows <= 0 {
        data
    } else {
        let before = patched(data, stride, patch, rows - 1);
        if row_fits(data.len() as int, stride, patch, rows - 1) {
            let to = patch_target(stride, patch, rows - 1);
            let from = patch_source(patch, rows - 1);
            Seq::new(
                data.len(),
                |k: int|
                    if to <= k < to + patch.width * 4 {
                        patch.data[from + k - to]
                    } else {
                        before[k]
                    },
            )
        } else {
            before
        }
    }
}

proof fn lemma_patched_len(data: Seq<u8>, stride: int, patch: PatchModel, rows: int)
    ensures
        patched(data, stride, patch, rows).len() == data.len(),
    decreases rows,
{
    if rows > 0 {
        lemma_patched_len(data, stride, patch, rows - 1);
    }
}

/// A patch has to be of a place and size that is not negative, for a bitmap whose rows go forward.
pub open spec fn is_patch_for(patch: PatchModel, metadata: BufferMetadata) -> bool {
    &&& patch.x >= 0
    &&& patch.y >= 0
    &&& patch.width >= 0
    &&& patch.height >= 0
    &&& patch.stride >= 0
    &&& metadata.stride >= 0
}

/// After a row that does not fit, no row fits.
proof fn lemma_later_rows(data: Seq<u8>, stride: int, patch: PatchModel, row: int, rows: int)
    requires
        0 <= row <= rows,
        stride >= 0,
        patch.stride >= 0,
        !row_fits(data.len() as int, stride, patch, row),
    ensures
        patched(data, stride, patch, rows) == patched(data, stride, patch, row),
    decreases rows - row,
{
    if row < rows {
        lemma_later_rows(data, stride, patch, row, rows - 1);
        let last = rows - 1;
        assert((patch.y + row) * stride <= (patch.y + last) * stride) by (nonlinear_arith)
            requires
                row <= last,
                stride >= 0,
        ;
        assert(row * patch.stride <= last * patch.stride) by (nonlinear_arith)
            requires
                row <= last,
                patch.stride >= 0,
        ;
    }
}

/// Copies a patch over the pixels of a surface, row by row until one does not fit.
pub fn apply_patch(
    entry: SurfaceEntry,
    x: i32,
    y: i32,
    width: i32,
    height: i32,
    stride: i32,
    data: &[u8],
) -> (r: SurfaceEntry)
    requires
        is_patch_for(
            PatchModel { x, y, width, height, stride, data: data@ },
            entry.metadata,
        ),
    ensures
        r@ == (EntryModel {
            data: patched(
                entry.data@,
                entry.metadata.stride as int,
                PatchModel { x, y, width, height, stride, data: data@ },
                height as int,
            ),
            ..entry@
        }),
{
    let ghost patch = PatchModel { x, y, width, height, stride, data: data@ };
    let mut entry = entry;
    let ghost original = entry.data@;
    let bytes_per_row: u64 = entry.metadata.stride as u64;
    let patch_bytes_per_row: u64 = stride as u64;
    let width_bytes: u64 = width as u64 * 4;
    let len: usize = entry.data.len();
    let ghost before_all = entry;
    let mut row: i32 = 0;
    while row < height
        invariant
            0 <= row <= height,
            is_patch_for(patch, entry.metadata),
            patch == (PatchModel { x, y, width, height, stride, data: data@ }),
            bytes_per_row == entry.metadata.stride,
            patch_bytes_per_row == stride,
            width_bytes == width * 4,
            len == original.len(),
            entry.metadata == before_all.metadata,
            entry.id == before_all.id,
            entry.dirty == before_all.dirty,
            entry.data@ == patched(original, bytes_per_row as int, patch, row as int),
        ensures
            entry.metadata == before_all.metadata,
            entry.id == before_all.id,
            entry.dirty == before_all.dirty,
            entry.data@ == patched(original, bytes_per_row as int, patch, height as int),
        decreases height - row,
    {
        proof {
            assert(0 <= (y + row) * bytes_per_row <= 0x1_0000_0000 * 0x8000_0000) by (nonlinear_arith)
                requires
                    0 <= y + row <= 0x1_0000_0000,
                    0 <= bytes_per_row <= 0x8000_0000,
            ;
            assert(0 <= row * patch_bytes_per_row <= 0x8000_0000 * 0x8000_0000) by (nonlinear_arith)
                requires
                    0 <= row <= 0x8000_0000,
                    0 <= patch_bytes_per_row <= 0x8000_0000,
            ;
            lemma_patched_len(original, bytes_per_row as int, patch, row as int);
        }
        let dst_offset: u64 = (y as u64 + row as u64) * bytes_per_row + x as u64 * 4;
        let src_offset: u64 = row as u64 * patch_bytes_per_row;
        if dst_offset + width_bytes > len as u64 || src_offset + width_bytes > data.len() as u64 {
            proof {
                lemma_later_rows(
                    original,
                    bytes_per_row as int,
                    patch,
                    row as int,
                    height as int,
                );
            }
            break ;
        }
        let ghost before = entry.data@;
        let mut b: usize = 0;
        while b < width_bytes as usize
            invariant
                b <= width_bytes,
                entry.data@.len() == len,
                before.len() == len,
                dst_offset + width_bytes <= len,
                src_offset + width_bytes <= data@.len(),
                data@.len() <= usize::MAX,
                entry.metadata == before_all.metadata,
                entry.id == before_all.id,
                entry.dirty == before_all.dirty,
                forall|k: int|
                    0 <= k < len ==> (#[trigger] entry.data@[k]) == (if dst_offset <= k < dst_offset
                        + b {
                        data@[src_offset + k - dst_offset]
                    } else {
                        before[k]
                    }),
            decreases width_bytes - b,
        {
            entry.data.set(dst_offset as usize + b, data[src_offset as usize + b]);
            b = b + 1;
        }
        row = row + 1;
        assert(entry.data@ =~= patched(original, bytes_per_row as int, patch, row as int));
    }
    entry
}

/// The pixels of a buffer with its rows packed tightly; rows that are not all there are zeros.
pub open spec fn packed(metadata: BufferMetadata, data: Seq<u8>) -> Seq<u8> {
    let row_bytes = metadata.width * 4;
    if metadata.stride == row_bytes {
        data
    } else {
        Seq::new(
            (row_bytes * metadata.height) as nat,
            |k: int|
                if k / row_bytes * metadata.stride + row_bytes <= data.len() {
                    data[k / row_bytes * metadata.stride + k % row_bytes]
                } else {
                    0
                },
        )
    }
}

/// Packs the rows of a buffer.
pub fn pack_buffer(metadata: &BufferMetadata, data: &Vec<u8>) -> (r: Vec<u8>)
    requires
        metadata.width >= 0,
        metadata.height >= 0,
        metadata.stride >= 0,
        metadata.width * 4 * metadata.height <= usize::MAX,
    ensures
        r@ == packed(*metadata, data@),
{
    let row_bytes: u64 = metadata.width as u64 * 4;
    let stride: u64 = metadata.stride as u64;
    if stride == row_bytes {
        let copy = data.clone();
        assert(copy@ =~= data@);
        return copy;
    }
    let height: u64 = metadata.height as u64;
    let len: usize = data.len();
    let mut out: Vec<u8> = Vec::new();
    let mut row: u64 = 0;
    while row < height
        invariant
            row <= height,
            height == metadata.height,
            stride == metadata.stride,
            0 <= stride <= 0x7FFF_FFFF,
            0 <= height <= 0x7FFF_FFFF,
            row_bytes == metadata.width * 4,
            row_bytes <= 0x1_FFFF_FFFC,
            stride != row_bytes,
            len == data@.len(),
            out@.len() == row * row_bytes,
            forall|k: int|
                0 <= k < out@.len() ==> (#[trigger] out@[k]) == (if k / row_bytes as int * stride
                    + row_bytes <= len {
                    data@[k / row_bytes as int * stride + k % row_bytes as int]
                } else {
                    0
                }),
        decreases height - row,
    {
        proof {
            assert(0 <= row * stride <= 0x8000_0000 * 0x8000_0000) by (nonlinear_arith)
                requires
                    0 <= row <= 0x8000_0000,
                    0 <= stride <= 0x8000_0000,
            ;
        }
        let src_offset: u64 = row * stride;
        let there = src_offset + row_bytes <= len as u64;
        let mut b: u64 = 0;
        while b < row_bytes
            invariant
                b <= row_bytes,
                src_offset == row * stride,
                src_offset <= 0x4000_0000_0000_0000,
                row_bytes <= 0x1_FFFF_FFFC,
                there == (src_offset + row_bytes <= len),
                len == data@.len(),
                out@.len() == row * row_bytes + b,
                forall|k: int|
                    0 <= k < out@.len() ==> (#[trigger] out@[k]) == (if k / row_bytes as int
                        * stride + row_bytes <= len {
                        data@[k / row_bytes as int * stride + k % row_bytes as int]
                    } else {
                        0
                    }),
            decreases row_bytes - b,
        {
            proof {
                crate::protocols::image::pixels::lemma_row_position(
                    row as int,
                    b as int,
                    row_bytes as int,
                );
            }
            if there {
                out.push(data[(src_offset + b) as usize]);
            } else {
                out.push(0);
            }
            b = b + 1;
        }
        row = row + 1;
        assert(row * row_bytes == (row - 1) * row_bytes + row_bytes) by (nonlinear_arith);
    }
    assert(row * row_bytes == row_bytes * metadata.height) by (nonlinear_arith)
        requires
            row == metadata.height,
    ;
    assert(out@ =~= packed(*metadata, data@));
    out
}

/// How the pixels of a surface get into its texture.
#[derive(Debug)]
pub enum Upload {
    /// They are there.
    Nothing,
    /// Over those of the texture.
    Update(Vec<u8>),
    /// Into a new texture.
    Import(Vec<u8>),
}

/// Whether the rows of a surface can be packed, if they have to be.
pub open spec fn can_pack(entry: EntryModel) -> bool {
    entry.dirty ==> {
        &&& entry.metadata.width >= 0
        &&& entry.metadata.height >= 0
        &&& entry.metadata.stride >= 0
        &&& entry.metadata.width * 4 * entry.metadata.height <= usize::MAX
    }
}

/// Whether the rows of a surface can be packed, if they have to be.
pub fn can_upload(entry: &SurfaceEntry) -> (r: bool)
    ensures
        r == can_pack(entry@),
{
    if !entry.dirty {
        return true;
    }
    if entry.metadata.width < 0 || entry.metadata.height < 0 || entry.metadata.stride < 0 {
        return false;
    }
    let row_bytes: u64 = entry.metadata.width as u64 * 4;
    assert(row_bytes * entry.metadata.height <= 0x1_FFFF_FFFC * 0x7FFF_FFFF) by (nonlinear_arith)
        requires
            row_bytes <= 0x1_FFFF_FFFC,
            0 <= entry.metadata.height <= 0x7FFF_FFFF,
    ;
    row_bytes * entry.metadata.height as u64 <= usize::MAX as u64
}

/// How the pixels of a surface get into its texture: only those that changed do, and a texture of
/// another size is replaced.
pub fn plan_upload(entry: &SurfaceEntry, texture_size: Option<Size<i32>>) -> (r: Upload)
    requires
        can_pack(entry@),
    ensures
        if !entry.dirty {
            r == Upload::Nothing
        } else if texture_size == Some(
            Size { w: entry.metadata.width, h: entry.metadata.height },
        ) {
            r matches Upload::Update(pixels) && pixels@ == packed(entry.metadata, entry.data@)
        } else {
            r matches Upload::Import(pixels) && pixels@ == packed(entry.metadata, entry.data@)
        },
{
    if !entry.dirty {
        return Upload::Nothing;
    }
    let pixels = pack_buffer(&entry.metadata, &entry.data);
    match texture_size {
        Some(size) => if size.w == entry.metadata.width && size.h == entry.metadata.height {
            Upload::Update(pixels)
        } else {
            Upload::Import(pixels)
        },
        None => Upload::Import(pixels),
    }
}

/// Rows of a bitmap do not overlap: a byte of one is none of another.
proof fn lemma_other_row(line: int, row: int, stride: int, byte: int, from: int, to: int)
    requires
        0 <= byte < stride,
        0 <= from <= to <= stride,
    ensures
        row * stride + from <= line * stride + byte < row * stride + to <==> line == row && from
            <= byte < to,
{
    if line < row {
        assert(line * stride + stride <= row * stride) by (nonlinear_arith)
            requires
                line + 1 <= row,
                stride > 0,
        ;
    } else if line > row {
        assert(row * stride + stride <= line * stride) by (nonlinear_arith)
            requires
                row + 1 <= line,
                stride > 0,
        ;
    }
}

proof fn lemma_patched_byte(
    data: Seq<u8>,
    stride: int,
    patch: PatchModel,
    rows: int,
    line: int,
    byte: int,
)
    requires
        0 <= rows <= patch.height,
        0 <= patch.x,
        0 <= patch.y,
        0 <= patch.width,
        (patch.x + patch.width) * 4 <= stride,
        patch.width * 4 <= patch.stride,
        (patch.y + patch.height) * stride <= data.len(),
        patch.height * patch.stride <= patch.data.len(),
        0 <= byte < stride,
        0 <= line,
        line * stride + byte < data.len(),
    ensures
        patched(data, stride, patch, rows)[line * stride + byte] == (if patch.y <= line < patch.y
            + rows && patch.x * 4 <= byte < (patch.x + patch.width) * 4 {
            patch.data[(line - patch.y) * patch.stride + byte - patch.x * 4]
        } else {
            data[line * stride + byte]
        }),
    decreases rows,
{
    if rows > 0 {
        let row = rows - 1;
        lemma_patched_byte(data, stride, patch, row, line, byte);
        lemma_patched_len(data, stride, patch, row);
        assert((patch.y + row) * stride + stride <= (patch.y + patch.height) * stride)
            by (nonlinear_arith)
            requires
                row + 1 <= patch.height,
                stride >= 0,
        ;
        assert(row * patch.stride + patch.stride <= patch.height * patch.stride)
            by (nonlinear_arith)
            requires
                row + 1 <= patch.height,
                patch.stride >= 0,
        ;
        assert(row_fits(data.len() as int, stride, patch, row));
        lemma_other_row(
            line,
            patch.y + row,
            stride,
            byte,
            patch.x * 4,
            (patch.x + patch.width) * 4,
        );
        assert(0 <= line * stride) by (nonlinear_arith)
            requires
                0 <= line,
                0 <= stride,
        ;
        if line == patch.y + row {
            assert((line - patch.y) * patch.stride == row * patch.stride);
        }
    }
}

/// A patch that lies within a bitmap: its pixels are shown at its place, all of them, and every other
/// pixel of the bitmap stays.
pub proof fn patches_go_to_their_place(
    data: Seq<u8>,
    stride: int,
    patch: PatchModel,
    line: int,
    column: int,
    channel: int,
)
    requires
        0 <= patch.x,
        0 <= patch.y,
        0 <= patch.width,
        0 <= patch.height,
        (patch.x + patch.width) * 4 <= stride,
        patch.width * 4 <= patch.stride,
        (patch.y + patch.height) * stride <= data.len(),
        patch.height * patch.stride <= patch.data.len(),
        0 <= line,
        0 <= column,
        0 <= channel < 4,
        column * 4 + channel < stride,
        line * stride + column * 4 + channel < data.len(),
    ensures
        ({
            let after = patched(data, stride, patch, patch.height as int);
            let at = line * stride + column * 4 + channel;
            &&& after.len() == data.len()
            &&& after[at] == (if patch.y <= line < patch.y + patch.height && patch.x <= column
                < patch.x + patch.width {
                patch.data[(line - patch.y) * patch.stride + (column - patch.x) * 4 + channel]
            } else {
                data[at]
            })
        }),
{
    lemma_patched_len(data, stride, patch, patch.height as int);
    lemma_patched_byte(data, stride, patch, patch.height as int, line, column * 4 + channel);
}

/// Packed rows hold the pixels of the buffer, without the gaps between them.
pub proof fn packed_rows_keep_their_pixels(
    metadata: BufferMetadata,
    data: Seq<u8>,
    row: int,
    byte: int,
)
    requires
        metadata.width > 0,
        0 <= row < metadata.height,
        0 <= byte < metadata.width * 4,
        metadata.width * 4 <= metadata.stride,
        metadata.height * metadata.stride <= data.len(),
    ensures
        packed(metadata, data)[row * (metadata.width * 4) + byte] == data[row * metadata.stride
            + byte],
        metadata.width * 4 < metadata.stride ==> packed(metadata, data).len() == metadata.width * 4
            * metadata.height,
{
    let row_bytes = metadata.width * 4;
    let k = row * row_bytes + byte;
    if metadata.stride != row_bytes {
        assert(k / row_bytes == row && k % row_bytes == byte) by (nonlinear_arith)
            requires
                k == row * row_bytes + byte,
                0 <= byte < row_bytes,
        ;
        assert(row * metadata.stride + metadata.stride <= metadata.height * metadata.stride)
            by (nonlinear_arith)
            requires
                row + 1 <= metadata.height,
                metadata.stride >= 0,
        ;
        assert(0 <= k < row_bytes * metadata.height) by (nonlinear_arith)
            requires
                k == row * row_bytes + byte,
                0 <= byte < row_bytes,
                0 <= row,
                row + 1 <= metadata.height,
        ;
    }
}

} // verus!
