//! Images as rows of bytes: copying rows and reordering the channels of pixels.
use crate::models::surface::BufferFormat;
use vstd::prelude::*;

verus! {

/// The bytes of an image of `height` rows of `row_bytes` each, where `at` gives the byte at a row
/// and a position in it.
pub open spec fn rows(row_bytes: nat, height: nat, at: spec_fn(int, int) -> u8) -> Seq<u8> {
    Seq::new(row_bytes * height, |k: int| at(k / row_bytes as int, k % row_bytes as int))
}

/// The position of a byte in a row of BGRA pixels whose place is `b` in a row of RGBA pixels. It is
/// the same in the other direction.
pub open spec fn swapped(b: int) -> int {
    if b % 4 == 0 {
        b + 2
    } else if b % 4 == 2 {
        b - 2
    } else {
        b
    }
}

/// Rows of four-byte pixels with the first and third byte of each exchanged.
pub open spec fn swapped_rows(src: Seq<u8>, stride: int, width: nat, height: nat) -> Seq<u8> {
    rows(width * 4, height, |y: int, b: int| src[y * stride + swapped(b)])
}

/// Rows of four-byte pixels, reduced to the third, second and first byte of each.
pub open spec fn rgb_rows(src: Seq<u8>, stride: int, width: nat, height: nat) -> Seq<u8> {
    rows(width * 3, height, |y: int, b: int| src[y * stride + b / 3 * 4 + 2 - b % 3])
}

/// Rows of `row_bytes` bytes, each followed by zeros up to `padded`.
pub open spec fn padded_rows(
    src: Seq<u8>,
    stride: int,
    row_bytes: int,
    padded: nat,
    height: nat,
) -> Seq<u8> {
    rows(
        padded,
        height,
        |y: int, b: int|
            if b < row_bytes {
                src[y * stride + b]
            } else {
                0
            },
    )
}

/// The place of byte `b` of row `y` determines both.
pub proof fn lemma_row_position(y: int, b: int, row_bytes: int)
    requires
        0 <= b < row_bytes,
        0 <= y,
    ensures
        (y * row_bytes + b) / row_bytes == y,
        (y * row_bytes + b) % row_bytes == b,
{
    vstd::arithmetic::div_mod::lemma_fundamental_div_mod_converse(
        y * row_bytes + b,
        row_bytes,
        y,
        b,
    );
}

/// A byte of an image lies in one of its rows.
pub proof fn lemma_in_row(k: int, row_bytes: int, height: int)
    requires
        0 <= k < row_bytes * height,
        0 < row_bytes,
    ensures
        0 <= k / row_bytes < height,
        0 <= k % row_bytes < row_bytes,
        k == k / row_bytes * row_bytes + k % row_bytes,
{
    vstd::arithmetic::div_mod::lemma_fundamental_div_mod(k, row_bytes);
    assert(0 <= k / row_bytes < height) by (nonlinear_arith)
        requires
            0 <= k < row_bytes * height,
            0 < row_bytes,
            k == row_bytes * (k / row_bytes) + k % row_bytes,
            0 <= k % row_bytes < row_bytes,
    ;
    assert(row_bytes * (k / row_bytes) == k / row_bytes * row_bytes) by (nonlinear_arith);
}

/// Whether `height` rows of `row_bytes` bytes, each `stride` behind the one before, lie within
/// `len` bytes.
pub open spec fn rows_within(height: int, row_bytes: int, stride: int, len: int) -> bool {
    height > 0 ==> (height - 1) * stride + row_bytes <= len
}

/// Rows that do not overlap lie within as many strides.
pub proof fn lemma_rows_within(height: int, row_bytes: int, stride: int, len: int)
    requires
        row_bytes <= stride,
        stride * height <= len,
    ensures
        rows_within(height, row_bytes, stride, len),
{
    assert((height - 1) * stride + stride == stride * height) by (nonlinear_arith);
}

pub proof fn lemma_row_end(y: int, height: int, row_bytes: int, stride: int, len: int)
    requires
        0 <= y < height,
        0 <= row_bytes,
        0 <= stride,
        rows_within(height, row_bytes, stride, len),
    ensures
        0 <= y * stride,
        y * stride + row_bytes <= len,
        y * row_bytes + row_bytes <= row_bytes * height,
{
    assert(y * stride <= (height - 1) * stride) by (nonlinear_arith)
        requires
            0 <= y <= height - 1,
            0 <= stride,
    ;
    assert(y * row_bytes + row_bytes <= row_bytes * height) by (nonlinear_arith)
        requires
            0 <= y < height,
            0 <= row_bytes,
    ;
    assert(0 <= y * stride) by (nonlinear_arith)
        requires
            0 <= y,
            0 <= stride,
    ;
}

/// Exchanges the first and third byte of each pixel and drops what follows the pixels of a row.
pub fn swap_rows(src: &[u8], stride: usize, width: usize, height: usize) -> (r: Vec<u8>)
    requires
        width * 4 <= usize::MAX,
        rows_within(height as int, width * 4, stride as int, src@.len() as int),
    ensures
        r@ == swapped_rows(src@, stride as int, width as nat, height as nat),
{
    let row_bytes: usize = width * 4;
    let src_len: usize = src.len();
    let mut out: Vec<u8> = Vec::new();
    let mut y: usize = 0;
    let ghost f = |y: int, b: int| src@[y * stride + swapped(b)];
    while y < height
        invariant
            y <= height,
            row_bytes == width * 4,
            rows_within(height as int, row_bytes as int, stride as int, src@.len() as int),
            src_len == src@.len(),
            out@.len() == y * row_bytes,
            f == (|y: int, b: int| src@[y * stride + swapped(b)]),
            forall|k: int|
                0 <= k < out@.len() ==> (#[trigger] out@[k]) == f(
                    k / row_bytes as int,
                    k % row_bytes as int,
                ),
        decreases height - y,
    {
        proof {
            lemma_row_end(y as int, height as int, row_bytes as int, stride as int, src@.len() as int);
        }
        let start: usize = y * stride;
        let mut x: usize = 0;
        while x < width
            invariant
                x <= width,
                y < height,
                row_bytes == width * 4,
                start == y * stride,
                src_len == src@.len(),
                start + row_bytes <= src@.len(),
                out@.len() == y * row_bytes + x * 4,
                f == (|y: int, b: int| src@[y * stride + swapped(b)]),
                forall|k: int|
                    0 <= k < out@.len() ==> (#[trigger] out@[k]) == f(
                        k / row_bytes as int,
                        k % row_bytes as int,
                    ),
            decreases width - x,
        {
            let i: usize = start + x * 4;
            proof {
                lemma_row_position(y as int, x * 4, row_bytes as int);
                lemma_row_position(y as int, x * 4 + 1, row_bytes as int);
                lemma_row_position(y as int, x * 4 + 2, row_bytes as int);
                lemma_row_position(y as int, x * 4 + 3, row_bytes as int);
            }
            out.push(src[i + 2]);
            out.push(src[i + 1]);
            out.push(src[i]);
            out.push(src[i + 3]);
            x = x + 1;
        }
        y = y + 1;
        assert(y * row_bytes == (y - 1) * row_bytes + row_bytes) by (nonlinear_arith);
    }
    assert(y * row_bytes == row_bytes * height) by (nonlinear_arith)
        requires
            y == height,
    ;
    assert(out@ =~= swapped_rows(src@, stride as int, width as nat, height as nat));
    out
}

/// Keeps the third, second and first byte of each pixel, in this order.
pub fn take_rgb_rows(src: &[u8], stride: usize, width: usize, height: usize) -> (r: Vec<u8>)
    requires
        width * 4 <= usize::MAX,
        rows_within(height as int, width * 4, stride as int, src@.len() as int),
    ensures
        r@ == rgb_rows(src@, stride as int, width as nat, height as nat),
{
    let row_bytes: usize = width * 3;
    let src_len: usize = src.len();
    let mut out: Vec<u8> = Vec::new();
    let mut y: usize = 0;
    let ghost f = |y: int, b: int| src@[y * stride + b / 3 * 4 + 2 - b % 3];
    while y < height
        invariant
            y <= height,
            row_bytes == width * 3,
            width * 4 <= usize::MAX,
            rows_within(height as int, width * 4, stride as int, src@.len() as int),
            src_len == src@.len(),
            out@.len() == y * row_bytes,
            f == (|y: int, b: int| src@[y * stride + b / 3 * 4 + 2 - b % 3]),
            forall|k: int|
                0 <= k < out@.len() ==> (#[trigger] out@[k]) == f(
                    k / row_bytes as int,
                    k % row_bytes as int,
                ),
        decreases height - y,
    {
        proof {
            lemma_row_end(y as int, height as int, width * 4, stride as int, src@.len() as int);
        }
        let start: usize = y * stride;
        let mut x: usize = 0;
        while x < width
            invariant
                x <= width,
                y < height,
                row_bytes == width * 3,
                width * 4 <= usize::MAX,
                start == y * stride,
                src_len == src@.len(),
                start + width * 4 <= src@.len(),
                out@.len() == y * row_bytes + x * 3,
                f == (|y: int, b: int| src@[y * stride + b / 3 * 4 + 2 - b % 3]),
                forall|k: int|
                    0 <= k < out@.len() ==> (#[trigger] out@[k]) == f(
                        k / row_bytes as int,
                        k % row_bytes as int,
                    ),
            decreases width - x,
        {
            let i: usize = start + x * 4;
            proof {
                lemma_row_position(y as int, x * 3, row_bytes as int);
                lemma_row_position(y as int, x * 3 + 1, row_bytes as int);
                lemma_row_position(y as int, x * 3 + 2, row_bytes as int);
                assert((x * 3) / 3 == x && (x * 3) % 3 == 0);
                assert((x * 3 + 1) / 3 == x && (x * 3 + 1) % 3 == 1);
                assert((x * 3 + 2) / 3 == x && (x * 3 + 2) % 3 == 2);
                assert(f(y as int, x * 3) == src@[start + x * 4 + 2]);
                assert(f(y as int, x * 3 + 1) == src@[start + x * 4 + 1]);
                assert(f(y as int, x * 3 + 2) == src@[start + x * 4]);
            }
            out.push(src[i + 2]);
            out.push(src[i + 1]);
            out.push(src[i]);
            x = x + 1;
        }
        y = y + 1;
        assert(y * row_bytes == (y - 1) * row_bytes + row_bytes) by (nonlinear_arith);
    }
    assert(y * row_bytes == row_bytes * height) by (nonlinear_arith)
        requires
            y == height,
    ;
    assert(out@ =~= rgb_rows(src@, stride as int, width as nat, height as nat));
    out
}

/// Copies the first bytes of each row and fills the row up with zeros.
pub fn copy_rows(
    src: &[u8],
    stride: usize,
    row_bytes: usize,
    padded: usize,
    height: usize,
) -> (r: Vec<u8>)
    requires
        row_bytes <= padded,
        rows_within(height as int, row_bytes as int, stride as int, src@.len() as int),
    ensures
        r@ == padded_rows(src@, stride as int, row_bytes as int, padded as nat, height as nat),
{
    let src_len: usize = src.len();
    let mut out: Vec<u8> = Vec::new();
    let mut y: usize = 0;
    let ghost f = |y: int, b: int|
        if b < row_bytes {
            src@[y * stride + b]
        } else {
            0
        };
    while y < height
        invariant
            y <= height,
            row_bytes <= padded,
            rows_within(height as int, row_bytes as int, stride as int, src@.len() as int),
            src_len == src@.len(),
            out@.len() == y * padded,
            f == (|y: int, b: int|
                if b < row_bytes {
                    src@[y * stride + b]
                } else {
                    0
                }),
            forall|k: int|
                0 <= k < out@.len() ==> (#[trigger] out@[k]) == f(
                    k / padded as int,
                    k % padded as int,
                ),
        decreases height - y,
    {
        proof {
            lemma_row_end(y as int, height as int, row_bytes as int, stride as int, src@.len() as int);
        }
        let start: usize = y * stride;
        let mut b: usize = 0;
        while b < padded
            invariant
                b <= padded,
                y < height,
                row_bytes <= padded,
                start == y * stride,
                src_len == src@.len(),
                start + row_bytes <= src@.len(),
                out@.len() == y * padded + b,
                f == (|y: int, b: int|
                    if b < row_bytes {
                        src@[y * stride + b]
                    } else {
                        0
                    }),
                forall|k: int|
                    0 <= k < out@.len() ==> (#[trigger] out@[k]) == f(
                        k / padded as int,
                        k % padded as int,
                    ),
            decreases padded - b,
        {
            proof {
                lemma_row_position(y as int, b as int, padded as int);
            }
            if b < row_bytes {
                out.push(src[start + b]);
            } else {
                out.push(0);
            }
            b = b + 1;
        }
        y = y + 1;
        assert(y * padded == (y - 1) * padded + padded) by (nonlinear_arith);
    }
    assert(y * padded == padded * height) by (nonlinear_arith)
        requires
            y == height,
    ;
    assert(out@ =~= padded_rows(
        src@,
        stride as int,
        row_bytes as int,
        padded as nat,
        height as nat,
    ));
    out
}

/// Pixels that hide what is behind them, where the format has no alpha channel.
pub open spec fn with_format(pixels: Seq<u8>, format: BufferFormat) -> Seq<u8> {
    Seq::new(
        pixels.len(),
        |k: int|
            if format is Xrgb8888 && k % 4 == 3 {
                0xFFu8
            } else {
                pixels[k]
            },
    )
}

/// Gives pixels of a format without an alpha channel a full one.
pub fn make_opaque(pixels: Vec<u8>, format: BufferFormat) -> (r: Vec<u8>)
    ensures
        r@ == with_format(pixels@, format),
{
    if format != BufferFormat::Xrgb8888 {
        assert(pixels@ =~= with_format(pixels@, format));
        return pixels;
    }
    let ghost before = pixels@;
    let mut pixels = pixels;
    let mut i: usize = 0;
    while i < pixels.len()
        invariant
            i <= pixels@.len(),
            pixels@.len() == before.len(),
            forall|k: int|
                0 <= k < i ==> (#[trigger] pixels@[k]) == (if k % 4 == 3 {
                    0xFFu8
                } else {
                    before[k]
                }),
            forall|k: int| i <= k < before.len() ==> (#[trigger] pixels@[k]) == before[k],
        decreases pixels@.len() - i,
    {
        if i % 4 == 3 {
            pixels.set(i, 0xFF);
        }
        i = i + 1;
    }
    assert(pixels@ =~= with_format(before, format));
    pixels
}

/// Exchanging the first and third byte of each pixel twice changes nothing.
pub proof fn swapping_twice(src: Seq<u8>, width: nat, height: nat)
    requires
        src.len() == width * 4 * height,
    ensures
        swapped_rows(swapped_rows(src, (width * 4) as int, width, height), (width * 4) as int, width, height)
            == src,
{
    let stride = (width * 4) as int;
    let once = swapped_rows(src, stride, width, height);
    let twice = swapped_rows(once, stride, width, height);
    assert forall|k: int| 0 <= k < src.len() implies twice[k] == src[k] by {
        lemma_in_row(k, stride, height as int);
        let y = k / stride;
        let b = k % stride;
        let c = swapped(b);
        assert(y * stride + stride <= stride * height) by (nonlinear_arith)
            requires
                0 <= y < height,
                0 < stride,
        ;
        assert(0 <= y * stride) by (nonlinear_arith)
            requires
                0 <= y,
                0 < stride,
        ;
        lemma_row_position(y, c, stride);
        assert(twice[k] == once[y * stride + c]);
        assert(once[y * stride + c] == src[y * stride + swapped(c)]);
        assert(swapped(c) == b);
    }
    assert(twice =~= src);
}

/// Pixel `x` of row `y` keeps its place when rows are packed; blue and red change places, green and
/// alpha stay.
pub proof fn swapped_pixels_keep_their_place(
    src: Seq<u8>,
    stride: int,
    width: nat,
    height: nat,
    x: int,
    y: int,
)
    requires
        0 <= x < width,
        0 <= y < height,
    ensures
        ({
            let out = swapped_rows(src, stride, width, height);
            let to = (y * width + x) * 4;
            let from = y * stride + x * 4;
            &&& out.len() == width * height * 4
            &&& 0 <= to
            &&& to + 3 < out.len()
            &&& out[to] == src[from + 2]
            &&& out[to + 1] == src[from + 1]
            &&& out[to + 2] == src[from]
            &&& out[to + 3] == src[from + 3]
        }),
{
    let row = (width * 4) as int;
    lemma_pixel_place(x, y, width as int, height as int, 4);
    lemma_row_position(y, x * 4, row);
    lemma_row_position(y, x * 4 + 1, row);
    lemma_row_position(y, x * 4 + 2, row);
    lemma_row_position(y, x * 4 + 3, row);
}

/// Pixel `x` of row `y` keeps its place when it is reduced to red, green and blue.
pub proof fn rgb_pixels_keep_their_place(
    src: Seq<u8>,
    stride: int,
    width: nat,
    height: nat,
    x: int,
    y: int,
)
    requires
        0 <= x < width,
        0 <= y < height,
    ensures
        ({
            let out = rgb_rows(src, stride, width, height);
            let to = (y * width + x) * 3;
            let from = y * stride + x * 4;
            &&& out.len() == width * height * 3
            &&& 0 <= to
            &&& to + 2 < out.len()
            &&& out[to] == src[from + 2]
            &&& out[to + 1] == src[from + 1]
            &&& out[to + 2] == src[from]
        }),
{
    let row = (width * 3) as int;
    lemma_pixel_place(x, y, width as int, height as int, 3);
    lemma_row_position(y, x * 3, row);
    lemma_row_position(y, x * 3 + 1, row);
    lemma_row_position(y, x * 3 + 2, row);
}

proof fn lemma_pixel_place(x: int, y: int, width: int, height: int, bytes: int)
    requires
        0 <= x < width,
        0 <= y < height,
        0 < bytes,
    ensures
        (y * width + x) * bytes == y * (width * bytes) + x * bytes,
        0 <= (y * width + x) * bytes,
        (y * width + x) * bytes + bytes <= width * height * bytes,
        width * bytes * height == width * height * bytes,
        0 <= x * bytes,
        x * bytes + bytes <= width * bytes,
{
    assert((y * width + x) * bytes == y * (width * bytes) + x * bytes) by (nonlinear_arith);
    assert(0 <= y * width + x && y * width + x + 1 <= width * height) by (nonlinear_arith)
        requires
            0 <= x <= width - 1,
            0 <= y <= height - 1,
    ;
    let n = y * width + x;
    let all = width * height;
    assert(0 <= n * bytes && n * bytes + bytes <= all * bytes) by (nonlinear_arith)
        requires
            0 <= n,
            n + 1 <= all,
            0 < bytes,
    ;
    assert(width * bytes * height == width * height * bytes) by (nonlinear_arith);
    assert(0 <= x * bytes && x * bytes + bytes <= width * bytes) by (nonlinear_arith)
        requires
            0 <= x <= width - 1,
            0 < bytes,
    ;
}

/// Byte `b` of row `y` keeps its place when rows are copied, and what is behind a row is zero.
pub proof fn copied_rows_keep_their_place(
    src: Seq<u8>,
    stride: int,
    row_bytes: int,
    padded: nat,
    height: nat,
    b: int,
    y: int,
)
    requires
        0 <= b < padded,
        0 <= y < height,
    ensures
        ({
            let out = padded_rows(src, stride, row_bytes, padded, height);
            &&& out.len() == padded * height
            &&& 0 <= y * padded + b < out.len()
            &&& out[y * padded + b] == (if b < row_bytes {
                src[y * stride + b]
            } else {
                0
            })
        }),
{
    lemma_row_position(y, b, padded as int);
    assert(0 <= y * padded + b < padded * height) by (nonlinear_arith)
        requires
            0 <= b < padded,
            0 <= y <= height - 1,
    ;
}

/// Only formats without an alpha channel lose theirs: it is full then. Colors stay.
pub proof fn colours_stay_when_made_opaque(pixels: Seq<u8>, format: BufferFormat, k: int)
    requires
        0 <= k < pixels.len(),
    ensures
        with_format(pixels, format).len() == pixels.len(),
        k % 4 != 3 ==> with_format(pixels, format)[k] == pixels[k],
        k % 4 == 3 && format == BufferFormat::Argb8888 ==> with_format(pixels, format)[k]
            == pixels[k],
        k % 4 == 3 && format == BufferFormat::Xrgb8888 ==> with_format(pixels, format)[k] == 255,
{
}

} // verus!
