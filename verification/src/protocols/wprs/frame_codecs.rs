//! Frames as image files: BGRA rows to PNG and JPEG, and back.
use crate::error::Error;
use crate::protocols::image::codecs::{
    decode_jpeg_file, decode_png_file, encode_jpeg_file, encode_png_file, is_decodable,
    is_jpeg_image, jpeg_decoding_failed, jpeg_encoding_failed, jpeg_file, jpeg_image, jpeg_info,
    png_decoding_failed, png_encoding_failed, png_file, png_frame, read_jpeg_info, JpegImage,
    PngFrame, JPEG_SIDE_LIMIT, PNG_RGB, PNG_RGBA, PNG_ROW_LIMIT,
};
use crate::protocols::image::pixels::{
    lemma_in_row, lemma_row_end, lemma_row_position, lemma_rows_within, padded_rows, rgb_rows,
    swap_rows, swapped, swapped_rows, take_rgb_rows,
};
use crate::utils::text::{decimal, joined, owned, push_decimal};
use vstd::prelude::*;

verus! {

pub open spec fn saturated(n: int) -> int {
    if n > usize::MAX {
        usize::MAX as int
    } else {
        n
    }
}

/// The message with which a frame is turned down, if it is: no pixels, rows that overlap, or fewer
/// bytes than its rows take.
pub open spec fn frame_refusal(width: u32, height: u32, stride: usize, len: nat) -> Option<
    Seq<char>,
> {
    if width == 0 || height == 0 {
        Some("invalid image size"@)
    } else if stride < width * 4 {
        Some(
            "stride too small: stride="@ + decimal(stride as nat) + " width="@ + decimal(
                width as nat,
            ),
        )
    } else if len < stride * height {
        Some(
            "bgra buffer too small: len="@ + decimal(len) + " expected_at_least="@ + decimal(
                saturated(stride * height) as nat,
            ),
        )
    } else {
        None
    }
}

fn check_frame(width: u32, height: u32, stride_bytes: usize, len: usize) -> (r: Result<(), Error>)
    ensures
        match frame_refusal(width, height, stride_bytes, len as nat) {
            Some(text) => r matches Err(Error::InvalidArgument(message)) && message@ == text,
            None => r is Ok,
        },
{
    if width == 0 || height == 0 {
        return Err(Error::InvalidArgument(owned("invalid image size")));
    }
    if (stride_bytes as u64) < width as u64 * 4 {
        let mut message = owned("stride too small: stride=");
        push_decimal(&mut message, stride_bytes as u64);
        message.append(" width=");
        push_decimal(&mut message, width as u64);
        return Err(Error::InvalidArgument(message));
    }
    proof {
        assert(stride_bytes * height <= 0xFFFF_FFFF_FFFF_FFFF * 0xFFFF_FFFF) by (nonlinear_arith)
            requires
                stride_bytes <= 0xFFFF_FFFF_FFFF_FFFF,
                height <= 0xFFFF_FFFF,
        ;
    }
    let expected: u128 = stride_bytes as u128 * height as u128;
    if (len as u128) < expected {
        let shown: u64 = if expected > usize::MAX as u128 {
            usize::MAX as u64
        } else {
            expected as u64
        };
        let mut message = owned("bgra buffer too small: len=");
        push_decimal(&mut message, len as u64);
        message.append(" expected_at_least=");
        push_decimal(&mut message, shown);
        return Err(Error::InvalidArgument(message));
    }
    Ok(())
}

/// Makes a PNG file of rows of BGRA pixels, each row `stride_bytes` behind the one before.
pub fn encode_png_from_bgra(width: u32, height: u32, stride_bytes: usize, bgra: &[u8]) -> (r:
    Result<Vec<u8>, Error>)
    ensures
        ({
            let rgba = swapped_rows(bgra@, stride_bytes as int, width as nat, height as nat);
            match frame_refusal(width, height, stride_bytes, bgra@.len()) {
                Some(text) => r matches Err(Error::InvalidArgument(message)) && message@ == text,
                None => r matches Ok(out) && out@ == png_file(width, height, rgba),
            }
        }),
        r matches Ok(out) ==> width * 4 <= PNG_ROW_LIMIT ==> png_frame(out@) == Some(
            (
                width,
                height,
                PNG_RGBA,
                8u8,
                swapped_rows(bgra@, stride_bytes as int, width as nat, height as nat),
            ),
        ),
{
    match check_frame(width, height, stride_bytes, bgra.len()) {
        Ok(()) => {},
        Err(err) => {
            return Err(err);
        },
    }
    proof {
        lemma_rows_within(height as int, width * 4, stride_bytes as int, bgra@.len() as int);
    }
    let rgba = swap_rows(bgra, stride_bytes, width as usize, height as usize);
    assert(rgba@.len() == width * height * 4) by {
        assert(width as nat * 4 * height as nat == width * height * 4) by (nonlinear_arith);
    }
    match encode_png_file(width, height, rgba.as_slice()) {
        Ok(file) => Ok(file),
        Err(err) => Err(png_encoding_failed(err)),
    }
}

/// Pixels of four bytes with the first and third exchanged.
pub open spec fn bgra_of_rgba(data: Seq<u8>) -> Seq<u8> {
    Seq::new(data.len(), |k: int| data[swapped(k)])
}

/// `count` pixels of four bytes: those that `data` has, reversed and opaque, and zeros behind them.
pub open spec fn bgra_of_rgb(data: Seq<u8>, count: nat) -> Seq<u8> {
    Seq::new(
        count * 4,
        |k: int|
            if k / 4 >= data.len() / 3 {
                0u8
            } else if k % 4 == 3 {
                255u8
            } else {
                data[k / 4 * 3 + 2 - k % 4]
            },
    )
}

fn rgba_to_bgra(data: &Vec<u8>) -> (r: Vec<u8>)
    requires
        data@.len() % 4 == 0,
    ensures
        r@ == bgra_of_rgba(data@),
{
    let mut out: Vec<u8> = Vec::with_capacity(data.len());
    let mut i: usize = 0;
    while i < data.len()
        invariant
            i <= data@.len(),
            i % 4 == 0,
            data@.len() % 4 == 0,
            out@.len() == i,
            forall|k: int| 0 <= k < i ==> (#[trigger] out@[k]) == data@[swapped(k)],
        decreases data@.len() - i,
    {
        out.push(data[i + 2]);
        out.push(data[i + 1]);
        out.push(data[i]);
        out.push(data[i + 3]);
        i = i + 4;
    }
    assert(out@ =~= bgra_of_rgba(data@));
    out
}

fn rgb_to_bgra(data: &Vec<u8>, count: usize) -> (r: Vec<u8>)
    requires
        data@.len() / 3 <= count,
        count * 4 <= usize::MAX,
    ensures
        r@ == bgra_of_rgb(data@, count as nat),
{
    let mut out: Vec<u8> = Vec::with_capacity(count * 4);
    let mut i: usize = 0;
    let pixels: usize = data.len() / 3;
    while i < count
        invariant
            i <= count,
            pixels == data@.len() / 3,
            pixels <= count,
            count * 4 <= usize::MAX,
            out@.len() == i * 4,
            forall|k: int|
                0 <= k < i * 4 ==> (#[trigger] out@[k]) == bgra_of_rgb(data@, count as nat)[k],
        decreases count - i,
    {
        if i < pixels {
            out.push(data[i * 3 + 2]);
            out.push(data[i * 3 + 1]);
            out.push(data[i * 3]);
            out.push(255);
        } else {
            out.push(0);
            out.push(0);
            out.push(0);
            out.push(0);
        }
        i = i + 1;
    }
    assert(out@ =~= bgra_of_rgb(data@, count as nat));
    out
}

/// What a PNG color type that is not read is called.
pub open spec fn color_type_name(color_type: u8) -> Seq<char> {
    if color_type == 0 {
        "Grayscale"@
    } else if color_type == 3 {
        "Indexed"@
    } else {
        "GrayscaleAlpha"@
    }
}

/// The message with which a frame of a PNG file is turned down, if it is: only three or four
/// channels of eight bits are read.
pub open spec fn png_refusal(color_type: u8, bit_depth: u8) -> Option<Seq<char>> {
    if color_type == PNG_RGB || color_type == PNG_RGBA {
        if bit_depth != 8 {
            Some("unsupported PNG bit depth"@)
        } else {
            None
        }
    } else {
        Some("unsupported PNG color type: "@ + color_type_name(color_type))
    }
}

pub open spec fn bgra_of_png(width: u32, height: u32, color_type: u8, data: Seq<u8>) -> Seq<u8> {
    if color_type == PNG_RGBA {
        bgra_of_rgba(data)
    } else {
        bgra_of_rgb(data, (width * height) as nat)
    }
}

/// The size and BGRA pixels of a frame of a PNG file.
pub fn png_frame_to_bgra(frame: PngFrame) -> (r: Result<(u32, u32, Vec<u8>), Error>)
    requires
        frame.data@.len() <= isize::MAX,
        frame.bit_depth == 8 && frame.color_type == PNG_RGBA ==> frame.data@.len() == frame.width
            * frame.height * 4,
        frame.bit_depth == 8 && frame.color_type == PNG_RGB ==> frame.data@.len() == frame.width
            * frame.height * 3,
    ensures
        match png_refusal(frame.color_type, frame.bit_depth) {
            Some(text) => r matches Err(Error::Unsupported(message)) && message@ == text,
            None => r matches Ok((w, h, bgra)) && w == frame.width && h == frame.height && bgra@
                == bgra_of_png(frame.width, frame.height, frame.color_type, frame.data@),
        },
{
    if frame.color_type == PNG_RGB || frame.color_type == PNG_RGBA {
        if frame.bit_depth != 8 {
            return Err(Error::Unsupported(owned("unsupported PNG bit depth")));
        }
        if frame.color_type == PNG_RGBA {
            Ok((frame.width, frame.height, rgba_to_bgra(&frame.data)))
        } else {
            let count: usize = frame.data.len() / 3;
            assert(frame.width * frame.height >= 0) by (nonlinear_arith)
                requires
                    frame.width >= 0,
                    frame.height >= 0,
            ;
            Ok((frame.width, frame.height, rgb_to_bgra(&frame.data, count)))
        }
    } else {
        let name = if frame.color_type == 0 {
            "Grayscale"
        } else if frame.color_type == 3 {
            "Indexed"
        } else {
            "GrayscaleAlpha"
        };
        Err(Error::Unsupported(joined("unsupported PNG color type: ", name)))
    }
}

/// The size and BGRA pixels that a PNG file stands for, if it is read. A frame that this machine
/// cannot hold is not.
pub open spec fn png_pixels(file: Seq<u8>) -> Option<(u32, u32, Seq<u8>)> {
    match png_frame(file) {
        None => None,
        Some((width, height, color_type, bit_depth, data)) => if data.len() > isize::MAX
            || png_refusal(color_type, bit_depth) is Some {
            None
        } else {
            Some((width, height, bgra_of_png(width, height, color_type, data)))
        },
    }
}

/// Whether `err` is why a PNG file is not read.
pub open spec fn png_failure(file: Seq<u8>, err: Error) -> bool {
    match png_frame(file) {
        None => err is Codec,
        Some((_, _, color_type, bit_depth, data)) => if data.len() > isize::MAX {
            err is Codec
        } else {
            err matches Error::Unsupported(message) && png_refusal(color_type, bit_depth) == Some(
                message@,
            )
        },
    }
}

/// Reads a PNG file into its size and BGRA pixels.
pub fn decode_png_to_bgra(png_bytes: &[u8]) -> (r: Result<(u32, u32, Vec<u8>), Error>)
    ensures
        match r {
            Ok((width, height, bgra)) => png_pixels(png_bytes@) == Some((width, height, bgra@)),
            Err(err) => png_pixels(png_bytes@) is None && png_failure(png_bytes@, err),
        },
{
    match decode_png_file(png_bytes) {
        Ok(frame) => png_frame_to_bgra(frame),
        Err(err) => Err(png_decoding_failed(err)),
    }
}

/// Makes a JPEG file of ordinary quality of rows of BGRA pixels.
pub fn encode_jpeg_from_bgra(width: u32, height: u32, stride_bytes: usize, bgra: &[u8]) -> (r:
    Result<Vec<u8>, Error>)
    ensures
        jpeg_encoding(r, width, height, stride_bytes, bgra@, 85),
{
    encode_jpeg_from_bgra_with_quality(width, height, stride_bytes, bgra, 85)
}

/// A quality as the encoder takes it, from 1 to 100.
pub open spec fn clamped_quality(quality: u8) -> u8 {
    if quality < 1 {
        1
    } else if quality > 100 {
        100
    } else {
        quality
    }
}

/// What encoding a frame as JPEG gives. The format counts rows and columns in sixteen bits, and the
/// sizes are cut to those. Where nothing is left of one, no file can be made.
pub open spec fn jpeg_encoding(
    r: Result<Vec<u8>, Error>,
    width: u32,
    height: u32,
    stride: usize,
    bgra: Seq<u8>,
    quality: u8,
) -> bool {
    match frame_refusal(width, height, stride, bgra.len()) {
        Some(text) => r matches Err(Error::InvalidArgument(message)) && message@ == text,
        None => if width as u16 == 0 || height as u16 == 0 {
            r matches Err(Error::Codec(_))
        } else {
            r matches Ok(out) && out@ == jpeg_file(
                clamped_quality(quality),
                width as u16,
                height as u16,
                rgb_rows(bgra, stride as int, width as nat, height as nat),
            )
        },
    }
}

/// Makes a JPEG file of rows of BGRA pixels.
pub fn encode_jpeg_from_bgra_with_quality(
    width: u32,
    height: u32,
    stride_bytes: usize,
    bgra: &[u8],
    quality: u8,
) -> (r: Result<Vec<u8>, Error>)
    ensures
        jpeg_encoding(r, width, height, stride_bytes, bgra@, quality),
{
    match check_frame(width, height, stride_bytes, bgra.len()) {
        Ok(()) => {},
        Err(err) => {
            return Err(err);
        },
    }
    proof {
        lemma_rows_within(height as int, width * 4, stride_bytes as int, bgra@.len() as int);
    }
    let rgb = take_rgb_rows(bgra, stride_bytes, width as usize, height as usize);
    let quality: u8 = if quality < 1 {
        1
    } else if quality > 100 {
        100
    } else {
        quality
    };
    let columns: u16 = #[verifier::truncate] (width as u16);
    let rows: u16 = #[verifier::truncate] (height as u16);
    proof {
        assert(width as u16 <= width && height as u16 <= height) by (bit_vector);
        assert(columns * rows * 3 <= width as nat * 3 * height as nat) by (nonlinear_arith)
            requires
                0 <= columns <= width,
                0 <= rows <= height,
        ;
    }
    match encode_jpeg_file(quality, columns, rows, rgb.as_slice()) {
        Ok(file) => Ok(file),
        Err(err) => Err(jpeg_encoding_failed(err)),
    }
}

/// The size and BGRA pixels of a decoded JPEG image of three bytes per pixel.
pub fn jpeg_pixels_to_bgra(pixels: &Vec<u8>, width: u16, height: u16) -> (r: (u32, u32, Vec<u8>))
    requires
        pixels@.len() / 3 <= width * height,
        width * height * 4 <= usize::MAX,
    ensures
        r.0 == width,
        r.1 == height,
        r.2@ == bgra_of_rgb(pixels@, (width * height) as nat),
{
    assert(width * height >= 0) by (nonlinear_arith)
        requires
            width >= 0,
            height >= 0,
    ;
    let count: usize = width as usize * height as usize;
    (width as u32, height as u32, rgb_to_bgra(pixels, count))
}

/// Whether the pixels of a JPEG image fit its size at three bytes each.
pub open spec fn jpeg_fits(len: nat, width: u16, height: u16) -> bool {
    len / 3 <= width * height && width * height * 4 <= usize::MAX
}

/// The size and BGRA pixels of what the decoder made of a JPEG file. An image with more than three
/// bytes per pixel is unsupported.
pub fn jpeg_decoded_to_bgra(decoded: Result<JpegImage, String>) -> (r: Result<
    (u32, u32, Vec<u8>),
    Error,
>)
    ensures
        match decoded {
            Err(text) => r matches Err(Error::Codec(err)) && err.message == text
                && err.causes@.len() == 0,
            Ok(image) => match image.info {
                None => r matches Err(Error::Missing(message)) && message@ == "JPEG info"@,
                Some(info) => if jpeg_fits(image.pixels@.len(), info.width, info.height) {
                    r matches Ok((w, h, bgra)) && w == info.width && h == info.height && bgra@
                        == bgra_of_rgb(image.pixels@, (info.width * info.height) as nat)
                } else {
                    r matches Err(Error::Unsupported(message)) && message@
                        == "unsupported JPEG pixel format"@
                },
            },
        },
{
    let image = match decoded {
        Err(text) => {
            return Err(jpeg_decoding_failed(text));
        },
        Ok(image) => image,
    };
    match image.info {
        None => Err(Error::Missing(owned("JPEG info"))),
        Some(info) => {
            proof {
                assert(info.width * info.height <= 0xFFFF * 0xFFFF) by (nonlinear_arith)
                    requires
                        info.width <= 0xFFFF,
                        info.height <= 0xFFFF,
                ;
            }
            let count: u64 = info.width as u64 * info.height as u64;
            if image.pixels.len() as u64 / 3 <= count && count * 4 <= usize::MAX as u64 {
                Ok(jpeg_pixels_to_bgra(&image.pixels, info.width, info.height))
            } else {
                Err(Error::Unsupported(owned("unsupported JPEG pixel format")))
            }
        },
    }
}

/// Whether these are the size and BGRA pixels that a JPEG file stands for.
pub open spec fn is_bgra_of_jpeg(file: Seq<u8>, width: u32, height: u32, bgra: Seq<u8>) -> bool {
    jpeg_info(file) matches Some((w, h, _)) && width == w && height == h && is_decodable(w, h)
        && jpeg_fits(jpeg_image(file).len(), w, h) && exists|pixels: Seq<u8>|
        #[trigger] is_jpeg_image(file, pixels) && bgra == bgra_of_rgb(pixels, (w * h) as nat)
}

/// Whether `err` can be why a JPEG file is not read. The decoder may fail on any file.
pub open spec fn jpeg_failure(file: Seq<u8>, err: Error) -> bool {
    match jpeg_info(file) {
        None => err is Codec,
        Some((width, height, _)) => if !is_decodable(width, height) {
            err matches Error::Codec(foreign) && foreign.message@ == "JPEG image too large"@
                && foreign.causes@.len() == 0
        } else {
            err is Codec || (err matches Error::Unsupported(message) && message@
                == "unsupported JPEG pixel format"@ && !jpeg_fits(
                jpeg_image(file).len(),
                width,
                height,
            ))
        },
    }
}

fn can_decode(width: u16, height: u16) -> (r: bool)
    ensures
        r == is_decodable(width, height),
{
    proof {
        assert((width + 32) * (height + 32) <= 0x1_0020 * 0x1_0020) by (nonlinear_arith)
            requires
                0 <= width <= 0xFFFF,
                0 <= height <= 0xFFFF,
        ;
    }
    width <= JPEG_SIDE_LIMIT && height <= JPEG_SIDE_LIMIT && (width as u64 + 32) * (height as u64
        + 32) * 16 <= isize::MAX as u64
}

/// Reads a JPEG file into its size and BGRA pixels. Whether it can be read is up to the decoder; a
/// file without a head, or of an image that is too large, cannot.
pub fn decode_jpeg_to_bgra(jpeg_bytes: &[u8]) -> (r: Result<(u32, u32, Vec<u8>), Error>)
    ensures
        match r {
            Ok((width, height, bgra)) => is_bgra_of_jpeg(jpeg_bytes@, width, height, bgra@),
            Err(err) => jpeg_failure(jpeg_bytes@, err),
        },
{
    match read_jpeg_info(jpeg_bytes) {
        Err(text) => {
            return Err(jpeg_decoding_failed(text));
        },
        Ok(None) => {
            return Err(Error::Missing(owned("JPEG info")));
        },
        Ok(Some(info)) => {
            if !can_decode(info.width, info.height) {
                return Err(jpeg_decoding_failed(owned("JPEG image too large")));
            }
        },
    }
    let decoded = decode_jpeg_file(jpeg_bytes);
    assert(decoded matches Ok(image) ==> is_jpeg_image(jpeg_bytes@, image.pixels@));
    jpeg_decoded_to_bgra(decoded)
}

/// What is read back from the PNG file that `encode_png_from_bgra` makes of a frame, which the last
/// condition describes, is the frame, its rows packed tightly, where there is room for them.
pub proof fn png_frame_round_trip(
    width: u32,
    height: u32,
    stride: usize,
    bgra: Seq<u8>,
    file: Seq<u8>,
)
    requires
        frame_refusal(width, height, stride, bgra.len()) is None,
        width * 4 * height <= isize::MAX,
        png_frame(file) == Some(
            (
                width,
                height,
                PNG_RGBA,
                8u8,
                swapped_rows(bgra, stride as int, width as nat, height as nat),
            ),
        ),
    ensures
        png_pixels(file) == Some(
            (
                width,
                height,
                padded_rows(
                    bgra,
                    stride as int,
                    (width * 4) as int,
                    (width * 4) as nat,
                    height as nat,
                ),
            ),
        ),
{
    let row = (width * 4) as int;
    let rgba = swapped_rows(bgra, stride as int, width as nat, height as nat);
    let tight = padded_rows(bgra, stride as int, row, row as nat, height as nat);
    let back = bgra_of_rgba(rgba);
    assert forall|k: int| 0 <= k < back.len() implies back[k] == tight[k] by {
        lemma_in_row(k, row, height as int);
        let y = k / row;
        let b = k % row;
        lemma_rows_within(height as int, row, row, row * height);
        lemma_row_end(y, height as int, row, row, row * height);
        lemma_row_position(y, swapped(b), row);
        assert(y * row == (y * width) * 4) by (nonlinear_arith)
            requires
                row == width * 4,
        ;
        assert(swapped(k) == y * row + swapped(b));
        assert(swapped(swapped(b)) == b);
    }
    assert(back =~= tight);
}

/// Each pixel of four bytes keeps its place; blue and red change places.
pub proof fn rgba_pixels_become_bgra(data: Seq<u8>, i: int)
    requires
        0 <= i < data.len() as int / 4,
    ensures
        bgra_of_rgba(data).len() == data.len(),
        bgra_of_rgba(data)[4 * i] == data[4 * i + 2],
        bgra_of_rgba(data)[4 * i + 1] == data[4 * i + 1],
        bgra_of_rgba(data)[4 * i + 2] == data[4 * i],
        bgra_of_rgba(data)[4 * i + 3] == data[4 * i + 3],
{
}

/// Each pixel of three bytes keeps its place, and is opaque. Pixels that are not there are zero.
pub proof fn rgb_pixels_become_bgra(data: Seq<u8>, count: nat, i: int)
    requires
        0 <= i < count,
    ensures
        bgra_of_rgb(data, count).len() == count * 4,
        i < data.len() as int / 3 ==> {
            &&& bgra_of_rgb(data, count)[4 * i] == data[3 * i + 2]
            &&& bgra_of_rgb(data, count)[4 * i + 1] == data[3 * i + 1]
            &&& bgra_of_rgb(data, count)[4 * i + 2] == data[3 * i]
            &&& bgra_of_rgb(data, count)[4 * i + 3] == 255
        },
        i >= data.len() as int / 3 ==> {
            &&& bgra_of_rgb(data, count)[4 * i] == 0
            &&& bgra_of_rgb(data, count)[4 * i + 1] == 0
            &&& bgra_of_rgb(data, count)[4 * i + 2] == 0
            &&& bgra_of_rgb(data, count)[4 * i + 3] == 0
        },
{
}

/// A frame is encoded if it has pixels, its rows do not overlap, and all of them are there.
pub proof fn whole_frames_are_encoded(width: u32, height: u32, stride: usize, len: nat)
    ensures
        (frame_refusal(width, height, stride, len) is None) == (width > 0 && height > 0 && width * 4
            <= stride && stride * height <= len),
{
}

/// Frames of PNG files are read where they have eight bits for each of red, green and blue, with or
/// without alpha; with alpha it is kept.
pub proof fn png_frames_are_read(width: u32, height: u32, data: Seq<u8>, color_type: u8, depth: u8)
    ensures
        (png_refusal(color_type, depth) is None) == (depth == 8 && (color_type == 2 || color_type
            == 6)),
        bgra_of_png(width, height, 6, data) == bgra_of_rgba(data),
        bgra_of_png(width, height, 2, data) == bgra_of_rgb(data, (width * height) as nat),
{
}

/// A quality from one to a hundred is taken as it is; others become the nearest of those.
pub proof fn qualities_are_clamped(quality: u8)
    ensures
        1 <= clamped_quality(quality) <= 100,
        1 <= quality <= 100 ==> clamped_quality(quality) == quality,
        quality > 100 ==> clamped_quality(quality) == 100,
        quality == 0 ==> clamped_quality(quality) == 1,
{
}

} // verus!
