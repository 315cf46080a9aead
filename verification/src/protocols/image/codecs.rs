//! The image codecs of other crates, and what is believed of them.
use crate::error::{Error, ForeignError};
use vstd::prelude::*;

verus! {

#[verifier::external_type_specification]
#[verifier::external_body]
pub struct ExPngEncodingError(png::EncodingError);

#[verifier::external_type_specification]
#[verifier::external_body]
pub struct ExPngDecodingError(png::DecodingError);

#[verifier::external_type_specification]
#[verifier::external_body]
pub struct ExJpegEncodingError(jpeg_encoder::EncodingError);

/// The number of the color type of four channels, red, green, blue and alpha, in the PNG format.
pub const PNG_RGBA: u8 = 6;

/// The number of the color type of three channels in the PNG format.
pub const PNG_RGB: u8 = 2;

/// The number of bytes that a decoded PNG row may take.
pub const PNG_ROW_LIMIT: u32 = 0x400_0000;

/// The first frame of a PNG image, as its decoder hands it out.
#[derive(Debug)]
pub struct PngFrame {
    pub width: u32,
    pub height: u32,
    /// The number of the color type in the PNG format.
    pub color_type: u8,
    /// Bits per channel.
    pub bit_depth: u8,
    pub data: Vec<u8>,
}

/// What a JPEG file says of its image.
#[derive(Debug, Clone, Copy, PartialEq, Eq, Structural)]
pub struct JpegInfo {
    pub width: u16,
    pub height: u16,
    /// The bytes of a pixel: one, three or four channels of a byte each, or one channel of two.
    pub pixel_bytes: usize,
}

/// A JPEG image, as its decoder hands it out.
#[derive(Debug)]
pub struct JpegImage {
    pub pixels: Vec<u8>,
    /// What the decoder knows of the image.
    pub info: Option<JpegInfo>,
}

/// The width or height up to which JPEG images are decoded. Beyond, the decoder's count of blocks
/// of eight pixels does not fit in sixteen bits.
pub const JPEG_SIDE_LIMIT: u16 = 65528;

/// The PNG file that the encoder makes of the rows of an image of eight bits per channel, red,
/// green, blue and alpha.
pub uninterp spec fn png_file(width: u32, height: u32, rgba: Seq<u8>) -> Seq<u8>;

/// The width, height, color type, bit depth and rows of the first frame of a PNG file, if the
/// decoder reads one where there is room for it.
pub uninterp spec fn png_frame(file: Seq<u8>) -> Option<(u32, u32, u8, u8, Seq<u8>)>;

/// The JPEG file that the encoder makes of an image of three bytes per pixel, red, green and blue.
pub uninterp spec fn jpeg_file(quality: u8, width: u16, height: u16, rgb: Seq<u8>) -> Seq<u8>;

/// The width and height of the image in a JPEG file and the bytes of its pixels, if the file says
/// so.
pub uninterp spec fn jpeg_info(file: Seq<u8>) -> Option<(u16, u16, usize)>;

/// The pixels of a JPEG file as the decoder gives them on a little-endian machine, where it gives
/// any.
pub uninterp spec fn jpeg_image(file: Seq<u8>) -> Seq<u8>;

pub open spec fn info_view(info: Option<JpegInfo>) -> Option<(u16, u16, usize)> {
    match info {
        Some(info) => Some((info.width, info.height, info.pixel_bytes)),
        None => None,
    }
}

/// Whether an image is not too large for the decoder: its sides can be counted in blocks, and no
/// buffer on the way is larger than a buffer can be. Sides are rounded up to whole blocks there, and
/// a buffer that grows has up to sixteen bytes for each pixel.
pub open spec fn is_decodable(width: u16, height: u16) -> bool {
    &&& width <= JPEG_SIDE_LIMIT
    &&& height <= JPEG_SIDE_LIMIT
    &&& (width + 32) * (height + 32) * 16 <= isize::MAX
}

/// Whether an image of so many bytes has a byte for each channel. Only lossless files have samples of
/// more than one byte, whose order is that of the machine.
pub open spec fn has_byte_channels(info: (u16, u16, usize), len: nat) -> bool {
    info.2 != 2 && len == info.0 * info.1 * info.2
}

/// Whether these are the pixels of a JPEG file: as many bytes as on any machine, and the same ones
/// where a channel is a byte.
pub open spec fn is_jpeg_image(file: Seq<u8>, pixels: Seq<u8>) -> bool {
    &&& pixels.len() == jpeg_image(file).len()
    &&& jpeg_info(file) matches Some(info) ==> has_byte_channels(info, pixels.len()) ==> pixels
        == jpeg_image(file)
}

/// Calls `png::Encoder`: `new`, `set_color` (four channels), `set_depth` (eight bits),
/// `write_header`, then `write_image_data` and `finish` on the writer.
///
/// With four bytes for each pixel it fails only where there is no pixel: this color type has this
/// depth, and writing to a vector does not fail. The file depends on the size and the pixels alone.
/// PNG compression loses nothing: the decoder gives the size and the pixels back, where a row is not
/// longer than it is willing to read.
#[verifier::external_body]
pub(crate) fn encode_png_file(width: u32, height: u32, rgba: &[u8]) -> (r: std::result::Result<
    Vec<u8>,
    png::EncodingError,
>)
    requires
        rgba@.len() == width * height * 4,
    ensures
        match r {
            Ok(file) => width > 0 && height > 0 && file@ == png_file(width, height, rgba@),
            Err(_) => width == 0 || height == 0,
        },
        r matches Ok(file) ==> width * 4 <= PNG_ROW_LIMIT ==> png_frame(file@) == Some(
            (width, height, PNG_RGBA, 8u8, rgba@),
        ),
{
    let mut out = Vec::new();
    let mut encoder = png::Encoder::new(&mut out, width, height);
    encoder.set_color(png::ColorType::Rgba);
    encoder.set_depth(png::BitDepth::Eight);
    let mut writer = encoder.write_header()?;
    writer.write_image_data(rgba)?;
    writer.finish()?;
    Ok(out)
}

/// Calls `png::Decoder`: `new`, `read_info`, then `output_buffer_size` and `next_frame` on the
/// reader; `buffer_size` bytes of the buffer are the frame.
///
/// The frame depends on the file alone, save that one of more than `isize::MAX` bytes, which this
/// machine cannot hold, is not read. A frame of three or four channels of eight bits has as many
/// bytes for each of its pixels.
#[verifier::external_body]
pub(crate) fn decode_png_file(file: &[u8]) -> (r: std::result::Result<PngFrame, png::DecodingError>)
    ensures
        match r {
            Ok(f) => png_frame(file@) == Some(
                (f.width, f.height, f.color_type, f.bit_depth, f.data@),
            ),
            Err(_) => png_frame(file@) matches Some((_, _, _, _, data)) ==> data.len() > isize::MAX,
        },
        r matches Ok(f) ==> {
            &&& f.data@.len() <= isize::MAX
            &&& f.bit_depth == 8 && f.color_type == PNG_RGBA ==> f.data@.len() == f.width * f.height
                * 4
            &&& f.bit_depth == 8 && f.color_type == PNG_RGB ==> f.data@.len() == f.width * f.height
                * 3
        },
{
    let mut reader = png::Decoder::new(std::io::Cursor::new(file)).read_info()?;
    let mut data = vec![0u8; reader.output_buffer_size().unwrap_or_default()];
    let info = reader.next_frame(&mut data)?;
    data.truncate(info.buffer_size());
    let (width, height) = (info.width, info.height);
    let (color_type, bit_depth) = (info.color_type as u8, info.bit_depth as u8);
    Ok(PngFrame { width, height, color_type, bit_depth, data })
}

/// Calls `jpeg_encoder::Encoder`: `new`, then `encode` with three channels.
///
/// With at least three bytes for each pixel it fails only where there is no pixel: writing to a
/// vector does not fail. The file depends on the arguments alone.
#[verifier::external_body]
pub(crate) fn encode_jpeg_file(quality: u8, width: u16, height: u16, rgb: &[u8]) -> (r:
    std::result::Result<Vec<u8>, jpeg_encoder::EncodingError>)
    requires
        width * height * 3 <= rgb@.len(),
    ensures
        match r {
            Ok(file) => width > 0 && height > 0 && file@ == jpeg_file(quality, width, height, rgb@),
            Err(_) => width == 0 || height == 0,
        },
{
    let mut out = Vec::new();
    let encoder = jpeg_encoder::Encoder::new(&mut out, quality);
    encoder.encode(rgb, width, height, jpeg_encoder::ColorType::Rgb)?;
    Ok(out)
}

/// Calls `jpeg_decoder::Decoder`: `new`, `read_info` and `info`, then `pixel_bytes` on the format.
///
/// Only the head of the file is read, and what it says, or that it says nothing, depends on the file
/// alone. Where that fails, the error is the text of the decoder's own, of which nothing is claimed.
#[verifier::external_body]
pub(crate) fn read_jpeg_info(file: &[u8]) -> (r: std::result::Result<Option<JpegInfo>, String>)
    ensures
        match r {
            Ok(info) => info is Some && info_view(info) == jpeg_info(file@),
            Err(_) => jpeg_info(file@) is None,
        },
{
    let mut decoder = jpeg_decoder::Decoder::new(file);
    decoder.read_info().map_err(|err| err.to_string())?;
    Ok(decoder.info().map(|info| JpegInfo {
        width: info.width,
        height: info.height,
        pixel_bytes: info.pixel_format.pixel_bytes(),
    }))
}

/// Calls `jpeg_decoder::Decoder`: `new`, `decode` and `info`, then `pixel_bytes` on the format.
///
/// The decoder panics, in a build with overflow checks, on images whose blocks it cannot count:
/// these are left out. Where it succeeds, the image is as the head of the file says, and its pixels
/// depend on the file alone, save that samples of two bytes are in the order of the machine. That
/// holds because the crate is built with its feature `platform_independent`: without it, transform
/// and color conversion round as the processor's vector instructions do. When it succeeds is left
/// unsaid: for images wider than 128 pixels it starts threads, which the system may refuse. Where it
/// fails, the error is the text of the decoder's own, of which nothing is claimed.
#[verifier::external_body]
pub(crate) fn decode_jpeg_file(file: &[u8]) -> (r: std::result::Result<JpegImage, String>)
    requires
        jpeg_info(file@) matches Some((width, height, _)) ==> is_decodable(width, height),
    ensures
        r matches Ok(image) ==> {
            &&& image.info is Some
            &&& info_view(image.info) == jpeg_info(file@)
            &&& image.pixels@.len() == jpeg_image(file@).len()
            &&& has_byte_channels(jpeg_info(file@).unwrap(), image.pixels@.len()) ==> image.pixels@
                == jpeg_image(file@)
        },
{
    let mut decoder = jpeg_decoder::Decoder::new(file);
    let pixels = decoder.decode().map_err(|err| err.to_string())?;
    let info = decoder.info().map(|info| JpegInfo {
        width: info.width,
        height: info.height,
        pixel_bytes: info.pixel_format.pixel_bytes(),
    });
    Ok(JpegImage { pixels, info })
}

/// Calls `to_string` on a `png::EncodingError`. Nothing is claimed of the text.
#[verifier::external_body]
fn png_encoding_error_text(err: &png::EncodingError) -> String {
    err.to_string()
}

/// Calls `to_string` on a `png::DecodingError`. Nothing is claimed of the text.
#[verifier::external_body]
fn png_decoding_error_text(err: &png::DecodingError) -> String {
    err.to_string()
}

/// Calls `to_string` on a `jpeg_encoder::EncodingError`. Nothing is claimed of the text.
#[verifier::external_body]
fn jpeg_encoding_error_text(err: &jpeg_encoder::EncodingError) -> String {
    err.to_string()
}

pub(crate) fn png_encoding_failed(err: png::EncodingError) -> (r: Error)
    ensures
        r is Codec,
{
    Error::Codec(ForeignError::new(png_encoding_error_text(&err)))
}

pub(crate) fn png_decoding_failed(err: png::DecodingError) -> (r: Error)
    ensures
        r is Codec,
{
    Error::Codec(ForeignError::new(png_decoding_error_text(&err)))
}

pub(crate) fn jpeg_encoding_failed(err: jpeg_encoder::EncodingError) -> (r: Error)
    ensures
        r is Codec,
{
    Error::Codec(ForeignError::new(jpeg_encoding_error_text(&err)))
}

pub(crate) fn jpeg_decoding_failed(text: String) -> (r: Error)
    ensures
        r matches Error::Codec(err) && err.message == text && err.causes@.len() == 0,
{
    Error::Codec(ForeignError::new(text))
}

} // verus!
