//! A backend that hands a terminal the window as an image.
use crate::client::backends::selected_window::WindowPixels;
use crate::error::Error;
use crate::protocols::image::codecs::png_file;
use crate::protocols::image::png::{encode_png_rgba, rgba_refusal};
use vstd::prelude::*;

verus! {

/// The file of a window's pixels.
pub fn window_image(pixels: &WindowPixels) -> (r: Result<Vec<u8>, Error>)
    ensures
        ({
            let width = #[verifier::truncate] (pixels.metadata.width as u32);
            let height = #[verifier::truncate] (pixels.metadata.height as u32);
            match rgba_refusal(pixels.rgba@.len(), width, height) {
                Some(text) => r matches Err(Error::InvalidArgument(message)) && message@ == text,
                None => r matches Ok(out) && out@ == png_file(width, height, pixels.rgba@),
            }
        }),
{
    let width: u32 = #[verifier::truncate] (pixels.metadata.width as u32);
    let height: u32 = #[verifier::truncate] (pixels.metadata.height as u32);
    encode_png_rgba(pixels.rgba.as_slice(), width, height)
}

} // verus!
