use crate::error::Error;
use crate::protocols::image::codecs::{
    encode_png_file, png_encoding_failed, png_file, png_frame, PNG_RGBA, PNG_ROW_LIMIT,
};
use crate::utils::text::{decimal, owned, push_decimal};
use vstd::prelude::*;

verus! {

pub open spec fn length_mismatch_text(got: int, expected: int) -> Seq<char> {
    "png encode: rgba length mismatch (got "@ + decimal(got as nat) + ", expected "@ + decimal(
        expected as nat,
    ) + ")"@
}

/// The message with which an image is turned down, if it is: no pixels, too many of them to count,
/// or not four bytes for each.
pub open spec fn rgba_refusal(len: nat, width: u32, height: u32) -> Option<Seq<char>> {
    if width == 0 || height == 0 {
        Some("png encode requires non-zero dimensions"@)
    } else if width * height * 4 > usize::MAX {
        Some("png encode: width/height overflow"@)
    } else if len != width * height * 4 {
        Some(length_mismatch_text(len as int, width * height * 4))
    } else {
        None
    }
}

/// Encodes rows of pixels of four bytes, red, green, blue and alpha.
pub fn encode_png_rgba(rgba: &[u8], width: u32, height: u32) -> (r: Result<Vec<u8>, Error>)
    ensures
        match rgba_refusal(rgba@.len(), width, height) {
            Some(text) => r matches Err(Error::InvalidArgument(message)) && message@ == text,
            None => r matches Ok(out) && out@ == png_file(width, height, rgba@),
        },
        r matches Ok(out) ==> width * 4 <= PNG_ROW_LIMIT ==> png_frame(out@) == Some(
            (width, height, PNG_RGBA, 8u8, rgba@),
        ),
{
    if width == 0 || height == 0 {
        return Err(Error::InvalidArgument(owned("png encode requires non-zero dimensions")));
    }
    proof {
        assert(width * height <= 0xFFFF_FFFF * 0xFFFF_FFFF) by (nonlinear_arith)
            requires
                width <= 0xFFFF_FFFF,
                height <= 0xFFFF_FFFF,
        ;
    }
    let expected_len: u128 = width as u128 * height as u128 * 4;
    if expected_len > usize::MAX as u128 {
        return Err(Error::InvalidArgument(owned("png encode: width/height overflow")));
    }
    if rgba.len() as u128 != expected_len {
        let mut message = owned("png encode: rgba length mismatch (got ");
        push_decimal(&mut message, rgba.len() as u64);
        message.append(", expected ");
        push_decimal(&mut message, expected_len as u64);
        message.append(")");
        return Err(Error::InvalidArgument(message));
    }
    match encode_png_file(width, height, rgba) {
        Ok(file) => Ok(file),
        Err(err) => Err(png_encoding_failed(err)),
    }
}

} // verus!
