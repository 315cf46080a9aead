//! A backend that shows one window in a terminal that can display images.
use crate::error::Error;
use crate::models::surface::{
    Bitmap, BitmapAssignment, BufferFormat, BufferMetadata, Role, SurfaceState, WlSurfaceId,
};
use crate::models::surface_model::{BitmapModel, RoleModel, SurfaceModel};
use crate::protocols::image::codecs::{encode_png_file, png_encoding_failed, png_file};
use crate::protocols::image::pixels::{
    lemma_rows_within, make_opaque, swap_rows, swapped_pixels_keep_their_place, swapped_rows,
    with_format,
};
use crate::utils::text::owned;
use vstd::prelude::*;

verus! {

#[derive(Debug, Clone, Copy, PartialEq, Eq, Structural)]
pub struct ScreenSize {
    pub rows: usize,
    pub cols: usize,
    pub xpixel: usize,
    pub ypixel: usize,
}

/// The size that a terminal reports, which must not be zero.
pub fn usable_size(size: ScreenSize) -> (r: Result<ScreenSize, Error>)
    ensures
        if size.cols > 0 && size.rows > 0 {
            r == Ok::<ScreenSize, Error>(size)
        } else {
            r matches Err(Error::InvalidArgument(text)) && text@ == "terminal reported zero size"@
        },
{
    if size.cols > 0 && size.rows > 0 {
        Ok(size)
    } else {
        Err(Error::InvalidArgument(owned("terminal reported zero size")))
    }
}

/// The pixels of a window: red, green, blue and alpha, one row after the other.
#[derive(Debug)]
pub struct Picture {
    pub rgba: Vec<u8>,
    pub width: u32,
    pub height: u32,
}

#[verifier::ext_equal]
pub struct PictureModel {
    pub rgba: Seq<u8>,
    pub width: u32,
    pub height: u32,
}

impl View for Picture {
    type V = PictureModel;

    open spec fn view(&self) -> PictureModel {
        PictureModel { rgba: self.rgba@, width: self.width, height: self.height }
    }
}

/// What is wrong with the rows of a bitmap that has pixels, if something is.
pub open spec fn rows_refusal(metadata: BufferMetadata, len: nat) -> Option<Seq<char>> {
    if metadata.width == 0 || metadata.height == 0 {
        None
    } else if metadata.stride < metadata.width * 4 {
        Some("bitmap stride too small"@)
    } else if len < metadata.height * metadata.stride {
        Some("bitmap data too short"@)
    } else {
        None
    }
}

/// The pixels of a bitmap, in the order in which images have them.
pub open spec fn bitmap_pixels(bitmap: BitmapModel, format: BufferFormat) -> Seq<u8> {
    if bitmap.metadata.width == 0 || bitmap.metadata.height == 0 {
        Seq::empty()
    } else {
        with_format(
            swapped_rows(
                bitmap.data,
                bitmap.metadata.stride as int,
                bitmap.metadata.width as nat,
                bitmap.metadata.height as nat,
            ),
            format,
        )
    }
}

/// Whether the sizes are those of an image: nothing below zero, unless there are no pixels.
pub open spec fn is_image(metadata: BufferMetadata) -> bool {
    ||| metadata.width == 0
    ||| metadata.height == 0
    ||| metadata.width > 0 && metadata.height > 0 && metadata.stride >= 0
}

/// The pixels of a bitmap, in the order in which images have them.
pub fn bitmap_to_rgba(bitmap: &Bitmap, format: BufferFormat) -> (r: Result<Vec<u8>, Error>)
    requires
        is_image(bitmap.metadata),
    ensures
        match rows_refusal(bitmap.metadata, bitmap.data@.len()) {
            Some(text) => r matches Err(Error::InvalidArgument(message)) && message@ == text,
            None => r matches Ok(rgba) && rgba@ == bitmap_pixels(
                BitmapModel { metadata: bitmap.metadata, data: bitmap.data@ },
                format,
            ),
        },
{
    let metadata = bitmap.metadata;
    if metadata.width == 0 || metadata.height == 0 {
        return Ok(Vec::new());
    }
    let width: u64 = metadata.width as u64;
    let height: u64 = metadata.height as u64;
    let stride: u64 = metadata.stride as u64;
    if stride < width * 4 {
        return Err(Error::InvalidArgument(owned("bitmap stride too small")));
    }
    proof {
        assert(height * stride <= 0x8000_0000 * 0x8000_0000) by (nonlinear_arith)
            requires
                height <= 0x8000_0000,
                stride <= 0x8000_0000,
        ;
        assert(stride * height == height * stride) by (nonlinear_arith);
        lemma_rows_within(
            height as int,
            width * 4,
            stride as int,
            stride * height,
        );
    }
    if (bitmap.data.len() as u64) < height * stride {
        return Err(Error::InvalidArgument(owned("bitmap data too short")));
    }
    let pixels = swap_rows(
        bitmap.data.as_slice(),
        stride as usize,
        width as usize,
        height as usize,
    );
    Ok(make_opaque(pixels, format))
}

/// The file that the terminal gets for a picture.
pub fn encode_rgba_png(rgba: &[u8], width: u32, height: u32) -> (r: Result<Vec<u8>, Error>)
    requires
        width * height * 4 <= usize::MAX,
    ensures
        if rgba@.len() != width * height * 4 {
            r matches Err(Error::InvalidArgument(text)) && text@ == "rgba buffer size mismatch"@
        } else if width == 0 || height == 0 {
            r matches Err(Error::Codec(_))
        } else {
            r matches Ok(out) && out@ == png_file(width, height, rgba@)
        },
{
    assert(width * height <= width * height * 4) by (nonlinear_arith);
    let expected: usize = width as usize * height as usize * 4;
    if rgba.len() != expected {
        return Err(Error::InvalidArgument(owned("rgba buffer size mismatch")));
    }
    match encode_png_file(width, height, rgba) {
        Ok(file) => Ok(file),
        Err(err) => Err(png_encoding_failed(err)),
    }
}

/// The file to show, if there is something to show and room for it.
pub fn render_rgba(screen: ScreenSize, picture: &Picture) -> (r: Result<Option<Vec<u8>>, Error>)
    requires
        picture.width * picture.height * 4 <= usize::MAX,
    ensures
        if screen.cols == 0 || screen.rows == 0 || picture.width == 0 || picture.height == 0 {
            r == Ok::<Option<Vec<u8>>, Error>(None)
        } else if picture.rgba@.len() != picture.width * picture.height * 4 {
            r matches Err(Error::InvalidArgument(text)) && text@ == "rgba buffer size mismatch"@
        } else {
            r matches Ok(Some(out)) && out@ == png_file(
                picture.width,
                picture.height,
                picture.rgba@,
            )
        },
{
    if screen.cols == 0 || screen.rows == 0 || picture.width == 0 || picture.height == 0 {
        return Ok(None);
    }
    match encode_rgba_png(picture.rgba.as_slice(), picture.width, picture.height) {
        Ok(file) => Ok(Some(file)),
        Err(err) => Err(err),
    }
}

/// The window that is shown: the first one that there was.
pub struct TerminalPresenter {
    pub selected_surface: Option<WlSurfaceId>,
    pub selected_size: Option<(u32, u32)>,
}

/// The window that is shown once `state` is known.
pub open spec fn selection(selected: Option<WlSurfaceId>, state: SurfaceModel) -> Option<
    WlSurfaceId,
> {
    match (selected, state.role) {
        (None, Some(RoleModel::XdgToplevel(_))) => Some(state.id),
        _ => selected,
    }
}

/// The bitmap of a window that is there as a whole.
pub open spec fn whole_bitmap(state: SurfaceModel) -> Option<BitmapModel> {
    match state.bitmap {
        Some(Some(bitmap)) => if bitmap.data.len() < bitmap.metadata.byte_len() {
            None
        } else {
            Some(bitmap)
        },
        _ => None,
    }
}

/// Whether the sizes of a window make sense as far as they are used: only those of the window that
/// is shown are.
pub open spec fn is_sound(selected: Option<WlSurfaceId>, state: SurfaceModel) -> bool {
    selection(selected, state) == Some(state.id) ==> match state.bitmap {
        Some(Some(bitmap)) => {
            &&& i32::MIN <= bitmap.metadata.height * bitmap.metadata.stride <= i32::MAX
            &&& bitmap.metadata.byte_len() <= bitmap.data.len() ==> is_image(bitmap.metadata)
        },
        _ => true,
    }
}

impl TerminalPresenter {
    pub fn new() -> (r: Self)
        ensures
            r.selected_surface is None,
            r.selected_size is None,
    {
        TerminalPresenter { selected_surface: None, selected_size: None }
    }

    /// The new picture of the window that is shown, if `state` brings one.
    pub fn apply_surface(&mut self, state: &SurfaceState) -> (r: Result<Option<Picture>, Error>)
        requires
            is_sound(old(self).selected_surface, state@),
        ensures
            ({
                let selected = selection(old(self).selected_surface, state@);
                &&& final(self).selected_surface == selected
                &&& match whole_bitmap(state@) {
                    Some(bitmap) => if selected == Some(state@.id) {
                        match rows_refusal(bitmap.metadata, bitmap.data.len()) {
                            Some(text) => {
                                &&& r matches Err(Error::InvalidArgument(message)) && message@
                                    == text
                                &&& final(self).selected_size == old(self).selected_size
                            },
                            None => {
                                let width = #[verifier::truncate] (bitmap.metadata.width as u32);
                                let height = #[verifier::truncate] (bitmap.metadata.height as u32);
                                &&& r matches Ok(Some(picture)) && picture@ == (PictureModel {
                                    rgba: bitmap_pixels(bitmap, bitmap.metadata.format),
                                    width,
                                    height,
                                })
                                &&& final(self).selected_size == Some((width, height))
                            },
                        }
                    } else {
                        r == Ok::<Option<Picture>, Error>(None) && final(self).selected_size
                            == old(self).selected_size
                    },
                    None => r == Ok::<Option<Picture>, Error>(None) && final(self).selected_size
                        == old(self).selected_size,
                }
            }),
    {
        let toplevel = match &state.role {
            Some(Role::XdgToplevel(_)) => true,
            _ => false,
        };
        if self.selected_surface.is_none() && toplevel {
            self.selected_surface = Some(state.id);
        }
        if self.selected_surface != Some(state.id) {
            return Ok(None);
        }
        let bitmap = match &state.bitmap {
            Some(BitmapAssignment::New(bitmap)) => bitmap,
            _ => {
                return Ok(None);
            },
        };
        let metadata = bitmap.metadata;
        if bitmap.data.len() < metadata.len() {
            return Ok(None);
        }
        let rgba = match bitmap_to_rgba(bitmap, metadata.format) {
            Ok(rgba) => rgba,
            Err(err) => {
                return Err(err);
            },
        };
        let width: u32 = #[verifier::truncate] (metadata.width as u32);
        let height: u32 = #[verifier::truncate] (metadata.height as u32);
        self.selected_size = Some((width, height));
        Ok(Some(Picture { rgba, width, height }))
    }

    /// Whether the sizes of a window make sense as far as they are used.
    pub fn surface_is_sound(&self, state: &SurfaceState) -> (r: bool)
        ensures
            r == is_sound(self.selected_surface, state@),
    {
        let toplevel = match &state.role {
            Some(Role::XdgToplevel(_)) => true,
            _ => false,
        };
        let shown = self.selected_surface == Some(state.id) || (self.selected_surface.is_none()
            && toplevel);
        let bitmap = match &state.bitmap {
            Some(BitmapAssignment::New(bitmap)) => bitmap,
            _ => {
                return true;
            },
        };
        let metadata = bitmap.metadata;
        if !shown {
            return true;
        }
        match metadata.height.checked_mul(metadata.stride) {
            Some(_) => metadata.len() > bitmap.data.len() || metadata.width == 0
                || metadata.height == 0 || metadata.width > 0 && metadata.height > 0
                && metadata.stride >= 0,
            None => false,
        }
    }
}

/// A window that is shown stays the one that is shown.
pub proof fn selection_stays(selected: WlSurfaceId, state: SurfaceModel)
    ensures
        selection(Some(selected), state) == Some(selected),
{
}

/// A picture that a window brings can be shown as a file: its bytes are those of its size.
pub proof fn pictures_fill_their_size(bitmap: BitmapModel, format: BufferFormat)
    requires
        is_image(bitmap.metadata),
        rows_refusal(bitmap.metadata, bitmap.data.len()) is None,
        bitmap.metadata.width > 0,
        bitmap.metadata.height > 0,
    ensures
        bitmap_pixels(bitmap, format).len() == bitmap.metadata.width * bitmap.metadata.height * 4,
{
    let width = bitmap.metadata.width as int;
    let height = bitmap.metadata.height as int;
    assert(width * 4 * height == width * height * 4) by (nonlinear_arith);
}

/// The picture of a bitmap has each pixel at its place: red, green and blue, and alpha, which is full
/// where the format has none.
pub proof fn pictures_show_their_bitmap(bitmap: BitmapModel, format: BufferFormat, x: int, y: int)
    requires
        0 <= x < bitmap.metadata.width,
        0 <= y < bitmap.metadata.height,
    ensures
        ({
            let rgba = bitmap_pixels(bitmap, format);
            let to = (y * bitmap.metadata.width + x) * 4;
            let from = y * bitmap.metadata.stride + x * 4;
            &&& 0 <= to && to + 3 < rgba.len()
            &&& rgba[to] == bitmap.data[from + 2]
            &&& rgba[to + 1] == bitmap.data[from + 1]
            &&& rgba[to + 2] == bitmap.data[from]
            &&& rgba[to + 3] == (if format == BufferFormat::Xrgb8888 {
                255u8
            } else {
                bitmap.data[from + 3]
            })
        }),
{
    swapped_pixels_keep_their_place(
        bitmap.data,
        bitmap.metadata.stride as int,
        bitmap.metadata.width as nat,
        bitmap.metadata.height as nat,
        x,
        y,
    );
}

/// The first toplevel is the window that is shown, and no other surface ever is.
pub proof fn first_toplevel_is_selected(selected: Option<WlSurfaceId>, state: SurfaceModel)
    ensures
        selected is None && (state.role matches Some(RoleModel::XdgToplevel(_))) ==> selection(
            selected,
            state,
        ) == Some(state.id),
        selected is None && !(state.role matches Some(RoleModel::XdgToplevel(_))) ==> selection(
            selected,
            state,
        ) is None,
        selected is Some ==> selection(selected, state) == selected,
{
}

/// A bitmap is shown only where all the bytes that its rows take are there.
pub proof fn whole_bitmaps_are_shown(state: SurfaceModel, bitmap: BitmapModel)
    requires
        state.bitmap == Some(Some(bitmap)),
        bitmap.metadata.width > 0,
        bitmap.metadata.height > 0,
        bitmap.metadata.stride >= 0,
    ensures
        (whole_bitmap(state) is Some) == (bitmap.metadata.height * bitmap.metadata.stride
            <= bitmap.data.len()),
        whole_bitmap(state) is Some ==> whole_bitmap(state) == Some(bitmap),
        (rows_refusal(bitmap.metadata, bitmap.data.len()) is None) == (bitmap.metadata.width * 4
            <= bitmap.metadata.stride && bitmap.metadata.height * bitmap.metadata.stride
            <= bitmap.data.len()),
{
    assert(bitmap.metadata.height * bitmap.metadata.stride >= 0) by (nonlinear_arith)
        requires
            bitmap.metadata.height > 0,
            bitmap.metadata.stride >= 0,
    ;
}

} // verus!
