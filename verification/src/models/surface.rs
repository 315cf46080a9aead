//! Surfaces as clients commit them: contents, role and placement.
use crate::protocols::wprs::geometry::{Point, Rectangle, Size};
use crate::protocols::wprs::tuple::Tuple2;
use crate::protocols::wprs::types::ClientId;
use crate::protocols::wprs::xdg_shell;
use crate::utils::ieee::F64;
use crate::utils::vec4u8::Vec4u8s;
use std::sync::Arc;
use vstd::prelude::*;

verus! {

/// Stable surface identifier.
#[derive(Debug, Clone, Copy, PartialEq, Eq, Hash, Structural)]
pub struct WlSurfaceId(pub u64);

/// Stable subsurface identifier.
#[derive(Debug, Clone, Copy, PartialEq, Eq, Hash, Structural)]
pub struct SubSurfaceId(pub u64);

#[derive(Debug, Clone, Copy, PartialEq, Eq, Structural)]
pub struct ClientSurface {
    pub client: ClientId,
    pub surface: WlSurfaceId,
}

#[derive(Debug, Clone, Copy, PartialEq, Eq, Structural)]
pub enum BufferFormat {
    Argb8888,
    Xrgb8888,
}

#[derive(Debug, Clone, Copy, PartialEq, Eq, Structural)]
pub struct BufferMetadata {
    pub width: i32,
    pub height: i32,
    pub stride: i32,
    pub format: BufferFormat,
}

pub open spec fn abs(n: int) -> int {
    if n < 0 {
        -n
    } else {
        n
    }
}

/// Division that rounds towards zero.
pub open spec fn truncated_quotient(a: int, b: int) -> int {
    if (a < 0) == (b < 0) {
        abs(a) / abs(b)
    } else {
        -(abs(a) / abs(b))
    }
}

impl BufferMetadata {
    /// The product of height and stride, as `len` reads it: a negative product wraps around.
    pub open spec fn byte_len(&self) -> int {
        let product = self.height * self.stride;
        if product >= 0 {
            product
        } else {
            usize::MAX + 1 + product
        }
    }

    /// Bytes per pixel, rounded towards zero.
    pub fn pixel_bytes(&self) -> (r: i32)
        requires
            self.width != 0,
            !(self.stride == i32::MIN && self.width == -1),
        ensures
            r == truncated_quotient(self.stride as int, self.width as int),
    {
        let a: u64 = if self.stride < 0 {
            (-(self.stride as i64)) as u64
        } else {
            self.stride as u64
        };
        let b: u64 = if self.width < 0 {
            (-(self.width as i64)) as u64
        } else {
            self.width as u64
        };
        let q: u64 = a / b;
        proof {
            assert(q <= a) by (nonlinear_arith)
                requires
                    b >= 1,
                    q == a / b,
            ;
            if b >= 2 {
                assert(2 * q <= a) by (nonlinear_arith)
                    requires
                        b >= 2,
                        q == a / b,
                ;
            }
        }
        if (self.stride < 0) == (self.width < 0) {
            q as i32
        } else {
            (-(q as i64)) as i32
        }
    }

    /// The length of the buffer in bytes.
    pub fn len(&self) -> (r: usize)
        requires
            i32::MIN <= self.height * self.stride <= i32::MAX,
        ensures
            r == self.byte_len(),
    {
        let product: i32 = self.height * self.stride;
        if product >= 0 {
            product as usize
        } else {
            usize::MAX - ((-(product as i64) - 1) as usize)
        }
    }

    pub fn is_empty(&self) -> (r: bool)
        requires
            i32::MIN <= self.height * self.stride <= i32::MAX,
        ensures
            r == (self.height * self.stride == 0),
    {
        self.len() == 0
    }
}

/// Filtered pixel data, shared between owners.
#[derive(Debug)]
pub struct UncompressedBufferData(pub Arc<Vec4u8s>);

impl View for UncompressedBufferData {
    type V = Seq<u8>;

    open spec fn view(&self) -> Seq<u8> {
        (*self.0)@
    }
}

impl UncompressedBufferData {
    pub fn from_pixels(value: Vec4u8s) -> (r: Self)
        ensures
            r@ == value@,
    {
        UncompressedBufferData(Arc::new(value))
    }

    pub fn pixels(&self) -> (r: &Vec4u8s)
        ensures
            r@ == self@,
    {
        &*self.0
    }
}

#[derive(Debug)]
pub enum BufferData {
    /// The bytes travel in a message of their own.
    External,
    Uncompressed(UncompressedBufferData),
}

impl BufferData {
    pub fn is_external(&self) -> (r: bool)
        ensures
            r == (self is External),
    {
        match self {
            BufferData::External => true,
            BufferData::Uncompressed(_) => false,
        }
    }
}

/// A filtered buffer as it travels.
#[derive(Debug)]
pub struct Buffer {
    pub metadata: BufferMetadata,
    pub data: BufferData,
}

#[derive(Debug)]
pub enum BufferAssignment {
    New(Buffer),
    Removed,
}

/// Plain pixel bytes.
#[derive(Debug)]
pub struct BufferPoolHandle {
    pub bytes: Vec<u8>,
}

impl View for BufferPoolHandle {
    type V = Seq<u8>;

    open spec fn view(&self) -> Seq<u8> {
        self.bytes@
    }
}

impl BufferPoolHandle {
    pub fn from_bytes(bytes: Vec<u8>) -> (r: Self)
        ensures
            r@ == bytes@,
    {
        BufferPoolHandle { bytes }
    }

    pub fn len(&self) -> (r: usize)
        ensures
            r == self@.len(),
    {
        self.bytes.len()
    }

    pub fn is_empty(&self) -> (r: bool)
        ensures
            r == (self@.len() == 0),
    {
        self.bytes.len() == 0
    }

    pub fn as_slice(&self) -> (r: &[u8])
        ensures
            r@ == self@,
    {
        self.bytes.as_slice()
    }
}

impl Clone for BufferPoolHandle {
    fn clone(&self) -> (r: Self)
        ensures
            r@ == self@,
    {
        let bytes = self.bytes.clone();
        assert(bytes@ =~= self.bytes@);
        BufferPoolHandle { bytes }
    }
}

/// An unfiltered image: rows of BGRA pixels.
#[derive(Debug)]
pub struct Bitmap {
    pub metadata: BufferMetadata,
    pub data: BufferPoolHandle,
}

#[derive(Debug)]
pub enum BitmapAssignment {
    New(Bitmap),
    Removed,
}

/// A change to a part of the bitmap that is already there.
#[derive(Debug)]
pub enum BitmapUpdate {
    Patch { x: i32, y: i32, width: i32, height: i32, stride: i32, data: BufferPoolHandle },
}

#[derive(Debug, Clone, Copy, PartialEq, Eq, Structural)]
pub enum BufferUpdate {
    Patch { x: i32, y: i32, width: i32, height: i32, stride: i32 },
}

#[derive(Debug, Clone, Copy, PartialEq, Eq, Structural)]
pub struct SubSurfaceState {
    pub parent: WlSurfaceId,
    pub location: Point<i32>,
    pub sync: bool,
}

#[derive(Debug)]
pub enum Role {
    Cursor(Point<i32>),
    SubSurface(SubSurfaceState),
    XdgToplevel(xdg_shell::XdgToplevelState),
    XdgPopup(xdg_shell::XdgPopupState),
}

#[derive(Debug, Clone, Copy, PartialEq, Eq, Structural)]
pub enum RectangleKind {
    Add,
    Subtract,
}

#[derive(Debug)]
pub struct Region {
    pub rects: Vec<Tuple2<RectangleKind, Rectangle<i32>>>,
}

impl Default for Region {
    fn default() -> (r: Self)
        ensures
            r.rects@.len() == 0,
    {
        Region { rects: Vec::new() }
    }
}

#[derive(Debug, Clone, Copy, PartialEq, Eq, Structural)]
pub enum Transform {
    Normal,
    _90,
    _180,
    _270,
    Flipped,
    Flipped90,
    Flipped180,
    Flipped270,
}

#[derive(Debug, Clone, Copy, PartialEq, Eq, Structural)]
pub struct SubsurfacePosition {
    pub id: WlSurfaceId,
    pub position: Point<i32>,
}

#[derive(Debug, Clone, Copy, PartialEq, Eq, Structural)]
pub struct ViewportState {
    pub src: Option<Rectangle<F64>>,
    pub dst: Option<Size<i32>>,
}

/// Everything a client has committed for one surface.
///
/// A buffer that travels filtered is in `buffer`; one that is ready to be drawn is in `bitmap`.
#[derive(Debug)]
pub struct SurfaceState {
    pub client: ClientId,
    pub id: WlSurfaceId,
    pub buffer: Option<BufferAssignment>,
    pub buffer_update: Option<BufferUpdate>,
    pub bitmap: Option<BitmapAssignment>,
    pub bitmap_update: Option<BitmapUpdate>,
    pub role: Option<Role>,
    pub buffer_scale: i32,
    pub buffer_transform: Option<Transform>,
    pub opaque_region: Option<Region>,
    pub input_region: Option<Region>,
    pub z_ordered_children: Vec<SubsurfacePosition>,
    pub damage: Option<Vec<Rectangle<i32>>>,
    pub output_ids: Vec<u32>,
    pub viewport_state: Option<ViewportState>,
    pub xdg_surface_state: Option<xdg_shell::XdgSurfaceState>,
}

/// Quotients are rounded towards zero: the rest is smaller than the divisor and has the sign of what
/// is divided.
pub proof fn quotients_round_towards_zero(a: int, b: int)
    requires
        b != 0,
    ensures
        ({
            let rest = a - truncated_quotient(a, b) * b;
            &&& abs(rest) < abs(b)
            &&& a >= 0 ==> rest >= 0
            &&& a <= 0 ==> rest <= 0
        }),
{
    let (x, y) = (abs(a), abs(b));
    let q = x / y;
    assert(0 <= x - q * y < y) by (nonlinear_arith)
        requires
            q == x / y,
            x >= 0,
            y > 0,
    ;
    assert(q * (-b) == -(q * b) && (-q) * b == -(q * b)) by (nonlinear_arith);
}

/// Where height and stride are not negative, the length is their product.
pub proof fn lengths_are_products(metadata: BufferMetadata)
    requires
        metadata.height >= 0,
        metadata.stride >= 0,
    ensures
        metadata.byte_len() == metadata.height * metadata.stride,
{
    assert(metadata.height * metadata.stride >= 0) by (nonlinear_arith)
        requires
            metadata.height >= 0,
            metadata.stride >= 0,
    ;
}

} // verus!
