//! The content of a surface state as a mathematical value, with copying and comparison.
use crate::models::surface::{
    Bitmap, BitmapAssignment, BitmapUpdate, Buffer, BufferAssignment, BufferData, BufferMetadata,
    BufferUpdate, RectangleKind, Region, Role, SubSurfaceState,
    SubsurfacePosition, SurfaceState, Transform, UncompressedBufferData, ViewportState,
    WlSurfaceId,
};
use crate::protocols::wprs::geometry::{Point, Rectangle};
use crate::protocols::wprs::tuple::Tuple2;
use crate::protocols::wprs::types::ClientId;
use crate::protocols::wprs::xdg_shell::{
    DecorationMode, XdgPopupState, XdgSurfaceState, XdgToplevelId, XdgToplevelState,
};
use crate::utils::ieee::F64;
use vstd::prelude::*;

verus! {

/// A filtered buffer: no data where the bytes travel separately.
#[verifier::ext_equal]
pub struct BufferModel {
    pub metadata: BufferMetadata,
    pub data: Option<Seq<u8>>,
}

#[verifier::ext_equal]
pub struct BitmapModel {
    pub metadata: BufferMetadata,
    pub data: Seq<u8>,
}

#[verifier::ext_equal]
pub struct PatchModel {
    pub x: i32,
    pub y: i32,
    pub width: i32,
    pub height: i32,
    pub stride: i32,
    pub data: Seq<u8>,
}

#[verifier::ext_equal]
pub struct ToplevelModel {
    pub id: XdgToplevelId,
    pub parent: Option<XdgToplevelId>,
    pub title: Option<Seq<char>>,
    pub app_id: Option<Seq<char>>,
    pub decoration_mode: Option<DecorationMode>,
    pub maximized: Option<bool>,
    pub fullscreen: Option<bool>,
}

#[verifier::ext_equal]
pub enum RoleModel {
    Cursor(Point<i32>),
    SubSurface(SubSurfaceState),
    XdgToplevel(ToplevelModel),
    XdgPopup(XdgPopupState),
}

pub type RegionModel = Seq<Tuple2<RectangleKind, Rectangle<i32>>>;

/// What a surface state says. An assignment is `Some(None)` where it removes what was there.
#[verifier::ext_equal]
pub struct SurfaceModel {
    pub client: ClientId,
    pub id: WlSurfaceId,
    pub buffer: Option<Option<BufferModel>>,
    pub buffer_update: Option<BufferUpdate>,
    pub bitmap: Option<Option<BitmapModel>>,
    pub bitmap_update: Option<PatchModel>,
    pub role: Option<RoleModel>,
    pub buffer_scale: i32,
    pub buffer_transform: Option<Transform>,
    pub opaque_region: Option<RegionModel>,
    pub input_region: Option<RegionModel>,
    pub z_ordered_children: Seq<SubsurfacePosition>,
    pub damage: Option<Seq<Rectangle<i32>>>,
    pub output_ids: Seq<u32>,
    pub viewport_state: Option<ViewportState>,
    pub xdg_surface_state: Option<XdgSurfaceState>,
}

pub open spec fn text_view(text: Option<String>) -> Option<Seq<char>> {
    match text {
        Some(t) => Some(t@),
        None => None,
    }
}

pub open spec fn buffer_view(buffer: Option<BufferAssignment>) -> Option<Option<BufferModel>> {
    match buffer {
        Some(BufferAssignment::New(b)) => Some(
            Some(
                BufferModel {
                    metadata: b.metadata,
                    data: match b.data {
                        BufferData::External => None,
                        BufferData::Uncompressed(d) => Some(d@),
                    },
                },
            ),
        ),
        Some(BufferAssignment::Removed) => Some(None),
        None => None,
    }
}

pub open spec fn bitmap_view(bitmap: Option<BitmapAssignment>) -> Option<Option<BitmapModel>> {
    match bitmap {
        Some(BitmapAssignment::New(b)) => Some(
            Some(BitmapModel { metadata: b.metadata, data: b.data@ }),
        ),
        Some(BitmapAssignment::Removed) => Some(None),
        None => None,
    }
}

pub open spec fn patch_view(update: Option<BitmapUpdate>) -> Option<PatchModel> {
    match update {
        Some(BitmapUpdate::Patch { x, y, width, height, stride, data }) => Some(
            PatchModel { x, y, width, height, stride, data: data@ },
        ),
        None => None,
    }
}

pub open spec fn toplevel_view(t: XdgToplevelState) -> ToplevelModel {
    ToplevelModel {
        id: t.id,
        parent: t.parent,
        title: text_view(t.title),
        app_id: text_view(t.app_id),
        decoration_mode: t.decoration_mode,
        maximized: t.maximized,
        fullscreen: t.fullscreen,
    }
}

pub open spec fn role_view(role: Option<Role>) -> Option<RoleModel> {
    match role {
        Some(Role::Cursor(p)) => Some(RoleModel::Cursor(p)),
        Some(Role::SubSurface(s)) => Some(RoleModel::SubSurface(s)),
        Some(Role::XdgToplevel(t)) => Some(RoleModel::XdgToplevel(toplevel_view(t))),
        Some(Role::XdgPopup(p)) => Some(RoleModel::XdgPopup(p)),
        None => None,
    }
}

pub open spec fn region_view(region: Option<Region>) -> Option<RegionModel> {
    match region {
        Some(r) => Some(r.rects@),
        None => None,
    }
}

pub open spec fn damage_view(damage: Option<Vec<Rectangle<i32>>>) -> Option<Seq<Rectangle<i32>>> {
    match damage {
        Some(d) => Some(d@),
        None => None,
    }
}

impl View for SurfaceState {
    type V = SurfaceModel;

    open spec fn view(&self) -> SurfaceModel {
        SurfaceModel {
            client: self.client,
            id: self.id,
            buffer: buffer_view(self.buffer),
            buffer_update: self.buffer_update,
            bitmap: bitmap_view(self.bitmap),
            bitmap_update: patch_view(self.bitmap_update),
            role: role_view(self.role),
            buffer_scale: self.buffer_scale,
            buffer_transform: self.buffer_transform,
            opaque_region: region_view(self.opaque_region),
            input_region: region_view(self.input_region),
            z_ordered_children: self.z_ordered_children@,
            damage: damage_view(self.damage),
            output_ids: self.output_ids@,
            viewport_state: self.viewport_state,
            xdg_surface_state: self.xdg_surface_state,
        }
    }
}

pub open spec fn rectangle_eq(a: Rectangle<F64>, b: Rectangle<F64>) -> bool {
    &&& a.loc.x.ieee_eq(b.loc.x)
    &&& a.loc.y.ieee_eq(b.loc.y)
    &&& a.size.w.ieee_eq(b.size.w)
    &&& a.size.h.ieee_eq(b.size.h)
}

pub open spec fn viewport_eq(a: Option<ViewportState>, b: Option<ViewportState>) -> bool {
    match (a, b) {
        (Some(a), Some(b)) => {
            &&& a.dst == b.dst
            &&& match (a.src, b.src) {
                (Some(x), Some(y)) => rectangle_eq(x, y),
                (None, None) => true,
                _ => false,
            }
        },
        (None, None) => true,
        _ => false,
    }
}

/// Equality of surface states. It is plain equality but for the viewport's source rectangle, whose
/// coordinates are floating-point numbers.
pub open spec fn surface_eq(a: SurfaceModel, b: SurfaceModel) -> bool {
    &&& viewport_eq(a.viewport_state, b.viewport_state)
    &&& a == (SurfaceModel { viewport_state: a.viewport_state, ..b })
}

pub fn clone_text(text: &Option<String>) -> (r: Option<String>)
    ensures
        text_view(r) == text_view(*text),
{
    match text {
        Some(t) => Some(t.clone()),
        None => None,
    }
}

pub fn same_text(a: &Option<String>, b: &Option<String>) -> (r: bool)
    ensures
        r == (text_view(*a) == text_view(*b)),
{
    match (a, b) {
        (Some(x), Some(y)) => *x == *y,
        (None, None) => true,
        _ => false,
    }
}

pub fn same_bytes(a: &[u8], b: &[u8]) -> (r: bool)
    ensures
        r == (a@ == b@),
{
    if a.len() != b.len() {
        return false;
    }
    let mut i: usize = 0;
    while i < a.len()
        invariant
            a@.len() == b@.len(),
            i <= a@.len(),
            forall|j: int| 0 <= j < i ==> a@[j] == b@[j],
        decreases a@.len() - i,
    {
        if a[i] != b[i] {
            return false;
        }
        i = i + 1;
    }
    assert(a@ =~= b@);
    true
}

fn clone_buffer(buffer: &Option<BufferAssignment>) -> (r: Option<BufferAssignment>)
    ensures
        buffer_view(r) == buffer_view(*buffer),
{
    match buffer {
        Some(BufferAssignment::New(b)) => {
            let data = match &b.data {
                BufferData::External => BufferData::External,
                BufferData::Uncompressed(d) => BufferData::Uncompressed(
                    UncompressedBufferData::from_pixels(d.pixels().clone()),
                ),
            };
            Some(BufferAssignment::New(Buffer { metadata: b.metadata, data }))
        },
        Some(BufferAssignment::Removed) => Some(BufferAssignment::Removed),
        None => None,
    }
}

fn same_buffer(a: &Option<BufferAssignment>, b: &Option<BufferAssignment>) -> (r: bool)
    ensures
        r == (buffer_view(*a) == buffer_view(*b)),
{
    match (a, b) {
        (Some(BufferAssignment::New(x)), Some(BufferAssignment::New(y))) => {
            x.metadata == y.metadata && match (&x.data, &y.data) {
                (BufferData::External, BufferData::External) => true,
                (BufferData::Uncompressed(d), BufferData::Uncompressed(e)) => same_bytes(
                    d.pixels().bytes.as_slice(),
                    e.pixels().bytes.as_slice(),
                ),
                _ => false,
            }
        },
        (Some(BufferAssignment::Removed), Some(BufferAssignment::Removed)) => true,
        (None, None) => true,
        _ => false,
    }
}

fn clone_bitmap(bitmap: &Option<BitmapAssignment>) -> (r: Option<BitmapAssignment>)
    ensures
        bitmap_view(r) == bitmap_view(*bitmap),
{
    match bitmap {
        Some(BitmapAssignment::New(b)) => Some(
            BitmapAssignment::New(Bitmap { metadata: b.metadata, data: b.data.clone() }),
        ),
        Some(BitmapAssignment::Removed) => Some(BitmapAssignment::Removed),
        None => None,
    }
}

fn same_bitmap(a: &Option<BitmapAssignment>, b: &Option<BitmapAssignment>) -> (r: bool)
    ensures
        r == (bitmap_view(*a) == bitmap_view(*b)),
{
    match (a, b) {
        (Some(BitmapAssignment::New(x)), Some(BitmapAssignment::New(y))) => x.metadata
            == y.metadata && same_bytes(x.data.as_slice(), y.data.as_slice()),
        (Some(BitmapAssignment::Removed), Some(BitmapAssignment::Removed)) => true,
        (None, None) => true,
        _ => false,
    }
}

fn clone_patch(update: &Option<BitmapUpdate>) -> (r: Option<BitmapUpdate>)
    ensures
        patch_view(r) == patch_view(*update),
{
    match update {
        Some(BitmapUpdate::Patch { x, y, width, height, stride, data }) => Some(
            BitmapUpdate::Patch {
                x: *x,
                y: *y,
                width: *width,
                height: *height,
                stride: *stride,
                data: data.clone(),
            },
        ),
        None => None,
    }
}

fn same_patch(a: &Option<BitmapUpdate>, b: &Option<BitmapUpdate>) -> (r: bool)
    ensures
        r == (patch_view(*a) == patch_view(*b)),
{
    match (a, b) {
        (Some(BitmapUpdate::Patch { x, y, width, height, stride, data }), Some(
            BitmapUpdate::Patch { x: x2, y: y2, width: w2, height: h2, stride: s2, data: d2 },
        )) => *x == *x2 && *y == *y2 && *width == *w2 && *height == *h2 && *stride == *s2
            && same_bytes(data.as_slice(), d2.as_slice()),
        (None, None) => true,
        _ => false,
    }
}

impl Clone for XdgToplevelState {
    fn clone(&self) -> (r: Self)
        ensures
            toplevel_view(r) == toplevel_view(*self),
    {
        XdgToplevelState {
            id: self.id,
            parent: self.parent,
            title: clone_text(&self.title),
            app_id: clone_text(&self.app_id),
            decoration_mode: self.decoration_mode,
            maximized: self.maximized,
            fullscreen: self.fullscreen,
        }
    }
}

fn clone_role(role: &Option<Role>) -> (r: Option<Role>)
    ensures
        role_view(r) == role_view(*role),
{
    match role {
        Some(Role::Cursor(p)) => Some(Role::Cursor(*p)),
        Some(Role::SubSurface(s)) => Some(Role::SubSurface(*s)),
        Some(Role::XdgToplevel(t)) => Some(Role::XdgToplevel(t.clone())),
        Some(Role::XdgPopup(p)) => Some(Role::XdgPopup(*p)),
        None => None,
    }
}

fn same_role(a: &Option<Role>, b: &Option<Role>) -> (r: bool)
    ensures
        r == (role_view(*a) == role_view(*b)),
{
    match (a, b) {
        (Some(Role::Cursor(x)), Some(Role::Cursor(y))) => x.x == y.x && x.y == y.y,
        (Some(Role::SubSurface(x)), Some(Role::SubSurface(y))) => x.parent == y.parent
            && x.location.x == y.location.x && x.location.y == y.location.y && x.sync == y.sync,
        (Some(Role::XdgToplevel(x)), Some(Role::XdgToplevel(y))) => x.id == y.id && x.parent
            == y.parent && same_text(&x.title, &y.title) && same_text(&x.app_id, &y.app_id)
            && x.decoration_mode == y.decoration_mode && x.maximized == y.maximized && x.fullscreen
            == y.fullscreen,
        (Some(Role::XdgPopup(x)), Some(Role::XdgPopup(y))) => *x == *y,
        (None, None) => true,
        _ => false,
    }
}

/// A copy of a vector of plain values.
fn copy_all<T: Copy>(items: &Vec<T>) -> (r: Vec<T>)
    ensures
        r@ == items@,
{
    let mut out: Vec<T> = Vec::with_capacity(items.len());
    let mut i: usize = 0;
    while i < items.len()
        invariant
            i <= items@.len(),
            out@ == items@.subrange(0, i as int),
        decreases items@.len() - i,
    {
        out.push(items[i]);
        i = i + 1;
        assert(items@.subrange(0, i as int).drop_last() =~= items@.subrange(0, i - 1));
    }
    assert(items@.subrange(0, i as int) =~= items@);
    out
}

fn clone_region(region: &Option<Region>) -> (r: Option<Region>)
    ensures
        region_view(r) == region_view(*region),
{
    match region {
        Some(x) => Some(Region { rects: copy_all(&x.rects) }),
        None => None,
    }
}

fn same_rectangle(a: &Rectangle<i32>, b: &Rectangle<i32>) -> (r: bool)
    ensures
        r == (*a == *b),
{
    a.loc.x == b.loc.x && a.loc.y == b.loc.y && a.size.w == b.size.w && a.size.h == b.size.h
}

fn same_region(a: &Option<Region>, b: &Option<Region>) -> (r: bool)
    ensures
        r == (region_view(*a) == region_view(*b)),
{
    match (a, b) {
        (Some(x), Some(y)) => {
            if x.rects.len() != y.rects.len() {
                return false;
            }
            let mut i: usize = 0;
            while i < x.rects.len()
                invariant
                    x.rects@.len() == y.rects@.len(),
                    i <= x.rects@.len(),
                    forall|j: int| 0 <= j < i ==> x.rects@[j] == y.rects@[j],
                    *a == Some(*x),
                    *b == Some(*y),
                decreases x.rects@.len() - i,
            {
                if x.rects[i].0 != y.rects[i].0 || !same_rectangle(&x.rects[i].1, &y.rects[i].1) {
                    assert(x.rects@[i as int] != y.rects@[i as int]);
                    return false;
                }
                i = i + 1;
            }
            assert(x.rects@ =~= y.rects@);
            true
        },
        (None, None) => true,
        _ => false,
    }
}

fn same_children(a: &Vec<SubsurfacePosition>, b: &Vec<SubsurfacePosition>) -> (r: bool)
    ensures
        r == (a@ == b@),
{
    if a.len() != b.len() {
        return false;
    }
    let mut i: usize = 0;
    while i < a.len()
        invariant
            a@.len() == b@.len(),
            i <= a@.len(),
            forall|j: int| 0 <= j < i ==> a@[j] == b@[j],
        decreases a@.len() - i,
    {
        if a[i] != b[i] {
            return false;
        }
        i = i + 1;
    }
    assert(a@ =~= b@);
    true
}

fn same_outputs(a: &Vec<u32>, b: &Vec<u32>) -> (r: bool)
    ensures
        r == (a@ == b@),
{
    if a.len() != b.len() {
        return false;
    }
    let mut i: usize = 0;
    while i < a.len()
        invariant
            a@.len() == b@.len(),
            i <= a@.len(),
            forall|j: int| 0 <= j < i ==> a@[j] == b@[j],
        decreases a@.len() - i,
    {
        if a[i] != b[i] {
            return false;
        }
        i = i + 1;
    }
    assert(a@ =~= b@);
    true
}

fn clone_damage(damage: &Option<Vec<Rectangle<i32>>>) -> (r: Option<Vec<Rectangle<i32>>>)
    ensures
        damage_view(r) == damage_view(*damage),
{
    match damage {
        Some(d) => Some(copy_all(d)),
        None => None,
    }
}

fn same_damage(a: &Option<Vec<Rectangle<i32>>>, b: &Option<Vec<Rectangle<i32>>>) -> (r: bool)
    ensures
        r == (damage_view(*a) == damage_view(*b)),
{
    match (a, b) {
        (Some(x), Some(y)) => {
            if x.len() != y.len() {
                return false;
            }
            let mut i: usize = 0;
            while i < x.len()
                invariant
                    x@.len() == y@.len(),
                    i <= x@.len(),
                    forall|j: int| 0 <= j < i ==> x@[j] == y@[j],
                    *a == Some(*x),
                    *b == Some(*y),
                decreases x@.len() - i,
            {
                if !same_rectangle(&x[i], &y[i]) {
                    return false;
                }
                i = i + 1;
            }
            assert(x@ =~= y@);
            true
        },
        (None, None) => true,
        _ => false,
    }
}

fn same_viewport(a: &Option<ViewportState>, b: &Option<ViewportState>) -> (r: bool)
    ensures
        r == viewport_eq(*a, *b),
{
    match (a, b) {
        (Some(a), Some(b)) => a.dst == b.dst && match (&a.src, &b.src) {
            (Some(x), Some(y)) => x.loc.x.same(&y.loc.x) && x.loc.y.same(&y.loc.y) && x.size.w.same(
                &y.size.w,
            ) && x.size.h.same(&y.size.h),
            (None, None) => true,
            _ => false,
        },
        (None, None) => true,
        _ => false,
    }
}

impl Clone for SurfaceState {
    fn clone(&self) -> (r: Self)
        ensures
            r@ == self@,
    {
        SurfaceState {
            client: self.client,
            id: self.id,
            buffer: clone_buffer(&self.buffer),
            buffer_update: self.buffer_update,
            bitmap: clone_bitmap(&self.bitmap),
            bitmap_update: clone_patch(&self.bitmap_update),
            role: clone_role(&self.role),
            buffer_scale: self.buffer_scale,
            buffer_transform: self.buffer_transform,
            opaque_region: clone_region(&self.opaque_region),
            input_region: clone_region(&self.input_region),
            z_ordered_children: copy_all(&self.z_ordered_children),
            damage: clone_damage(&self.damage),
            output_ids: copy_all(&self.output_ids),
            viewport_state: self.viewport_state,
            xdg_surface_state: self.xdg_surface_state,
        }
    }
}

impl SurfaceState {
    /// Whether two states say the same.
    pub fn same(&self, other: &SurfaceState) -> (r: bool)
        ensures
            r == surface_eq(self@, other@),
    {
        self.client == other.client && self.id == other.id && same_buffer(
            &self.buffer,
            &other.buffer,
        ) && self.buffer_update == other.buffer_update && same_bitmap(&self.bitmap, &other.bitmap)
            && same_patch(&self.bitmap_update, &other.bitmap_update) && same_role(
            &self.role,
            &other.role,
        ) && self.buffer_scale == other.buffer_scale && self.buffer_transform
            == other.buffer_transform && same_region(&self.opaque_region, &other.opaque_region)
            && same_region(&self.input_region, &other.input_region) && same_children(
            &self.z_ordered_children,
            &other.z_ordered_children,
        ) && same_damage(&self.damage, &other.damage) && same_outputs(
            &self.output_ids,
            &other.output_ids,
        ) && same_viewport(&self.viewport_state, &other.viewport_state) && self.xdg_surface_state
            == other.xdg_surface_state
    }
}

/// States that say the same agree in everything; not-a-number in a viewport agrees with nothing.
#[verifier::rlimit(40)]
pub proof fn same_states_agree(a: SurfaceModel, b: SurfaceModel)
    ensures
        surface_eq(a, b) ==> {
            &&& a.client == b.client && a.id == b.id
            &&& a.buffer == b.buffer && a.buffer_update == b.buffer_update
            &&& a.bitmap == b.bitmap && a.bitmap_update == b.bitmap_update
            &&& a.role == b.role
            &&& a.buffer_scale == b.buffer_scale && a.buffer_transform == b.buffer_transform
            &&& a.opaque_region == b.opaque_region && a.input_region == b.input_region
            &&& a.z_ordered_children == b.z_ordered_children
            &&& a.damage == b.damage && a.output_ids == b.output_ids
            &&& a.xdg_surface_state == b.xdg_surface_state
            &&& (a.viewport_state is Some) == (b.viewport_state is Some)
            &&& a.viewport_state matches Some(v) ==> v.dst == b.viewport_state->0.dst && (
            v.src is Some) == (b.viewport_state->0.src is Some)
        },
        surface_eq(a, b) == surface_eq(b, a),
        a.viewport_state is None ==> surface_eq(a, a),
        a.viewport_state matches Some(v) && v.src is None ==> surface_eq(a, a),
        a.viewport_state matches Some(v) && (v.src matches Some(src) && !src.loc.x.is_nan()
            && !src.loc.y.is_nan() && !src.size.w.is_nan() && !src.size.h.is_nan()) ==> surface_eq(
            a,
            a,
        ),
        a.viewport_state matches Some(v) && (v.src matches Some(src) && (src.loc.x.is_nan()
            || src.loc.y.is_nan() || src.size.w.is_nan() || src.size.h.is_nan())) ==> !surface_eq(
            a,
            b,
        ),
{
}

/// Nothing is lost between what is sent and what is said of it here.
pub proof fn contents_are_kept(
    buffer: Buffer,
    bitmap: Bitmap,
    toplevel: XdgToplevelState,
    popup: XdgPopupState,
)
    ensures
        buffer_view(Some(BufferAssignment::New(buffer))) matches Some(Some(b)) && b.metadata
            == buffer.metadata && (buffer.data is External <==> b.data is None) && (
        buffer.data matches BufferData::Uncompressed(bytes) ==> b.data == Some(bytes@)),
        buffer_view(Some(BufferAssignment::Removed)) == Some(None::<BufferModel>),
        buffer_view(None) is None,
        bitmap_view(Some(BitmapAssignment::New(bitmap))) matches Some(Some(b)) && b.metadata
            == bitmap.metadata && b.data == bitmap.data@,
        bitmap_view(Some(BitmapAssignment::Removed)) == Some(None::<BitmapModel>),
        bitmap_view(None) is None,
        role_view(Some(Role::XdgToplevel(toplevel))) matches Some(RoleModel::XdgToplevel(t))
            && t.id == toplevel.id && t.parent == toplevel.parent && t.decoration_mode
            == toplevel.decoration_mode && t.maximized == toplevel.maximized && t.fullscreen
            == toplevel.fullscreen && (toplevel.title matches Some(text) ==> t.title == Some(text@))
            && (toplevel.title is None ==> t.title is None) && (toplevel.app_id matches Some(text)
            ==> t.app_id == Some(text@)) && (toplevel.app_id is None ==> t.app_id is None),
        role_view(Some(Role::XdgPopup(popup))) == Some(RoleModel::XdgPopup(popup)),
        role_view(None) is None,
{
}

} // verus!
