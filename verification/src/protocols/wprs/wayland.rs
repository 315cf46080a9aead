use crate::models::surface::{ClientSurface, SurfaceState, Transform, WlSurfaceId};
use crate::protocols::wprs::geometry::{Point, Size};
use crate::protocols::wprs::types::ClientId;
use crate::utils::ieee::F64;
use vstd::prelude::*;

verus! {

/// What a client does to one of its surfaces.
#[derive(Debug)]
pub enum SurfaceRequestPayload {
    Commit(SurfaceState),
    Destroyed,
}

#[derive(Debug)]
pub struct SurfaceRequest {
    pub client: ClientId,
    pub surface: WlSurfaceId,
    pub payload: SurfaceRequestPayload,
}

#[derive(Debug)]
pub enum CursorImageStatus {
    Hidden,
    Named(String),
    Surface { client_surface: ClientSurface, hotspot: Point<i32> },
}

#[derive(Debug)]
pub struct CursorImage {
    pub serial: u32,
    pub status: CursorImageStatus,
}

#[derive(Debug, Clone, Copy, PartialEq, Eq, Structural)]
pub enum DataSource {
    Selection,
    Primary,
    DragAndDrop,
}

#[derive(Debug)]
pub struct DataRequest {
    pub source: DataSource,
    pub mime_types: Vec<String>,
}

#[derive(Debug)]
pub struct DataEvent {
    pub source: DataSource,
    pub mime_type: String,
}

#[derive(Debug, Clone, Copy, PartialEq, Eq, Structural)]
pub enum SurfaceEvent {
    Enter { surface_id: WlSurfaceId, output_id: u32 },
    Leave { surface_id: WlSurfaceId, output_id: u32 },
}

#[derive(Debug, Clone, Copy, PartialEq, Eq, Structural)]
pub enum Subpixel {
    Unknown,
    Absent,
    HorizontalRgb,
    HorizontalBgr,
    VerticalRgb,
    VerticalBgr,
}

#[derive(Debug, Clone, Copy, PartialEq, Eq, Structural)]
pub struct Mode {
    pub dimensions: Size<i32>,
    pub refresh_rate: i32,
    pub current: bool,
    pub preferred: bool,
}

#[derive(Debug)]
pub struct OutputInfo {
    pub id: u32,
    pub model: String,
    pub make: String,
    pub location: Point<i32>,
    pub physical_size: Size<i32>,
    pub subpixel: Subpixel,
    pub transform: Transform,
    pub scale_factor: i32,
    pub mode: Mode,
    pub name: Option<String>,
    pub description: Option<String>,
}

#[derive(Debug)]
pub enum OutputEvent {
    New(OutputInfo),
    Update(OutputInfo),
    Destroy(OutputInfo),
}

#[derive(Debug, Clone, Copy, PartialEq, Eq, Structural)]
pub enum AxisSource {
    Wheel,
    Finger,
    Continuous,
    WheelTilt,
}

#[derive(Debug, Clone, Copy, PartialEq, Eq, Structural)]
pub struct AxisScroll {
    pub absolute: F64,
    pub discrete: i32,
    pub stop: bool,
}

#[derive(Debug, Clone, Copy, PartialEq, Eq, Structural)]
pub enum PointerEventKind {
    Enter { serial: u32 },
    Leave { serial: u32 },
    Motion,
    Press { button: u32, serial: u32 },
    Release { button: u32, serial: u32 },
    Axis { horizontal: AxisScroll, vertical: AxisScroll, source: Option<AxisSource> },
}

#[derive(Debug, Clone, Copy, PartialEq, Eq, Structural)]
pub struct PointerEvent {
    pub surface_id: WlSurfaceId,
    pub position: Point<F64>,
    pub kind: PointerEventKind,
}

#[derive(Debug, Clone, Copy, PartialEq, Eq, Structural)]
pub enum PointerGestureEvent {
    PinchBegin { surface_id: WlSurfaceId, position: Point<F64>, serial: u32, fingers: u32 },
    PinchUpdate {
        surface_id: WlSurfaceId,
        position: Point<F64>,
        delta: Point<F64>,
        scale: F64,
        rotation: F64,
    },
    PinchEnd { surface_id: WlSurfaceId, position: Point<F64>, serial: u32, cancelled: bool },
}

#[derive(Debug, Clone, Copy, PartialEq, Eq, Structural)]
pub enum KeyState {
    Pressed,
    Released,
    Repeated,
}

#[derive(Debug, Clone, Copy, PartialEq, Eq, Structural)]
pub struct KeyInner {
    pub serial: u32,
    pub raw_code: u32,
    pub state: KeyState,
}

#[derive(Debug, Clone, Copy, PartialEq, Eq, Structural)]
pub struct ModifierState {
    pub ctrl: bool,
    pub alt: bool,
    pub shift: bool,
    pub caps_lock: bool,
    pub logo: bool,
    pub num_lock: bool,
}

#[derive(Debug)]
pub enum KeyboardEvent {
    Keymap(String),
    Enter { serial: u32, surface_id: WlSurfaceId, keycodes: Vec<u32>, keysyms: Vec<u32> },
    Leave { serial: u32 },
    Key(KeyInner),
    Modifiers { modifier_state: ModifierState, layout_index: u32 },
}

} // verus!
