use crate::models::surface::{ClientSurface, WlSurfaceId};
use crate::protocols::wprs::geometry::{Point, Rectangle, Size};
use vstd::prelude::*;

verus! {

#[derive(Debug, Clone, Copy, PartialEq, Eq, Structural)]
pub struct XdgSurfaceId(pub u64);

#[derive(Debug, Clone, Copy, PartialEq, Eq, Structural)]
pub struct XdgToplevelId(pub u64);

#[derive(Debug, Clone, Copy, PartialEq, Eq, Structural)]
pub struct XdgPopupId(pub u64);

#[derive(Debug, Clone, Copy, PartialEq, Eq, Structural)]
pub enum DecorationMode {
    Client,
    Server,
}

/// What is known of a toplevel window.
#[derive(Debug)]
pub struct XdgToplevelState {
    pub id: XdgToplevelId,
    pub parent: Option<XdgToplevelId>,
    pub title: Option<String>,
    pub app_id: Option<String>,
    pub decoration_mode: Option<DecorationMode>,
    pub maximized: Option<bool>,
    pub fullscreen: Option<bool>,
}

/// Where a popup goes, in the coordinate space of its parent surface.
#[derive(Debug, Clone, Copy, PartialEq, Eq, Structural)]
pub struct XdgPositioner {
    pub width: i32,
    pub height: i32,
    pub anchor_rect: Rectangle<i32>,
    pub offset: Point<i32>,
}

#[derive(Debug, Clone, Copy, PartialEq, Eq, Structural)]
pub struct XdgPopupState {
    pub id: XdgPopupId,
    pub parent_surface_id: WlSurfaceId,
    pub positioner: XdgPositioner,
    pub grab_requested: bool,
}

#[derive(Debug, Clone, Copy, PartialEq, Eq, Structural)]
pub struct XdgSurfaceState {
    pub id: XdgSurfaceId,
    pub window_geometry: Option<Rectangle<i32>>,
    pub max_size: Size<i32>,
    pub min_size: Size<i32>,
}

#[derive(Debug, Clone, Copy, PartialEq, Eq, Structural)]
pub enum ToplevelRequestPayload {
    Destroyed,
    SetMaximized,
    UnsetMaximized,
    SetFullscreen,
    UnsetFullscreen,
    SetMinimized,
    Move,
}

#[derive(Debug, Clone, Copy, PartialEq, Eq, Structural)]
pub struct ToplevelRequest {
    pub surface: ClientSurface,
    pub payload: ToplevelRequestPayload,
}

#[derive(Debug, Clone, Copy, PartialEq, Eq, Structural)]
pub struct PopupRequest {
    pub surface: ClientSurface,
    pub destroyed: bool,
}

/// Window state flags, as the bits of the wire format.
#[derive(Debug, Clone, Copy, PartialEq, Eq, Structural)]
pub struct WindowState {
    pub bits: u16,
}

/// A size of zero in a direction leaves that direction to the client.
#[derive(Debug, Clone, Copy, PartialEq, Eq, Structural)]
pub struct ToplevelConfigure {
    pub surface_id: WlSurfaceId,
    pub new_size: Size<Option<u32>>,
    pub suggested_bounds: Option<Size<i32>>,
    pub decoration_mode: DecorationMode,
    pub state: WindowState,
}

#[derive(Debug, Clone, Copy, PartialEq, Eq, Structural)]
pub struct ToplevelClose {
    pub surface_id: WlSurfaceId,
}

#[derive(Debug, Clone, Copy, PartialEq, Eq, Structural)]
pub enum ToplevelEvent {
    Configure(ToplevelConfigure),
    Close(ToplevelClose),
}

#[derive(Debug, Clone, Copy, PartialEq, Eq, Structural)]
pub struct PopupConfigure {
    pub surface_id: WlSurfaceId,
    pub position: Point<i32>,
    pub width: i32,
    pub height: i32,
}

#[derive(Debug, Clone, Copy, PartialEq, Eq, Structural)]
pub enum PopupEvent {
    Configure(PopupConfigure),
    PopupDone(WlSurfaceId),
}

} // verus!
