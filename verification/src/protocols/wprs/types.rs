use crate::models::surface::WlSurfaceId;
use crate::protocols::wprs::transport;
use crate::protocols::wprs::wayland;
use crate::protocols::wprs::xdg_shell;
use std::collections::hash_map::DefaultHasher;
use std::hash::Hasher;
use vstd::prelude::*;
use vstd::std_specs::hash::DefaultHasherAdditionalSpecFns;

verus! {

/// Stable client identifier.
#[derive(Debug, Clone, Copy, PartialEq, Eq, Structural)]
pub struct ClientId(pub u64);

impl ClientId {
    /// The identifier of the client whose own handle feeds `handle` to a hasher.
    pub fn new(handle: &[u8]) -> (r: Self)
        ensures
            r.0 == DefaultHasher::spec_finish(seq![handle@]),
    {
        ClientId(hash(handle))
    }
}

#[derive(Debug, Clone, Copy, PartialEq, Eq, Structural)]
pub enum ObjectId {
    WlSurface(WlSurfaceId),
    XdgSurface(xdg_shell::XdgSurfaceId),
    XdgToplevel(xdg_shell::XdgToplevelId),
    XdgPopup(xdg_shell::XdgPopupId),
}

#[derive(Debug, Clone, Copy, PartialEq, Eq, Structural)]
pub struct Capabilities {
    pub xwayland: bool,
}

#[derive(Debug, Clone, Copy, PartialEq, Eq, Structural)]
pub struct DisplayConfig {
    /// Suggested server-side output scale (pixels per logical point).
    pub scale_factor: i32,
    /// Suggested server-side DPI (if known).
    pub dpi: Option<u32>,
}

impl Default for DisplayConfig {
    fn default() -> (r: Self)
        ensures
            r.scale_factor == 1,
            r.dpi is None,
    {
        DisplayConfig { scale_factor: 1, dpi: None }
    }
}

/// What the server asks of the client.
#[derive(Debug)]
pub enum Request {
    Surface(wayland::SurfaceRequest),
    CursorImage(wayland::CursorImage),
    Toplevel(xdg_shell::ToplevelRequest),
    Popup(xdg_shell::PopupRequest),
    Data(wayland::DataRequest),
    ClientDisconnected(ClientId),
    Capabilities(Capabilities),
    DisplayConfig(DisplayConfig),
    Transport(transport::TransportRequest),
}

/// What the client tells the server.
#[derive(Debug)]
pub enum Event {
    WprsClientConnect,
    Transport(transport::TransportEvent),
    Output(wayland::OutputEvent),
    PointerFrame(Vec<wayland::PointerEvent>),
    PointerGesture(wayland::PointerGestureEvent),
    KeyboardEvent(wayland::KeyboardEvent),
    Toplevel(xdg_shell::ToplevelEvent),
    Popup(xdg_shell::PopupEvent),
    Data(wayland::DataEvent),
    Surface(wayland::SurfaceEvent),
}

/// The standard hash of a value, given the bytes that the value feeds to a hasher.
pub fn hash(bytes: &[u8]) -> (r: u64)
    ensures
        r == DefaultHasher::spec_finish(seq![bytes@]),
{
    let mut s = DefaultHasher::new();
    s.write(bytes);
    assert(s@ =~= seq![bytes@]);
    s.finish()
}

} // verus!
