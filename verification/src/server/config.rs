use crate::protocols::wctl;
use crate::protocols::wprs::endpoint::Endpoint;
use crate::utils::socket_addr::SocketAddr;
use vstd::prelude::*;

verus! {

/// What captures the windows.
#[derive(Debug, Clone, Copy, PartialEq, Eq, Structural)]
pub enum WprsdBackend {
    Wayland,
    X11Fullscreen,
    WindowsFullscreen,
    WindowsSeamless,
    MacosFullscreen,
    MacosSeamless,
}

/// Who runs what bridges to other protocols.
#[derive(Debug, Clone, Copy, PartialEq, Eq, Structural)]
pub enum IntegrationMode {
    /// Someone else.
    External,
    /// The server itself.
    Embedded,
    /// The server, as a process of its own.
    Spawned,
}

/// How clients of X11 are hosted.
#[derive(Debug, Clone, Copy, PartialEq, Eq, Structural)]
pub struct XwaylandConfig {
    pub display: Option<u32>,
    pub wayland_debug: bool,
}

impl Default for XwaylandConfig {
    fn default() -> (r: Self)
        ensures
            r == (XwaylandConfig { display: None, wayland_debug: false }),
    {
        XwaylandConfig { display: None, wayland_debug: false }
    }
}

#[derive(Debug)]
pub struct WaylandConfig {
    pub display: String,
    pub xwayland: Option<XwaylandConfig>,
    pub kde_server_side_decorations: bool,
}

#[derive(Debug)]
pub struct WprsdConfig {
    pub backend: Option<WprsdBackend>,
    pub socket: String,
    pub endpoint: Option<Endpoint>,
    pub control_socket: String,
    pub control_endpoint: Option<wctl::Endpoint>,
    pub framerate: u32,
    pub wayland: WaylandConfig,
    pub enable_rdp: bool,
    pub rdp_mode: IntegrationMode,
    pub rdp_listen: SocketAddr,
    pub rdp_bridge_args: Vec<String>,
}

} // verus!
