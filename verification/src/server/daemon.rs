//! What a server does from its start until its backend runs.
use crate::client::backend::ClientBackendConfig;
use crate::client::config::{given_or, first_given, ClientBackend, KeyboardMode, WprscConfig};
use crate::error::{views, Error};
use crate::protocols::wctl::messages::{InfoModel, ServerInfo};
use crate::protocols::wctl::server::TargetPid;
use crate::protocols::wprs::endpoint::{Endpoint, EndpointModel};
use crate::protocols::wprs::endpoint_text::endpoint_text;
use crate::server::config::{IntegrationMode, WprsdBackend, WprsdConfig, XwaylandConfig};
use crate::utils::ieee::F64;
use crate::utils::socket_addr::addr_text;
use crate::utils::text::owned;
use vstd::prelude::*;

verus! {

/// The system on which a server runs.
#[derive(Debug, Clone, Copy, PartialEq, Eq, Structural)]
pub enum System {
    Macos,
    Windows,
    Unix,
    Other,
}

/// The backend where none is named: that of Wayland if it is there, else what the system has.
pub open spec fn inferred_backend(
    configured: Option<WprsdBackend>,
    wayland: bool,
    system: System,
    has_display: bool,
) -> Option<WprsdBackend> {
    if configured is Some {
        configured
    } else if wayland {
        Some(WprsdBackend::Wayland)
    } else {
        match system {
            System::Macos => Some(WprsdBackend::MacosFullscreen),
            System::Windows => Some(WprsdBackend::WindowsFullscreen),
            System::Unix => if has_display {
                Some(WprsdBackend::X11Fullscreen)
            } else {
                None
            },
            System::Other => Some(WprsdBackend::WindowsFullscreen),
        }
    }
}

/// The backend to start.
pub fn infer_backend(
    configured: Option<WprsdBackend>,
    wayland: bool,
    system: System,
    has_display: bool,
) -> (r: Result<WprsdBackend, Error>)
    ensures
        match inferred_backend(configured, wayland, system, has_display) {
            Some(backend) => r == Ok::<WprsdBackend, Error>(backend),
            None => r matches Err(Error::Message(text)) && text@
                == "no backend selected and $DISPLAY is not set; set `backend = \"wayland\"` and rebuild with `--features wayland`, or set $DISPLAY / choose an X11 backend explicitly"@,
        },
{
    if let Some(backend) = configured {
        return Ok(backend);
    }
    if wayland {
        return Ok(WprsdBackend::Wayland);
    }
    match system {
        System::Macos => Ok(WprsdBackend::MacosFullscreen),
        System::Windows => Ok(WprsdBackend::WindowsFullscreen),
        System::Unix => if has_display {
            Ok(WprsdBackend::X11Fullscreen)
        } else {
            Err(
                Error::Message(
                    owned(
                        "no backend selected and $DISPLAY is not set; set `backend = \"wayland\"` and rebuild with `--features wayland`, or set $DISPLAY / choose an X11 backend explicitly",
                    ),
                ),
            )
        },
        System::Other => Ok(WprsdBackend::WindowsFullscreen),
    }
}

/// What capture can be limited to with a backend, which must be there: one process, where windows
/// are captured one by one.
pub fn build_backend(backend: WprsdBackend, wayland: bool) -> (r: Result<Option<TargetPid>, Error>)
    ensures
        match backend {
            WprsdBackend::Wayland => if wayland {
                r == Ok::<Option<TargetPid>, Error>(None)
            } else {
                r matches Err(Error::Message(text)) && text@
                    == "wayland backend requires building wprsd with `--features wayland`"@
            },
            WprsdBackend::MacosSeamless => r == Ok::<Option<TargetPid>, Error>(
                Some(TargetPid { pid: None }),
            ),
            _ => r == Ok::<Option<TargetPid>, Error>(None),
        },
{
    match backend {
        WprsdBackend::Wayland => if wayland {
            Ok(None)
        } else {
            Err(
                Error::Message(
                    owned("wayland backend requires building wprsd with `--features wayland`"),
                ),
            )
        },
        WprsdBackend::MacosSeamless => Ok(Some(TargetPid { pid: None })),
        _ => Ok(None),
    }
}

/// Where clients find a server: the endpoint, or else the socket.
pub open spec fn reachable_at(config: WprsdConfig) -> EndpointModel {
    match config.endpoint {
        Some(endpoint) => endpoint@,
        None => EndpointModel::Unix(config.socket@),
    }
}

/// Where clients find a server.
pub fn server_endpoint(config: &WprsdConfig) -> (r: Endpoint)
    ensures
        r@ == reachable_at(*config),
{
    match &config.endpoint {
        Some(endpoint) => endpoint.clone(),
        None => Endpoint::Unix { path: owned(config.socket.as_str()) },
    }
}

/// What a server tells of itself. Displays are those of Wayland.
pub fn server_info(config: &WprsdConfig, backend: WprsdBackend) -> (r: ServerInfo)
    ensures
        r@ == (InfoModel {
            wprs_endpoint: endpoint_text(reachable_at(*config)),
            wayland_display: if backend == WprsdBackend::Wayland {
                Some(config.wayland.display@)
            } else {
                None
            },
            xwayland_display: if backend == WprsdBackend::Wayland {
                match config.wayland.xwayland {
                    Some(xwayland) => xwayland.display,
                    None => None,
                }
            } else {
                None
            },
        }),
{
    let wprs_endpoint = server_endpoint(config).display_text();
    if backend == WprsdBackend::Wayland {
        ServerInfo {
            wprs_endpoint,
            wayland_display: Some(owned(config.wayland.display.as_str())),
            xwayland_display: match config.wayland.xwayland {
                Some(xwayland) => xwayland.display,
                None => None,
            },
        }
    } else {
        ServerInfo { wprs_endpoint, wayland_display: None, xwayland_display: None }
    }
}

/// How often a backend that has to look for changes does so in a second.
pub fn ticks_per_second(framerate: u32) -> (r: u32)
    ensures
        r == if framerate < 1 {
            1
        } else {
            framerate
        },
{
    if framerate < 1 {
        1
    } else {
        framerate
    }
}

/// The bridge for clients of remote desktops that a server starts.
#[derive(Debug)]
pub enum RdpBridge {
    NotStarted,
    /// In a thread, for this endpoint.
    Embedded(Endpoint),
    /// As a process with these arguments.
    Spawned(Vec<String>),
}

/// The arguments of a bridge that is a process of its own.
pub open spec fn bridge_args(config: WprsdConfig) -> Seq<Seq<char>> {
    seq![
        "--wprs-endpoint"@,
        endpoint_text(reachable_at(config)),
        "--rdp-listen"@,
        addr_text(config.rdp_listen@),
        "--security"@,
        "none"@,
    ] + views(config.rdp_bridge_args@)
}

fn spawned_bridge_args(config: &WprsdConfig) -> (r: Vec<String>)
    ensures
        views(r@) == bridge_args(*config),
{
    let mut args: Vec<String> = Vec::new();
    args.push(owned("--wprs-endpoint"));
    args.push(server_endpoint(config).display_text());
    args.push(owned("--rdp-listen"));
    args.push(config.rdp_listen.display_text());
    args.push(owned("--security"));
    args.push(owned("none"));
    let ghost all = bridge_args(*config);
    let ghost front = args@;
    assert(views(front) =~= all.subrange(0, 6));
    let mut i: usize = 0;
    while i < config.rdp_bridge_args.len()
        invariant
            i <= config.rdp_bridge_args@.len(),
            all == bridge_args(*config),
            views(args@) =~= all.subrange(0, 6 + i),
        decreases config.rdp_bridge_args@.len() - i,
    {
        let ghost before = views(args@);
        args.push(owned(config.rdp_bridge_args[i].as_str()));
        i = i + 1;
        assert(views(args@) =~= before.push(config.rdp_bridge_args@[i - 1]@));
        assert(all[5 + i] == config.rdp_bridge_args@[i - 1]@);
    }
    assert(all.subrange(0, 6 + i) =~= all);
    args
}

/// The bridge to start, given whether the server was built with one.
pub fn maybe_start_rdp_bridge(config: &WprsdConfig, rdp: bool) -> (r: Result<RdpBridge, Error>)
    ensures
        if !config.enable_rdp {
            r == Ok::<RdpBridge, Error>(RdpBridge::NotStarted)
        } else {
            match config.rdp_mode {
                IntegrationMode::External => r == Ok::<RdpBridge, Error>(RdpBridge::NotStarted),
                IntegrationMode::Embedded => if rdp {
                    r matches Ok(RdpBridge::Embedded(endpoint)) && endpoint@ == reachable_at(
                        *config,
                    )
                } else {
                    r matches Err(Error::Message(text)) && text@
                        == "rdp_mode=embedded requires building wprsd with `--features rdp`"@
                },
                IntegrationMode::Spawned => r matches Ok(RdpBridge::Spawned(args)) && views(args@)
                    == bridge_args(*config),
            }
        },
{
    if !config.enable_rdp {
        return Ok(RdpBridge::NotStarted);
    }
    match config.rdp_mode {
        IntegrationMode::External => Ok(RdpBridge::NotStarted),
        IntegrationMode::Embedded => if rdp {
            Ok(RdpBridge::Embedded(server_endpoint(config)))
        } else {
            Err(
                Error::Message(
                    owned("rdp_mode=embedded requires building wprsd with `--features rdp`"),
                ),
            )
        },
        IntegrationMode::Spawned => Ok(RdpBridge::Spawned(spawned_bridge_args(config))),
    }
}

/// What the command line of a server and a client in one process says.
#[derive(Debug)]
pub struct CompositorArgs {
    pub wayland_display: Option<String>,
    pub framerate: Option<u32>,
    pub kde_server_side_decorations: bool,
    pub no_xwayland: bool,
    pub xwayland_display: Option<u32>,
    pub xwayland_wayland_debug: Option<bool>,
    pub ui_scale_factor: Option<F64>,
    pub min_output_scale_factor: Option<i32>,
    pub keyboard_mode: Option<KeyboardMode>,
    pub xkb_keymap_file: Option<String>,
}

/// How clients of X11 are hosted: not at all, unless something is said of it after that.
pub open spec fn chosen_xwayland(configured: Option<XwaylandConfig>, args: CompositorArgs) -> Option<
    XwaylandConfig,
> {
    let kept = if args.no_xwayland {
        None
    } else {
        configured
    };
    let base = given_or(kept, XwaylandConfig { display: None, wayland_debug: false });
    if args.xwayland_display is None && args.xwayland_wayland_debug is None {
        kept
    } else {
        Some(
            XwaylandConfig {
                display: first_given(args.xwayland_display, base.display),
                wayland_debug: given_or(args.xwayland_wayland_debug, base.wayland_debug),
            },
        )
    }
}

fn choose_xwayland(configured: Option<XwaylandConfig>, args: &CompositorArgs) -> (r: Option<
    XwaylandConfig,
>)
    ensures
        r == chosen_xwayland(configured, *args),
{
    let mut chosen = if args.no_xwayland {
        None
    } else {
        configured
    };
    if let Some(display) = args.xwayland_display {
        let base = match chosen {
            Some(xwayland) => xwayland,
            None => XwaylandConfig::default(),
        };
        chosen = Some(
            XwaylandConfig { display: Some(display), wayland_debug: base.wayland_debug },
        );
    }
    if let Some(wayland_debug) = args.xwayland_wayland_debug {
        let base = match chosen {
            Some(xwayland) => xwayland,
            None => XwaylandConfig::default(),
        };
        chosen = Some(XwaylandConfig { display: base.display, wayland_debug });
    }
    chosen
}

/// The server and the client of one process: what the command line says, and windows of its own.
pub fn compositor_configs(args: CompositorArgs, server: WprsdConfig, client: WprscConfig) -> (r: (
    WprsdConfig,
    ClientBackend,
    ClientBackendConfig,
))
    ensures
        r.0.wayland.display == given_or(args.wayland_display, server.wayland.display),
        r.0.wayland.xwayland == chosen_xwayland(server.wayland.xwayland, args),
        r.0.wayland.kde_server_side_decorations == (
        server.wayland.kde_server_side_decorations || args.kde_server_side_decorations),
        r.0 == (WprsdConfig {
            framerate: given_or(args.framerate, server.framerate),
            wayland: r.0.wayland,
            ..server
        }),
        r.1 == ClientBackend::WinitWgpu,
        r.2 == (ClientBackendConfig {
            title_prefix: client.title_prefix,
            control_socket: client.control_socket,
            keyboard_mode: given_or(args.keyboard_mode, client.keyboard_mode),
            xkb_keymap_file: first_given(args.xkb_keymap_file, client.xkb_keymap_file),
            ui_scale_factor: given_or(args.ui_scale_factor, client.ui_scale_factor),
            min_output_scale_factor: first_given(
                args.min_output_scale_factor,
                client.min_output_scale_factor,
            ),
            html_bind_addr: client.html_bind_addr,
        }),
{
    let mut server = server;
    server.wayland.xwayland = choose_xwayland(server.wayland.xwayland, &args);
    if let Some(display) = args.wayland_display {
        server.wayland.display = display;
    }
    if let Some(fps) = args.framerate {
        server.framerate = fps;
    }
    if args.kde_server_side_decorations {
        server.wayland.kde_server_side_decorations = true;
    }
    let config = ClientBackendConfig {
        title_prefix: client.title_prefix,
        control_socket: client.control_socket,
        keyboard_mode: match args.keyboard_mode {
            Some(mode) => mode,
            None => client.keyboard_mode,
        },
        xkb_keymap_file: match args.xkb_keymap_file {
            Some(path) => Some(path),
            None => client.xkb_keymap_file,
        },
        ui_scale_factor: match args.ui_scale_factor {
            Some(scale) => scale,
            None => client.ui_scale_factor,
        },
        min_output_scale_factor: match args.min_output_scale_factor {
            Some(scale) => Some(scale),
            None => client.min_output_scale_factor,
        },
        html_bind_addr: client.html_bind_addr,
    };
    (server, ClientBackend::WinitWgpu, config)
}

/// A backend that is named is started. Otherwise it is that of Wayland, if it was built in, or that
/// of the system; without a display there is none on Unix.
pub proof fn backends_fit_the_system(
    configured: WprsdBackend,
    wayland: bool,
    system: System,
    has_display: bool,
)
    ensures
        inferred_backend(Some(configured), wayland, system, has_display) == Some(configured),
        inferred_backend(None, true, system, has_display) == Some(WprsdBackend::Wayland),
        inferred_backend(None, false, System::Macos, has_display) == Some(
            WprsdBackend::MacosFullscreen,
        ),
        inferred_backend(None, false, System::Windows, has_display) == Some(
            WprsdBackend::WindowsFullscreen,
        ),
        inferred_backend(None, false, System::Unix, true) == Some(WprsdBackend::X11Fullscreen),
        inferred_backend(None, false, System::Unix, false) is None,
{
}

/// Clients find a server at its endpoint, if it has one, and at its socket otherwise.
pub proof fn servers_are_found(config: WprsdConfig)
    ensures
        config.endpoint matches Some(endpoint) ==> reachable_at(config) == endpoint@,
        config.endpoint is None ==> reachable_at(config) == EndpointModel::Unix(config.socket@),
{
}

/// What the bridge is started with: where the server is, where to listen, and what was configured,
/// behind that.
pub proof fn bridges_are_told_where_to_go(config: WprsdConfig, i: int)
    ensures
        ({
            let args = bridge_args(config);
            &&& args.len() == 6 + config.rdp_bridge_args@.len()
            &&& args[0] == "--wprs-endpoint"@
            &&& args[1] == endpoint_text(reachable_at(config))
            &&& args[2] == "--rdp-listen"@
            &&& args[3] == addr_text(config.rdp_listen@)
            &&& args[4] == "--security"@
            &&& args[5] == "none"@
            &&& 0 <= i < config.rdp_bridge_args@.len() ==> args[6 + i]
                == config.rdp_bridge_args@[i]@
        }),
{
}

/// X11 is hosted if the configuration says so and the command line does not say otherwise, or if the
/// command line says anything of how. What the command line says of it wins.
pub proof fn x11_is_hosted_as_asked(configured: Option<XwaylandConfig>, args: CompositorArgs)
    ensures
        ({
            let r = chosen_xwayland(configured, args);
            let asked = args.xwayland_display is Some || args.xwayland_wayland_debug is Some;
            &&& (r is Some) == (asked || (configured is Some && !args.no_xwayland))
            &&& !asked && !args.no_xwayland ==> r == configured
            &&& args.xwayland_display is Some ==> r->0.display == args.xwayland_display
            &&& args.xwayland_wayland_debug matches Some(debug) ==> r->0.wayland_debug == debug
            &&& asked && args.xwayland_display is None ==> r->0.display == (if args.no_xwayland
                || configured is None {
                None
            } else {
                configured->0.display
            })
            &&& asked && args.xwayland_wayland_debug is None ==> r->0.wayland_debug == (
            !args.no_xwayland && configured is Some && configured->0.wayland_debug)
        }),
{
}

} // verus!
