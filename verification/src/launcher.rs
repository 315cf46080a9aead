//! Running one program with its windows shown elsewhere.
use crate::client::config::given_or;
use crate::error::{Cause, Error};
use crate::protocols::wctl::endpoint::{
    control_text, exposed_text, is_local, optional_view, parsed_control, tells_refusal,
    ControlModel, Endpoint,
};
use crate::protocols::wctl::messages::ServerInfo;
use crate::protocols::wprs::endpoint as wprs_endpoint;
use crate::server::config::{WprsdBackend, WprsdConfig};
use crate::utils::socket_addr::{AddrModel, Ipv4Addr, SocketAddr};
use crate::utils::system::SystemFamily;
use crate::utils::text::{decimal, owned, push_decimal};
use vstd::prelude::*;

verus! {

/// The program to run, with its arguments, which must be named.
pub fn split_command(cmd: Vec<String>) -> (r: Result<(String, Vec<String>), Error>)
    ensures
        if cmd@.len() == 0 {
            r matches Err(Error::Missing(text)) && text@ == "command; try: wrun -- <cmd> [args...]"@
        } else {
            r matches Ok((program, args)) && program == cmd@[0] && args@ == cmd@.subrange(
                1,
                cmd@.len() as int,
            )
        },
{
    if cmd.len() == 0 {
        return Err(Error::Missing(owned("command; try: wrun -- <cmd> [args...]")));
    }
    let ghost before = cmd@;
    let mut args = cmd;
    let program = args.remove(0);
    assert(args@ =~= before.subrange(1, before.len() as int));
    Ok((program, args))
}

/// The variables that are set for the program: a name and a value each.
pub open spec fn child_variables(
    control_endpoint: Option<ControlModel>,
    wayland_display: Option<Seq<char>>,
    xwayland_display: Option<u32>,
    linux: bool,
    no_wayland: bool,
    no_x11: bool,
) -> Seq<(Seq<char>, Seq<char>)> {
    let control = match control_endpoint {
        Some(endpoint) => seq![("WCTL_SOCKET"@, control_text(endpoint))],
        None => Seq::empty(),
    };
    let wayland = match wayland_display {
        Some(display) => if linux && !no_wayland {
            seq![("WAYLAND_DISPLAY"@, display)]
        } else {
            Seq::empty()
        },
        None => Seq::empty(),
    };
    let x11 = match xwayland_display {
        Some(display) => if linux && !no_x11 {
            seq![("DISPLAY"@, ":"@ + decimal(display as nat))]
        } else {
            Seq::empty()
        },
        None => Seq::empty(),
    };
    control + wayland + x11
}

pub open spec fn pair_views(pairs: Seq<(String, String)>) -> Seq<(Seq<char>, Seq<char>)> {
    Seq::new(pairs.len(), |i: int| (pairs[i].0@, pairs[i].1@))
}

fn push_variable(out: &mut Vec<(String, String)>, name: &str, value: String)
    ensures
        pair_views(final(out)@) == pair_views(old(out)@).push((name@, value@)),
{
    let ghost before = pair_views(out@);
    let ghost new = (name@, value@);
    out.push((owned(name), value));
    assert(pair_views(out@) =~= before.push(new));
}

/// The variables to set for the program.
pub fn child_environment(
    control_endpoint: &Option<Endpoint>,
    info: &ServerInfo,
    linux: bool,
    no_wayland: bool,
    no_x11: bool,
) -> (r: Vec<(String, String)>)
    ensures
        pair_views(r@) == child_variables(
            optional_view(*control_endpoint),
            info@.wayland_display,
            info@.xwayland_display,
            linux,
            no_wayland,
            no_x11,
        ),
{
    let mut out: Vec<(String, String)> = Vec::new();
    if let Some(endpoint) = control_endpoint {
        push_variable(&mut out, "WCTL_SOCKET", endpoint.display_text());
    }
    if linux {
        if !no_wayland {
            if let Some(display) = &info.wayland_display {
                push_variable(&mut out, "WAYLAND_DISPLAY", owned(display.as_str()));
            }
        }
        if !no_x11 {
            if let Some(display) = info.xwayland_display {
                let mut value = owned(":");
                push_decimal(&mut value, display as u64);
                push_variable(&mut out, "DISPLAY", value);
            }
        }
    }
    assert(pair_views(out@) =~= child_variables(
        optional_view(*control_endpoint),
        info@.wayland_display,
        info@.xwayland_display,
        linux,
        no_wayland,
        no_x11,
    ));
    out
}

/// The exit code of the launcher: that of the program, if it ended with one.
pub fn exit_code(code: Option<i32>) -> (r: i32)
    ensures
        r == given_or(code, 1),
{
    match code {
        Some(code) => code,
        None => 1,
    }
}

/// What is known of the program that was started.
#[derive(Debug, Clone, Copy, PartialEq, Eq, Structural)]
pub enum ChildState {
    Running,
    /// It ended, with this exit code if it had one.
    Ended(Option<i32>),
    /// The system does not say.
    Unknown,
}

/// What to do while the windows of a program are shown.
#[derive(Debug, Clone, Copy, PartialEq, Eq, Structural)]
pub enum WatchStep {
    /// Kill the program. The launcher then ends with exit code 1.
    Kill,
    /// End the launcher with an exit code.
    Exit(i32),
    /// Look again after a while.
    SleepMillis(u64),
}

/// The next step while the windows of a program are shown: the program does not outlive the viewer,
/// nor the launcher the program.
pub fn watch_child(viewer_ended: bool, child: ChildState) -> (r: WatchStep)
    ensures
        r == (if viewer_ended {
            WatchStep::Kill
        } else {
            match child {
                ChildState::Ended(code) => WatchStep::Exit(given_or(code, 1)),
                ChildState::Unknown => WatchStep::Exit(1),
                ChildState::Running => WatchStep::SleepMillis(25),
            }
        }),
{
    if viewer_ended {
        return WatchStep::Kill;
    }
    match child {
        ChildState::Ended(code) => WatchStep::Exit(exit_code(code)),
        ChildState::Unknown => WatchStep::Exit(1),
        ChildState::Running => WatchStep::SleepMillis(25),
    }
}

/// Where to look for a server that already runs: where the environment says, and else where the
/// configuration and where all servers are by default.
pub open spec fn probed(configured: Option<ControlModel>, default: ControlModel) -> Seq<
    ControlModel,
> {
    match configured {
        Some(endpoint) => if endpoint == default {
            seq![default]
        } else {
            seq![endpoint, default]
        },
        None => seq![default],
    }
}

/// Where all servers are by default: at the default control socket, or at a port of this host, where
/// the system has no such sockets.
pub fn default_wctl_probe_endpoint(system: SystemFamily, control_socket: String) -> (r: Endpoint)
    ensures
        r@ == (match system {
            SystemFamily::Unix => ControlModel::Unix(control_socket@),
            SystemFamily::Other => ControlModel::Tcp(
                AddrModel::V4 { octets: seq![127u8, 0u8, 0u8, 1u8], port: 48200 },
            ),
        }),
{
    match system {
        SystemFamily::Unix => Endpoint::Unix { path: control_socket },
        SystemFamily::Other => {
            let octets: [u8; 4] = [127, 0, 0, 1];
            assert(octets@ =~= seq![127u8, 0u8, 0u8, 1u8]);
            Endpoint::Tcp { addr: SocketAddr::V4 { ip: Ipv4Addr { octets }, port: 48200 } }
        },
    }
}

pub open spec fn endpoint_views(endpoints: Seq<Endpoint>) -> Seq<ControlModel> {
    Seq::new(endpoints.len(), |i: int| endpoints[i]@)
}

/// Where to look for a server that already runs, the most likely place first and none twice.
pub fn resolve_wctl_probe_endpoints(
    env: Option<&str>,
    configured: Option<Endpoint>,
    default: Endpoint,
    system: SystemFamily,
) -> (r: Result<Vec<Endpoint>, Error>)
    ensures
        match env {
            Some(text) => match parsed_control(text@, system) {
                Ok(endpoint) => if is_local(endpoint) {
                    r matches Ok(endpoints) && endpoint_views(endpoints@) == seq![endpoint]
                } else {
                    r matches Err(Error::Message(message)) && endpoint matches ControlModel::Tcp(
                        addr,
                    ) && message@ == exposed_text(addr)
                },
                Err(refusal) => r matches Err(Error::Context { context, source: Cause::Own(err) })
                    && context@ == "invalid WCTL_SOCKET value"@ && tells_refusal(
                    *err,
                    text@,
                    refusal,
                    system,
                ),
            },
            None => r matches Ok(endpoints) && endpoint_views(endpoints@) == probed(
                optional_view(configured),
                default@,
            ),
        },
{
    let mut endpoints: Vec<Endpoint> = Vec::new();
    if let Some(text) = env {
        let endpoint = match Endpoint::parse_on(text, system) {
            Ok(endpoint) => endpoint,
            Err(err) => {
                return Err(
                    Error::Context {
                        context: owned("invalid WCTL_SOCKET value"),
                        source: Cause::Own(Box::new(err)),
                    },
                );
            },
        };
        if let Err(err) = endpoint.ensure_localhost() {
            return Err(err);
        }
        endpoints.push(endpoint);
        assert(endpoint_views(endpoints@) =~= seq![endpoint@]);
        return Ok(endpoints);
    }
    let ghost wanted = probed(optional_view(configured), default@);
    if let Some(endpoint) = configured {
        if !endpoint.same(&default) {
            endpoints.push(endpoint);
        }
    }
    endpoints.push(default);
    assert(endpoint_views(endpoints@) =~= wanted);
    Ok(endpoints)
}

/// The name of the socket of a server that was started for one program.
pub fn wrun_socket_name(pid: u32) -> (r: String)
    ensures
        r@ == "wrun-"@ + decimal(pid as nat) + "-wprs.sock"@,
{
    let mut name = owned("wrun-");
    push_decimal(&mut name, pid as u64);
    name.append("-wprs.sock");
    name
}

/// The name of the control socket of a server that was started for one program.
pub fn wrun_control_name(pid: u32) -> (r: String)
    ensures
        r@ == "wrun-"@ + decimal(pid as nat) + "-ctrl.sock"@,
{
    let mut name = owned("wrun-");
    push_decimal(&mut name, pid as u64);
    name.append("-ctrl.sock");
    name
}

/// Where a server listens that is started for one program: at sockets of its own, or at an address
/// of this host that nobody uses, where the system has no such sockets.
#[derive(Debug)]
pub enum WrunPlace {
    Sockets { socket: String, control_socket: String },
    Address(SocketAddr),
}

/// How a server is set up that is started for one program: as the configuration file says, and
/// where there is none, with a place of its own.
pub open spec fn wrun_config(
    from_file: Option<WprsdConfig>,
    defaults: WprsdConfig,
    place: WrunPlace,
    macos: bool,
) -> WprsdConfig {
    match from_file {
        Some(config) => config,
        None => {
            let backend = if macos && defaults.backend is None {
                Some(WprsdBackend::MacosSeamless)
            } else {
                defaults.backend
            };
            match place {
                WrunPlace::Sockets { socket, control_socket } => WprsdConfig {
                    socket,
                    endpoint: None,
                    control_endpoint: None,
                    control_socket,
                    backend,
                    ..defaults
                },
                WrunPlace::Address(addr) => WprsdConfig {
                    endpoint: Some(wprs_endpoint::Endpoint::Tcp { addr }),
                    control_endpoint: None,
                    backend,
                    ..defaults
                },
            }
        },
    }
}

/// How a server is set up that is started for one program.
pub fn derive_wprsd_config_for_wrun(
    from_file: Option<WprsdConfig>,
    defaults: WprsdConfig,
    place: WrunPlace,
    macos: bool,
) -> (r: WprsdConfig)
    ensures
        r == wrun_config(from_file, defaults, place, macos),
{
    match from_file {
        Some(config) => config,
        None => {
            let mut cfg = defaults;
            match place {
                WrunPlace::Sockets { socket, control_socket } => {
                    cfg.socket = socket;
                    cfg.endpoint = None;
                    cfg.control_socket = control_socket;
                },
                WrunPlace::Address(addr) => {
                    cfg.endpoint = Some(wprs_endpoint::Endpoint::Tcp { addr });
                },
            }
            cfg.control_endpoint = None;
            if macos && cfg.backend.is_none() {
                cfg.backend = Some(WprsdBackend::MacosSeamless);
            }
            cfg
        },
    }
}

/// No place is looked at twice.
pub proof fn probed_places_are_distinct(configured: Option<ControlModel>, default: ControlModel)
    ensures
        probed(configured, default).no_duplicates(),
        probed(configured, default).last() == default,
{
}

/// The value that a program is given for a variable, if it is given one.
pub open spec fn value_of(variables: Seq<(Seq<char>, Seq<char>)>, name: Seq<char>) -> Option<
    Seq<char>,
>
    decreases variables.len(),
{
    if variables.len() == 0 {
        None
    } else if variables.last().0 == name {
        Some(variables.last().1)
    } else {
        value_of(variables.drop_last(), name)
    }
}

/// A program is told where the server can be asked, and the displays that there are, unless they are
/// not wanted. Displays are those of Linux.
#[verifier::rlimit(40)]
pub proof fn programs_find_their_displays(
    control_endpoint: Option<ControlModel>,
    wayland_display: Option<Seq<char>>,
    xwayland_display: Option<u32>,
    linux: bool,
    no_wayland: bool,
    no_x11: bool,
)
    ensures
        ({
            let variables = child_variables(
                control_endpoint,
                wayland_display,
                xwayland_display,
                linux,
                no_wayland,
                no_x11,
            );
            &&& value_of(variables, "WCTL_SOCKET"@) == (match control_endpoint {
                Some(endpoint) => Some(control_text(endpoint)),
                None => None,
            })
            &&& value_of(variables, "WAYLAND_DISPLAY"@) == (if linux && !no_wayland {
                wayland_display
            } else {
                None
            })
            &&& value_of(variables, "DISPLAY"@) == (match xwayland_display {
                Some(display) if linux && !no_x11 => Some(":"@ + decimal(display as nat)),
                _ => None,
            })
        }),
{
    reveal_strlit("WCTL_SOCKET");
    reveal_strlit("WAYLAND_DISPLAY");
    reveal_strlit("DISPLAY");
    assert("WCTL_SOCKET"@.len() == 11 && "WAYLAND_DISPLAY"@.len() == 15 && "DISPLAY"@.len() == 7);
    reveal_with_fuel(value_of, 4);
    let all = child_variables(
        control_endpoint,
        wayland_display,
        xwayland_display,
        linux,
        no_wayland,
        no_x11,
    );
    if all.len() > 0 {
        let two = all.drop_last();
        if two.len() > 0 {
            let one = two.drop_last();
            assert(one.len() <= 1);
        }
    }
}

/// A server is looked for where the configuration says, and then where all servers are.
pub proof fn likely_places_come_first(configured: ControlModel, default: ControlModel)
    ensures
        probed(Some(configured), default)[0] == configured,
        probed(None, default) == seq![default],
        probed(Some(configured), default).len() == (if configured == default {
            1int
        } else {
            2int
        }),
        probed(Some(configured), default).contains(default),
{
    let places = probed(Some(configured), default);
    assert(places[places.len() - 1] == default);
}

/// A server that is started for one program is set up as the file says, or else as by default, at a
/// place of its own. On macOS windows are captured one by one unless something else is said.
pub proof fn programs_get_a_server_of_their_own(
    config: WprsdConfig,
    defaults: WprsdConfig,
    socket: String,
    control_socket: String,
    addr: SocketAddr,
    macos: bool,
)
    ensures
        ({
            let sockets = wrun_config(
                None,
                defaults,
                WrunPlace::Sockets { socket, control_socket },
                macos,
            );
            let address = wrun_config(None, defaults, WrunPlace::Address(addr), macos);
            &&& wrun_config(Some(config), defaults, WrunPlace::Address(addr), macos) == config
            &&& sockets.socket == socket
            &&& sockets.control_socket == control_socket
            &&& sockets.endpoint is None
            &&& sockets.control_endpoint is None
            &&& address.endpoint == Some(wprs_endpoint::Endpoint::Tcp { addr })
            &&& address.control_endpoint is None
            &&& address.socket == defaults.socket
            &&& sockets.framerate == defaults.framerate && address.framerate == defaults.framerate
            &&& sockets.wayland == defaults.wayland && address.wayland == defaults.wayland
            &&& sockets.backend == address.backend
            &&& defaults.backend is Some || !macos ==> sockets.backend == defaults.backend
            &&& defaults.backend is None && macos ==> sockets.backend == Some(
                WprsdBackend::MacosSeamless,
            )
        }),
{
}

} // verus!
