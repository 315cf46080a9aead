use wprs::error::{Cause, Error};
use wprs::launcher::{
    child_environment, default_wctl_probe_endpoint, derive_wprsd_config_for_wrun, exit_code,
    resolve_wctl_probe_endpoints, split_command, watch_child, wrun_control_name, wrun_socket_name,
    ChildState, WatchStep, WrunPlace,
};
use wprs::protocols::wctl::client::{wait_ready, Client, ReadyStep};
use wprs::protocols::wctl::inproc::{Client as InprocClient, Reply, Server};
use wprs::protocols::wctl::server::{
    is_disconnect_error, ControlHandler, Handler, IoErrorKind, TargetPid,
};
use wprs::protocols::wctl::{Endpoint, Request, Response, ServerInfo};
use wprs::server::config::{
    IntegrationMode, WaylandConfig, WprsdBackend, WprsdConfig, XwaylandConfig,
};
use wprs::server::daemon::{
    build_backend, compositor_configs, infer_backend, maybe_start_rdp_bridge, server_info,
    ticks_per_second, CompositorArgs, RdpBridge, System,
};
use wprs::models::surface::{BufferFormat, BufferMetadata, WlSurfaceId};
use wprs::server::recorder::Recorder;
use wprs::client::config::{ClientBackend, KeyboardMode, WprscConfig};
use wprs::utils::ieee::F64;
use wprs::protocols::wprs::endpoint::Endpoint as WprsEndpoint;
use wprs::utils::socket_addr::{Ipv4Addr, SocketAddr};
use wprs::utils::system::SystemFamily;

fn info() -> ServerInfo {
    ServerInfo {
        wprs_endpoint: "unix:///run/w".to_string(),
        wayland_display: Some("wayland-7".to_string()),
        xwayland_display: Some(3),
    }
}

fn server_config() -> WprsdConfig {
    WprsdConfig {
        backend: None,
        socket: "/run/w".to_string(),
        endpoint: None,
        control_socket: "/run/c".to_string(),
        control_endpoint: None,
        framerate: 60,
        wayland: WaylandConfig {
            display: "wayland-7".to_string(),
            xwayland: Some(XwaylandConfig { display: Some(3), wayland_debug: false }),
            kde_server_side_decorations: false,
        },
        enable_rdp: false,
        rdp_mode: IntegrationMode::External,
        rdp_listen: SocketAddr::V4 { ip: Ipv4Addr { octets: [127, 0, 0, 1] }, port: 3389 },
        rdp_bridge_args: vec!["--x".to_string()],
    }
}

#[test]
fn handler_answers() {
    let mut handler = ControlHandler::new(info(), None);
    assert_eq!(handler.handle(Request::Ping), Response::Pong);
    assert_eq!(handler.handle(Request::ServerInfo), Response::ServerInfo(info()));
    assert_eq!(
        handler.handle(Request::SetCaptureTargetPid { pid: Some(1) }),
        Response::Error {
            message: "capture target pid is not supported by the current backend".to_string()
        }
    );
    let mut handler = ControlHandler::new(info(), Some(TargetPid { pid: None }));
    assert_eq!(handler.handle(Request::SetCaptureTargetPid { pid: Some(1) }), Response::Done);
    assert_eq!(handler.target_pid, Some(TargetPid { pid: Some(1) }));
    assert_eq!(handler.handle(Request::StopSession), Response::Done);
    assert_eq!(handler.target_pid, Some(TargetPid { pid: None }));
    assert_eq!(handler.handle(Request::StartSession { child_pid: 9 }), Response::Done);
    assert_eq!(handler.target_pid, Some(TargetPid { pid: Some(9) }));
}

#[test]
fn inproc_server_answers_in_order() {
    let mut handler = ControlHandler::new(info(), None);
    let server = Server::new(vec![Request::Ping, Request::ServerInfo, Request::Ping]);
    let answers = server.serve(&mut handler);
    assert_eq!(
        answers,
        vec![Response::Pong, Response::ServerInfo(info()), Response::Pong]
    );
}

#[test]
fn clients_check_answers() {
    assert!(Client::ping(Response::Pong).is_ok());
    assert_eq!(
        Client::ping(Response::Error { message: "no".to_string() })
            .unwrap_err()
            .display_message(),
        "wctl ping failed: no"
    );
    assert_eq!(
        Client::ping(Response::Done).unwrap_err().display_message(),
        "unexpected wctl response: Ok"
    );
    assert!(Client::start_session(Response::Done).is_ok());
    assert_eq!(
        Client::stop_session(Response::Pong).unwrap_err().display_message(),
        "unexpected wctl response: Pong"
    );
    assert_eq!(Client::server_info(Response::ServerInfo(info())).unwrap(), info());
    assert_eq!(
        InprocClient::start_session(Response::ServerInfo(info()))
            .unwrap_err()
            .display_message(),
        "internal error: unexpected wctl response: ServerInfo(ServerInfo { wprs_endpoint: \"unix:///run/w\", wayland_display: Some(\"wayland-7\"), xwayland_display: Some(3) })"
    );
    assert_eq!(
        InprocClient::stop_session(Response::Error { message: "x".to_string() })
            .unwrap_err()
            .display_message(),
        "internal error: wctl stop session failed: x"
    );
    assert_eq!(
        InprocClient::request(Reply::RequestChannelClosed).unwrap_err().display_message(),
        "internal error: wctl inproc channel closed"
    );
    assert_eq!(
        InprocClient::request(Reply::ResponseChannelClosed).unwrap_err().display_message(),
        "internal error: wctl inproc response channel closed"
    );
}

#[test]
fn clients_wait_for_the_server() {
    assert!(matches!(wait_ready(Ok(()), true), ReadyStep::Ready));
    let err = || Err(Error::Message("x".to_string()));
    assert!(matches!(wait_ready(err(), false), ReadyStep::SleepMillis(25)));
    assert!(matches!(wait_ready(err(), true), ReadyStep::Failed(Error::Message(_))));
}

#[test]
fn disconnects_are_told_apart() {
    assert!(!is_disconnect_error(&vec![]));
    assert!(!is_disconnect_error(&vec![IoErrorKind::Other]));
    assert!(is_disconnect_error(&vec![IoErrorKind::Other, IoErrorKind::BrokenPipe]));
}

#[test]
fn commands_are_split() {
    assert_eq!(
        split_command(vec![]).unwrap_err().display_message(),
        "missing required value: command; try: wrun -- <cmd> [args...]"
    );
    let (program, args) =
        split_command(vec!["a".to_string(), "b".to_string(), "c".to_string()]).unwrap();
    assert_eq!(program, "a");
    assert_eq!(args, vec!["b", "c"]);
}

#[test]
fn programs_get_variables() {
    let endpoint = Some(Endpoint::Unix { path: "/c".to_string() });
    let all = child_environment(&endpoint, &info(), true, false, false);
    assert_eq!(
        all,
        vec![
            ("WCTL_SOCKET".to_string(), "unix:///c".to_string()),
            ("WAYLAND_DISPLAY".to_string(), "wayland-7".to_string()),
            ("DISPLAY".to_string(), ":3".to_string()),
        ]
    );
    assert_eq!(child_environment(&None, &info(), true, true, true), vec![]);
    assert_eq!(child_environment(&None, &info(), false, false, false), vec![]);
    assert_eq!(exit_code(None), 1);
    assert_eq!(exit_code(Some(7)), 7);
}

const UNIX: SystemFamily = SystemFamily::Unix;

fn own_sockets() -> WrunPlace {
    WrunPlace::Sockets { socket: "/s".to_string(), control_socket: "/t".to_string() }
}

#[test]
fn probed_endpoints() {
    let path = |p: &str| Endpoint::Unix { path: p.to_string() };
    let from_env = resolve_wctl_probe_endpoints(Some("/e"), Some(path("/a")), path("/d"), UNIX).unwrap();
    assert_eq!(from_env, vec![path("/e")]);
    let both = resolve_wctl_probe_endpoints(None, Some(path("/a")), path("/d"), UNIX).unwrap();
    assert_eq!(both, vec![path("/a"), path("/d")]);
    let one = resolve_wctl_probe_endpoints(None, Some(path("/d")), path("/d"), UNIX).unwrap();
    assert_eq!(one, vec![path("/d")]);
    let err = resolve_wctl_probe_endpoints(Some("x"), None, path("/d"), UNIX).unwrap_err();
    assert!(matches!(&err, Error::Context { source: Cause::Own(_), .. }));
    assert!(err.display_message().starts_with("invalid WCTL_SOCKET value: "));
    let err = resolve_wctl_probe_endpoints(Some("tcp://1.2.3.4:5"), None, path("/d"), UNIX).unwrap_err();
    assert_eq!(
        err.display_message(),
        "wctl tcp endpoint must use a loopback address: 1.2.3.4:5"
    );
}

#[test]
fn configs_for_one_program() {
    assert_eq!(wrun_socket_name(12), "wrun-12-wprs.sock");
    assert_eq!(wrun_control_name(12), "wrun-12-ctrl.sock");
    let derived = derive_wprsd_config_for_wrun(
        None,
        server_config(),
        own_sockets(),
        true,
    );
    assert_eq!(derived.socket, "/s");
    assert_eq!(derived.control_socket, "/t");
    assert_eq!(derived.backend, Some(WprsdBackend::MacosSeamless));
    let kept = derive_wprsd_config_for_wrun(
        Some(server_config()),
        server_config(),
        own_sockets(),
        true,
    );
    assert_eq!(kept.socket, "/run/w");
    assert_eq!(kept.backend, None);
    let addr = SocketAddr::parse("127.0.0.1:4000").unwrap();
    let derived =
        derive_wprsd_config_for_wrun(None, server_config(), WrunPlace::Address(addr), false);
    assert_eq!(derived.endpoint, Some(WprsEndpoint::Tcp { addr }));
    assert_eq!(derived.socket, "/run/w");
    assert_eq!(derived.control_socket, server_config().control_socket);
    assert_eq!(derived.backend, None);
}

#[test]
fn default_places_of_servers() {
    let socket = "/run/c".to_string();
    assert_eq!(
        default_wctl_probe_endpoint(UNIX, socket.clone()),
        Endpoint::Unix { path: socket.clone() }
    );
    assert_eq!(
        default_wctl_probe_endpoint(SystemFamily::Other, socket).display_text(),
        "tcp://127.0.0.1:48200"
    );
}

#[test]
fn programs_do_not_outlive_their_viewer() {
    assert_eq!(watch_child(false, ChildState::Running), WatchStep::SleepMillis(25));
    assert_eq!(watch_child(true, ChildState::Running), WatchStep::Kill);
    assert_eq!(watch_child(false, ChildState::Ended(Some(3))), WatchStep::Exit(3));
    assert_eq!(watch_child(false, ChildState::Ended(None)), WatchStep::Exit(1));
    assert_eq!(watch_child(false, ChildState::Unknown), WatchStep::Exit(1));
}

#[test]
fn inferred_backends() {
    let named = infer_backend(Some(WprsdBackend::X11Fullscreen), true, System::Macos, false);
    assert_eq!(named.unwrap(), WprsdBackend::X11Fullscreen);
    assert_eq!(
        infer_backend(None, true, System::Macos, false).unwrap(),
        WprsdBackend::Wayland
    );
    assert_eq!(
        infer_backend(None, false, System::Unix, true).unwrap(),
        WprsdBackend::X11Fullscreen
    );
    assert!(infer_backend(None, false, System::Unix, false)
        .unwrap_err()
        .display_message()
        .starts_with("no backend selected and $DISPLAY is not set"));
    assert_eq!(
        build_backend(WprsdBackend::MacosSeamless, false).unwrap(),
        Some(TargetPid { pid: None })
    );
    assert!(build_backend(WprsdBackend::Wayland, false).is_err());
    assert_eq!(ticks_per_second(0), 1);
    assert_eq!(ticks_per_second(30), 30);
}

#[test]
fn servers_tell_of_themselves() {
    let told = server_info(&server_config(), WprsdBackend::Wayland);
    assert_eq!(told, info());
    let told = server_info(&server_config(), WprsdBackend::X11Fullscreen);
    assert_eq!(told.wayland_display, None);
    assert_eq!(told.xwayland_display, None);
}

#[test]
fn rdp_bridges() {
    let mut config = server_config();
    assert!(matches!(maybe_start_rdp_bridge(&config, true), Ok(RdpBridge::NotStarted)));
    config.enable_rdp = true;
    assert!(matches!(maybe_start_rdp_bridge(&config, true), Ok(RdpBridge::NotStarted)));
    config.rdp_mode = IntegrationMode::Embedded;
    assert!(matches!(maybe_start_rdp_bridge(&config, true), Ok(RdpBridge::Embedded(_))));
    assert!(maybe_start_rdp_bridge(&config, false).is_err());
    config.rdp_mode = IntegrationMode::Spawned;
    let Ok(RdpBridge::Spawned(args)) = maybe_start_rdp_bridge(&config, false) else {
        panic!("not spawned");
    };
    assert_eq!(
        args,
        vec![
            "--wprs-endpoint",
            "unix:///run/w",
            "--rdp-listen",
            "127.0.0.1:3389",
            "--security",
            "none",
            "--x"
        ]
    );
}

#[test]
fn compositor_overrides() {
    let client = WprscConfig::with_sockets("/s".to_string(), "/c".to_string());
    let args = CompositorArgs {
        wayland_display: None,
        framerate: Some(30),
        kde_server_side_decorations: true,
        no_xwayland: true,
        xwayland_display: Some(9),
        xwayland_wayland_debug: None,
        ui_scale_factor: Some(F64 { bits: 2.5f64.to_bits() }),
        min_output_scale_factor: None,
        keyboard_mode: Some(KeyboardMode::Evdev),
        xkb_keymap_file: None,
    };
    let (server, backend, config) = compositor_configs(args, server_config(), client);
    assert_eq!(server.framerate, 30);
    assert!(server.wayland.kde_server_side_decorations);
    assert_eq!(server.wayland.display, "wayland-7");
    assert_eq!(
        server.wayland.xwayland,
        Some(XwaylandConfig { display: Some(9), wayland_debug: false })
    );
    assert_eq!(backend, ClientBackend::WinitWgpu);
    assert_eq!(config.keyboard_mode, KeyboardMode::Evdev);
    assert_eq!(f64::from_bits(config.ui_scale_factor.bits), 2.5);
    assert_eq!(config.control_socket, "/c");
}

#[test]
fn windows_are_recorded() {
    let mut recorder = Recorder::new();
    let good = BufferMetadata { width: 1, height: 1, stride: 4, format: BufferFormat::Argb8888 };
    let name = |recorder: &mut Recorder, id: u64| {
        recorder.record(WlSurfaceId(id), &good, &[1, 2, 3, 4]).unwrap().0
    };
    assert_eq!(name(&mut recorder, 7), "window_0_0.png");
    assert_eq!(name(&mut recorder, 7), "window_0_1.png");
    assert_eq!(name(&mut recorder, 9), "window_1_0.png");
    let bad = BufferMetadata { width: -2, ..good };
    assert_eq!(
        recorder.record(WlSurfaceId(8), &bad, &[]).unwrap_err().display_message(),
        "invalid argument: invalid width -2"
    );
    let short = recorder.record(WlSurfaceId(8), &good, &[1]).unwrap_err();
    assert_eq!(
        short.display_message(),
        "invalid argument: bgra buffer too small: len=1 expected_at_least=4"
    );
    recorder.forget(WlSurfaceId(7));
    assert_eq!(name(&mut recorder, 7), "window_2_0.png");
}
