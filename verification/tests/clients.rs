use wprs::client::backend::{
    build_client_backend, resolve_client_backend, wrun_control_socket_name, BuiltBackend,
    ClientBackendConfig, Compositor, HostSupport,
};
use wprs::client::backends::smithay_client::backend::{SmithayClientBackend, WinitRenderer};
use wprs::client::backends::winit_wgpu::options::WinitWgpuClientBackend;
use wprs::client::config::{
    default_html_bind_addr, ClientBackend, KeyboardMode, SerializableLevel, WprscArgs,
    WprscConfig, WprscRole,
};
use wprs::client::coords::ServerBufferScale;
use wprs::client::message_backend::{Delivery, MessageClientBackend, SyncedClientBackend};
use wprs::client::runner::{
    client_hello, client_options, forward_only_endpoint, receive, should_advertise_h264,
};
use wprs::client::state::{drain_client_updates, ClientEvent, ClientState};
use wprs::client::surface_registry::{record_surface, report, SurfaceRegistry};
use wprs::client::wayland_server::{check_config, internal_dir_name, wayland_display_name};
use wprs::error::{Cause, Error, ForeignError, Location};
use wprs::models::surface::{
    Bitmap, BitmapAssignment, BufferFormat, BufferMetadata, BufferPoolHandle, Role, SurfaceState,
    WlSurfaceId,
};
use wprs::protocols::wprs::capabilities::CpuFeatures;
use wprs::protocols::wprs::client_sync::{ClientSync, H264Outcome, SyncStep};
use wprs::protocols::wprs::endpoint::Endpoint;
use wprs::protocols::wprs::raw_buffer::{RawBufferHeader, RawBufferKind, RawBufferMessage};
use wprs::protocols::wprs::serializer::{RecvType, SendType};
use wprs::protocols::wprs::transport::{TransportCodec, TransportEvent};
use wprs::protocols::wprs::types::{Capabilities, ClientId, Event, Request};
use wprs::protocols::wprs::wayland::{SurfaceRequest, SurfaceRequestPayload};
use wprs::protocols::wprs::xdg_shell::{XdgToplevelId, XdgToplevelState};
use wprs::utils::filtering::filter;

fn surface(id: u64) -> SurfaceState {
    SurfaceState {
        client: ClientId(1),
        id: WlSurfaceId(id),
        buffer: None,
        buffer_update: None,
        bitmap: None,
        bitmap_update: None,
        role: None,
        buffer_scale: 1,
        buffer_transform: None,
        opaque_region: None,
        input_region: None,
        z_ordered_children: Vec::new(),
        damage: None,
        output_ids: Vec::new(),
        viewport_state: None,
        xdg_surface_state: None,
    }
}

fn toplevel(id: u64, title: &str) -> SurfaceState {
    let mut state = surface(id);
    state.role = Some(Role::XdgToplevel(XdgToplevelState {
        id: XdgToplevelId(id),
        parent: None,
        title: Some(title.to_string()),
        app_id: None,
        decoration_mode: None,
        maximized: None,
        fullscreen: None,
    }));
    state
}

fn bitmap(data: Vec<u8>) -> Option<BitmapAssignment> {
    Some(BitmapAssignment::New(Bitmap {
        metadata: BufferMetadata { width: 1, height: 1, stride: 4, format: BufferFormat::Argb8888 },
        data: BufferPoolHandle::from_bytes(data),
    }))
}

fn commit(state: SurfaceState) -> Request {
    Request::Surface(SurfaceRequest {
        client: state.client,
        surface: state.id,
        payload: SurfaceRequestPayload::Commit(state),
    })
}

fn destroyed(id: u64) -> Request {
    Request::Surface(SurfaceRequest {
        client: ClientId(1),
        surface: WlSurfaceId(id),
        payload: SurfaceRequestPayload::Destroyed,
    })
}

fn host(compositor: Compositor, winit_wgpu: bool) -> HostSupport {
    HostSupport { compositor, winit_wgpu }
}

fn config() -> WprscConfig {
    WprscConfig::with_sockets("/s".to_string(), "/c".to_string())
}

fn no_args() -> WprscArgs {
    WprscArgs {
        socket: None,
        endpoint: None,
        control_socket: None,
        log_file: None,
        stderr_log_level: None,
        file_log_level: None,
        log_priv_data: None,
        title_prefix: None,
        role: None,
        backend: None,
        keyboard_mode: None,
        xkb_keymap_file: None,
        ui_scale_factor: None,
        min_output_scale_factor: None,
        html_bind_addr: None,
        forward_only: false,
        no_auto_reconnect: false,
    }
}

#[test]
fn auto_backend_follows_the_host() {
    let resolve = |h| resolve_client_backend(ClientBackend::Auto, h);
    assert_eq!(resolve(host(Compositor::Reachable, true)).unwrap(), ClientBackend::Wayland);
    assert_eq!(resolve(host(Compositor::Absent, true)).unwrap(), ClientBackend::WinitWgpu);
    assert_eq!(resolve(host(Compositor::Absent, false)).unwrap(), ClientBackend::SgrPixels);
    assert_eq!(
        resolve(host(Compositor::Failed("broken".to_string()), true))
            .unwrap_err()
            .display_message(),
        "broken"
    );
}

#[test]
fn backends_are_built() {
    assert_eq!(
        build_client_backend(ClientBackend::SmithayXwayland, false, true).unwrap(),
        BuiltBackend::WinitWgpu
    );
    assert_eq!(BuiltBackend::WinitWgpu.name(), "winit-wgpu");
    assert_eq!(BuiltBackend::SgrPixels.name(), "sgr-pixels");
    assert!(build_client_backend(ClientBackend::Auto, true, true).is_err());
    assert!(build_client_backend(ClientBackend::Wayland, false, true).is_err());
    assert!(build_client_backend(ClientBackend::WinitWgpu, true, false).is_err());
    assert_eq!(
        build_client_backend(ClientBackend::Html, false, false).unwrap(),
        BuiltBackend::Html
    );
}

#[test]
fn command_line_wins() {
    let mut args = no_args();
    args.title_prefix = Some("p".to_string());
    args.backend = Some(ClientBackend::Html);
    args.no_auto_reconnect = true;
    let mut file = config();
    file.keyboard_mode = KeyboardMode::Evdev;
    file.title_prefix = "file".to_string();
    let loaded = args.load_config(config(), Some(file)).unwrap();
    assert_eq!(loaded.title_prefix, "p");
    assert_eq!(loaded.present_backend, ClientBackend::Html);
    assert_eq!(loaded.keyboard_mode, KeyboardMode::Evdev);
    assert!(!loaded.auto_reconnect);
    assert_eq!(loaded.role, WprscRole::Viewer);
    assert_eq!(loaded.stderr_log_level, SerializableLevel::Info);
    assert_eq!(f64::from_bits(loaded.ui_scale_factor.bits), 1.0);
    assert_eq!(loaded.html_bind_addr, default_html_bind_addr());
    assert_eq!(default_html_bind_addr().display_text(), "127.0.0.1:7777");
}

#[test]
fn scale_factors_are_at_least_one() {
    let mut args = no_args();
    args.min_output_scale_factor = Some(0);
    assert_eq!(
        args.load_config(config(), None).unwrap_err().display_message(),
        "min_output_scale_factor must be >= 1"
    );
    let backend = |scale, macos| {
        let mut config = ClientBackendConfig::of_client(config());
        config.min_output_scale_factor = scale;
        WinitWgpuClientBackend::new(config, macos).options.min_output_scale_factor
    };
    assert_eq!(backend(None, false), 1);
    assert_eq!(backend(None, true), 2);
    assert_eq!(backend(Some(-3), true), 1);
    assert_eq!(backend(Some(4), true), 4);
    assert_eq!(ServerBufferScale(0).normalized(), 1);
    assert_eq!(ServerBufferScale(3).normalized(), 3);
}

#[test]
fn smithay_backends() {
    let new = |backend| {
        SmithayClientBackend::new(
            ClientBackendConfig::new_for_wrun("/c".to_string()),
            backend,
            "x".to_string(),
        )
    };
    assert_eq!(
        new(ClientBackend::SmithayWinitGlowWayland).unwrap().renderer().unwrap(),
        WinitRenderer::Glow
    );
    assert!(new(ClientBackend::SmithayX11GlWayland)
        .unwrap()
        .renderer()
        .unwrap_err()
        .display_message()
        .contains("x backend is not implemented"));
    assert!(matches!(
        new(ClientBackend::SmithayDrmPixmanWayland).unwrap().renderer(),
        Err(Error::Unsupported(_))
    ));
    assert!(matches!(new(ClientBackend::Html), Err(Error::InvalidArgument(_))));
    assert_eq!(wrun_control_socket_name("terminal", 5), "wrun-terminal-5-ctrl.sock");
}

#[test]
fn forwarding_needs_ssh() {
    assert_eq!(
        forward_only_endpoint(None).unwrap_err().display_message(),
        "invalid argument: --forward-only requires --endpoint=ssh://..."
    );
    assert_eq!(
        forward_only_endpoint(Some(Endpoint::parse("/x").unwrap()))
            .unwrap_err()
            .display_message(),
        "invalid argument: --forward-only requires an ssh:// endpoint"
    );
    let ssh = Endpoint::parse("ssh://h/x").unwrap();
    assert_eq!(forward_only_endpoint(Some(ssh.clone())).unwrap(), ssh);
}

#[test]
fn clients_introduce_themselves() {
    let options = client_options(true);
    assert!(options.auto_reconnect);
    assert!(matches!(options.on_connect[0], SendType::Object(Event::WprsClientConnect)));
    let cpu = CpuFeatures { avx2: true, neon: false };
    let SendType::Object(Event::Transport(TransportEvent::ClientHello(hello))) =
        client_hello(BuiltBackend::WinitWgpu, cpu, true)
    else {
        panic!("no hello");
    };
    assert!(hello.supports_buffer_patches);
    assert_eq!(hello.cpu, cpu);
    assert_eq!(
        hello.supported_codecs,
        vec![
            TransportCodec::ShardedZstd { level: 1 },
            TransportCodec::ShardedLz4,
            TransportCodec::ShardedRaw,
            TransportCodec::Png,
            TransportCodec::Jpeg,
            TransportCodec::H264,
        ]
    );
}

#[test]
fn h264_is_switched() {
    assert!(should_advertise_h264(Some(" Yes\n"), true, true));
    assert!(!should_advertise_h264(Some("off"), false, true));
    assert!(!should_advertise_h264(None, true, true));
    assert!(should_advertise_h264(None, false, true));
    assert!(!should_advertise_h264(Some("1"), false, false));
}

#[test]
fn wayland_servers_are_not_for_forwarding() {
    let mut config = config();
    assert!(check_config(&config, true).is_ok());
    assert!(check_config(&config, false).is_err());
    config.forward_only = true;
    assert_eq!(
        check_config(&config, true).unwrap_err().display_message(),
        "--forward-only is only meaningful for role=viewer"
    );
    assert_eq!(wayland_display_name(7), "wprsc-7");
    assert_eq!(internal_dir_name(7, 8), "wprsc-internal-7-8");
}

#[test]
fn requests_change_the_state() {
    let mut state = ClientState::new();
    assert!(receive(&mut state, RecvType::Object(commit(toplevel(3, "a")))));
    assert!(receive(
        &mut state,
        RecvType::Object(Request::Capabilities(Capabilities { xwayland: true }))
    ));
    let frame = RawBufferMessage {
        header: RawBufferHeader { version: 1, kind: RawBufferKind::Png, surface: None },
        bytes: vec![],
    };
    assert!(!receive(&mut state, RecvType::RawBuffer(frame)));
    let mut pending = 0;
    assert!(drain_client_updates(&mut pending, &mut state).unwrap().is_none());
    pending = 2;
    let batch = drain_client_updates(&mut pending, &mut state).unwrap().unwrap();
    assert_eq!(pending, 0);
    assert!(drain_client_updates(&mut pending, &mut state).unwrap().is_none());
    assert_eq!(batch.surfaces.updated.len(), 1);
    assert!(matches!(batch.events[0], ClientEvent::Capabilities(_)));
    assert!(receive(&mut state, RecvType::Object(commit(toplevel(3, "a")))));
    assert_eq!(state.drain_surface_updates().updated.len(), 0);
    assert!(receive(&mut state, RecvType::Object(commit(toplevel(3, "b")))));
    assert!(receive(&mut state, RecvType::Object(destroyed(3))));
    let delta = state.drain_surface_updates();
    assert_eq!(delta.updated.len(), 0);
    assert_eq!(delta.removed.len(), 1);
    assert_eq!(state.snapshot_surfaces().len(), 0);
}

#[test]
fn frames_reach_their_commits() {
    let mut sync = ClientSync::new();
    let frame = RawBufferMessage {
        header: RawBufferHeader {
            version: 2,
            kind: RawBufferKind::FilteredBgra,
            surface: Some(WlSurfaceId(3)),
        },
        bytes: filter(&[1, 2, 3, 4]).bytes,
    };
    assert!(matches!(
        sync.handle_message(RecvType::RawBuffer(frame)),
        Ok(SyncStep::Consumed)
    ));
    let mut state = surface(3);
    state.bitmap = bitmap(vec![]);
    let Ok(SyncStep::Forward(RecvType::Object(Request::Surface(request)))) =
        sync.handle_message(RecvType::Object(commit(state)))
    else {
        panic!("no commit");
    };
    let SurfaceRequestPayload::Commit(state) = request.payload else {
        panic!("no commit");
    };
    let Some(BitmapAssignment::New(bitmap)) = state.bitmap else {
        panic!("no bitmap");
    };
    assert_eq!(bitmap.data.as_slice(), &[1, 2, 3, 4]);
}

#[test]
fn removed_bitmaps_stay_removed() {
    let mut sync = ClientSync::new();
    let mut state = surface(7);
    state.bitmap = Some(BitmapAssignment::Removed);
    let Ok(SyncStep::Forward(RecvType::Object(Request::Surface(request)))) =
        sync.handle_message(RecvType::Object(commit(state)))
    else {
        panic!("no commit");
    };
    let SurfaceRequestPayload::Commit(state) = request.payload else {
        panic!("no commit");
    };
    assert!(matches!(state.bitmap, Some(BitmapAssignment::Removed)));
}

#[test]
fn video_frames_go_through_the_decoder() {
    let mut sync = ClientSync::with_video(true);
    let frame = |bytes: Vec<u8>| {
        RecvType::RawBuffer(RawBufferMessage {
            header: RawBufferHeader {
                version: 2,
                kind: RawBufferKind::H264,
                surface: Some(WlSurfaceId(3)),
            },
            bytes,
        })
    };
    let Ok(SyncStep::DecodeH264 { surface, start, bytes }) = sync.handle_message(frame(vec![9]))
    else {
        panic!("no decoding");
    };
    assert_eq!((surface, start, bytes), (WlSurfaceId(3), true, vec![9]));
    sync.finish_h264(surface, H264Outcome::NoFrame);
    assert!(matches!(
        sync.handle_message(frame(vec![9])),
        Ok(SyncStep::DecodeH264 { start: false, .. })
    ));
    sync.finish_h264(surface, H264Outcome::Failed);
    assert!(matches!(sync.handle_message(frame(vec![9])), Ok(SyncStep::Consumed)));
}

struct Counter(u32);

impl MessageClientBackend for Counter {
    fn name(&self) -> &'static str {
        "counter"
    }

    fn handle_message(&mut self, _msg: RecvType<Request>) -> Result<(), Error> {
        self.0 += 1;
        Ok(())
    }
}

#[test]
fn messages_are_delivered() {
    let mut backend = SyncedClientBackend::new(Counter(0));
    assert!(matches!(backend.deliver(SyncStep::Consumed), Delivery::Consumed));
    let msg = RecvType::Object(destroyed(1));
    assert!(matches!(backend.deliver(SyncStep::Forward(msg)), Delivery::Handled(Ok(()))));
    assert_eq!(backend.backend.0, 1);
    assert_eq!(backend.backend.name(), "counter");
}

#[test]
fn windows_are_reported() {
    let mut registry = SurfaceRegistry::new();
    assert_eq!(report(&registry.snapshot(), 0), "managed windows: (none)");
    let mut state = toplevel(3, "a\"b");
    state.bitmap = bitmap(vec![0; 4]);
    let Request::Surface(request) = commit(state) else {
        panic!("no surface");
    };
    record_surface(&mut registry, &request, 10);
    let Request::Surface(other) = commit(toplevel(2, "x")) else {
        panic!("no surface");
    };
    record_surface(&mut registry, &other, 12);
    assert_eq!(
        report(&registry.snapshot(), 15),
        "managed windows (2): client=1 surface=2 title=\"x\" app_id=\"<unknown>\" size=unknown age=3s | client=1 surface=3 title=\"a\\\"b\" app_id=\"<unknown>\" size=1x1 age=5s"
    );
}

#[test]
fn errors_are_told() {
    let inner = Error::Io(ForeignError::new("gone".to_string()));
    let err = Error::context("reading".to_string(), Cause::Own(Box::new(inner)));
    assert_eq!(err.display_message(), "reading: gone");
    let location =
        Location { fname: "f".to_string(), file: "x.rs".to_string(), line: 3 };
    let err = Error::location(location, Cause::Own(Box::new(err)));
    assert_eq!(err.display_message(), "reading: gone");
    assert_eq!(err.format_error_summary(), "f at x.rs:3: reading: gone");
    assert!(err.format_error_chain().contains("gone"));
    assert_eq!(Error::missing("x".to_string()).display_message(), "missing required value: x");
    assert_eq!(Error::config("x".to_string()).display_message(), "configuration error: x");
    assert_eq!(Error::unsupported("x".to_string()).display_message(), "unsupported operation: x");
    assert_eq!(
        Error::invalid_argument("x".to_string()).display_message(),
        "invalid argument: x"
    );
}
