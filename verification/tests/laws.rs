use wprs::client::backend::{
    build_client_backend, resolve_client_backend, Compositor, HostSupport,
};
use wprs::client::backends::sgr_pixels::{can_draw, render_rgba};
use wprs::client::backends::smithay_client::compositor::CompositorState;
use wprs::client::backends::smithay_client::surfaces::{
    can_upload, plan_upload, SurfaceEntry, Upload,
};
use wprs::client::backends::terminal::ScreenSize;
use wprs::client::backends::winit_wgpu::app::App;
use wprs::client::backends::winit_wgpu::events::WindowEvent;
use wprs::client::backends::winit_wgpu::keymap::keymap_message;
use wprs::client::backends::winit_wgpu::model::{Action, PlainAction, TouchPhase};
use wprs::client::backends::winit_wgpu::popups::{has_focus_target, keyboard_focus_target_for};
use wprs::client::backends::winit_wgpu::surfaces::{request_fits, Presented};
use wprs::client::config::{ClientBackend, KeyboardMode};
use wprs::client::state::ClientState;
use wprs::models::surface::{
    Bitmap, BitmapAssignment, BufferFormat, BufferMetadata, BufferPoolHandle, Role, SurfaceState,
    WlSurfaceId,
};
use wprs::protocols::image::pixels::swap_rows;
use wprs::protocols::rdp::{Display, InputHandler, RdpMouseEvent};
use wprs::protocols::video::h264::avcc_packet_to_annexb;
use wprs::protocols::wprs::client_sync::{is_measurable, ClientSync, SyncStep};
use wprs::protocols::wprs::endpoint::Endpoint;
use wprs::protocols::wprs::framing::Framed;
use wprs::protocols::wprs::geometry::{Point, Rectangle, Size};
use wprs::protocols::wprs::handshake::initial_messages;
use wprs::protocols::wprs::raw_buffer::{RawBufferHeader, RawBufferKind, RawBufferMessage};
use wprs::protocols::wprs::serializer::{RecvType, SendType};
use wprs::protocols::wprs::ssh_forward::{setup_client_transport, Scratch};
use wprs::protocols::wprs::types::{Capabilities, ClientId, DisplayConfig, Event, Request};
use wprs::protocols::wprs::wayland::{
    KeyboardEvent, PointerGestureEvent, SurfaceRequest, SurfaceRequestPayload,
};
use wprs::protocols::wprs::xdg_shell::{
    XdgPopupId, XdgPopupState, XdgPositioner, XdgToplevelId, XdgToplevelState,
};
use wprs::utils::filtering::filter;
use wprs::utils::ieee::F64;
use wprs::utils::sorted_map::SortedMap;
use wprs::utils::system::SystemFamily;

fn surface(id: u64, role: Option<Role>) -> SurfaceState {
    SurfaceState {
        client: ClientId(1),
        id: WlSurfaceId(id),
        buffer: None,
        buffer_update: None,
        bitmap: None,
        bitmap_update: None,
        role,
        buffer_scale: 1,
        buffer_transform: None,
        opaque_region: None,
        input_region: None,
        z_ordered_children: Vec::new(),
        damage: None,
        output_ids: Vec::new(),
        viewport_state: None,
        xdg_surface_state: None,
    }
}

fn toplevel(id: u64) -> SurfaceState {
    surface(
        id,
        Some(Role::XdgToplevel(XdgToplevelState {
            id: XdgToplevelId(id),
            parent: None,
            title: None,
            app_id: None,
            decoration_mode: None,
            maximized: None,
            fullscreen: None,
        })),
    )
}

fn popup(parent: u64, grab_requested: bool) -> XdgPopupState {
    let origin = Point { x: 0, y: 0 };
    XdgPopupState {
        id: XdgPopupId(1),
        parent_surface_id: WlSurfaceId(parent),
        positioner: XdgPositioner {
            width: 1,
            height: 1,
            anchor_rect: Rectangle { loc: origin, size: Size { w: 1, h: 1 } },
            offset: origin,
        },
        grab_requested,
    }
}

fn commit(state: SurfaceState) -> SurfaceRequest {
    SurfaceRequest {
        client: state.client,
        surface: state.id,
        payload: SurfaceRequestPayload::Commit(state),
    }
}

fn placeholder(id: u64) -> SurfaceState {
    let mut state = surface(id, None);
    state.bitmap = Some(BitmapAssignment::New(Bitmap {
        metadata: BufferMetadata { width: 1, height: 1, stride: 4, format: BufferFormat::Argb8888 },
        data: BufferPoolHandle::from_bytes(vec![]),
    }));
    state
}

fn bitmap_of(step: SyncStep) -> Vec<u8> {
    let SyncStep::Forward(RecvType::Object(Request::Surface(request))) = step else {
        panic!("no commit");
    };
    let SurfaceRequestPayload::Commit(state) = request.payload else {
        panic!("no commit");
    };
    let Some(BitmapAssignment::New(bitmap)) = state.bitmap else {
        panic!("no bitmap");
    };
    bitmap.data.bytes
}

fn frame(surface: u64, bgra: &[u8]) -> RecvType<Request> {
    RecvType::RawBuffer(RawBufferMessage {
        header: RawBufferHeader {
            version: 2,
            kind: RawBufferKind::FilteredBgra,
            surface: Some(WlSurfaceId(surface)),
        },
        bytes: filter(bgra).bytes,
    })
}

#[test]
fn greetings_bring_clients_up_to_date() {
    let messages = || {
        initial_messages(
            Capabilities { xwayland: true },
            DisplayConfig { scale_factor: 2, dpi: None },
            vec![toplevel(10), toplevel(20)],
        )
        .unwrap()
    };
    let mut state = ClientState::new();
    for msg in messages().into_iter().chain(messages()) {
        let SendType::Object(request) = msg else {
            panic!("no object");
        };
        state.apply_request(request);
    }
    let surfaces = state.snapshot_surfaces();
    assert_eq!(surfaces.len(), 2);
    assert_eq!(surfaces[0].id, WlSurfaceId(10));
    assert_eq!(surfaces[1].id, WlSurfaceId(20));
    assert!(state.capabilities.is_some_and(|caps| caps.xwayland));
    assert!(state.display_config.is_some_and(|config| config.scale_factor == 2));
    assert_eq!(state.drain_surface_updates().updated.len(), 2);
}

#[test]
fn frames_stay_with_their_surface() {
    let mut sync = ClientSync::new();
    assert!(sync.handle_message(frame(1, &[1, 2, 3, 4])).is_ok());
    assert!(sync.handle_message(frame(2, &[5, 6, 7, 8])).is_ok());
    let msg = RecvType::Object(Request::Surface(commit(placeholder(1))));
    assert!(is_measurable(&msg));
    assert_eq!(bitmap_of(sync.handle_message(msg).unwrap()), vec![1, 2, 3, 4]);
    let gone = SurfaceRequest {
        client: ClientId(1),
        surface: WlSurfaceId(2),
        payload: SurfaceRequestPayload::Destroyed,
    };
    assert!(sync.handle_message(RecvType::Object(Request::Surface(gone))).is_ok());
    let msg = RecvType::Object(Request::Surface(commit(placeholder(2))));
    assert_eq!(bitmap_of(sync.handle_message(msg).unwrap()), Vec::<u8>::new());
}

#[test]
fn serials_skip_zero() {
    let mut app = App::new(KeyboardMode::Evdev, 0);
    let mut out = Vec::new();
    let pending = app.begin_surface(commit(toplevel(7)), false, &mut out).unwrap();
    app.window_created(WlSurfaceId(7), Presented::Toplevel(None), 70, None, &mut out);
    app.finish_surface(pending, &mut out);
    let again = app.begin_surface(commit(toplevel(7)), false, &mut out).unwrap();
    assert!(again.window.is_none());
    app.serial_counter = u32::MAX;
    app.window_event(70, WindowEvent::CursorEntered, &mut out);
    assert_eq!(app.serial_counter, 1);
    out.clear();
    app.window_event(70, WindowEvent::Focused(true), &mut out);
    assert!(!out.is_empty());
    out.clear();
    app.window_event(70, WindowEvent::Focused(true), &mut out);
    assert!(out.is_empty());
}

#[test]
fn gestures_begin_and_end() {
    let mut app = App::new(KeyboardMode::Evdev, 0);
    let mut out = Vec::new();
    app.window_created(WlSurfaceId(7), Presented::Toplevel(None), 70, None, &mut out);
    out.clear();
    let zero = F64 { bits: 0 };
    let pinch = |phase| WindowEvent::PinchGesture { phase, scale: zero, told: zero };
    let turn = |phase| WindowEvent::RotationGesture { phase, rotation: zero, told: zero };
    app.window_event(70, pinch(TouchPhase::Started), &mut out);
    app.window_event(70, turn(TouchPhase::Started), &mut out);
    app.window_event(70, pinch(TouchPhase::Ended), &mut out);
    app.window_event(70, turn(TouchPhase::Ended), &mut out);
    assert_eq!(out.len(), 2);
    assert!(matches!(
        &out[0],
        Action::Plain(PlainAction::Gesture(PointerGestureEvent::PinchBegin { fingers: 2, .. }))
    ));
    assert!(matches!(
        &out[1],
        Action::Plain(PlainAction::Gesture(PointerGestureEvent::PinchEnd {
            cancelled: false,
            ..
        }))
    ));
    assert!(app.pinch_state.is_empty());
}

#[test]
fn keyboards_go_to_the_root() {
    let mut popups = SortedMap::new();
    popups.insert(2u64, popup(1, false));
    popups.insert(3u64, popup(2, false));
    assert!(has_focus_target(&popups, WlSurfaceId(3)));
    assert_eq!(keyboard_focus_target_for(&popups, WlSurfaceId(3)), WlSurfaceId(1));
    assert_eq!(keyboard_focus_target_for(&popups, WlSurfaceId(9)), WlSurfaceId(9));
    popups.insert(1u64, popup(3, false));
    assert!(!has_focus_target(&popups, WlSurfaceId(3)));
    let mut far = popup(1, false);
    far.positioner.offset.x = i32::MAX;
    assert!(request_fits(&commit(surface(4, Some(Role::XdgPopup(far))))));
    far.positioner.anchor_rect.loc.x = 1;
    assert!(!request_fits(&commit(surface(4, Some(Role::XdgPopup(far))))));
}

#[test]
fn resolved_backends_are_built() {
    let host = HostSupport { compositor: Compositor::Absent, winit_wgpu: true };
    let backend = resolve_client_backend(ClientBackend::Auto, host).unwrap();
    assert!(build_client_backend(backend, true, true).is_ok());
}

#[test]
fn rdp_selection_is_for_good() {
    let mut display = Display::new();
    for id in [4, 5] {
        let msg = RecvType::Object(Request::Surface(commit(toplevel(id))));
        assert!(display.handle_message(msg).is_none());
    }
    assert_eq!(display.selected_surface, Some(WlSurfaceId(4)));
    let mut handler = InputHandler::new();
    assert!(handler.mouse(RdpMouseEvent::LeftPressed).is_none());
}

#[test]
fn swapped_rows_swap_back() {
    let bytes = vec![1, 2, 3, 4, 5, 6, 7, 8];
    let once = swap_rows(&bytes, 4, 1, 2);
    assert_eq!(once, vec![3, 2, 1, 4, 7, 6, 5, 8]);
    assert_eq!(swap_rows(&once, 4, 1, 2), bytes);
}

#[test]
fn full_pictures_can_be_drawn() {
    let screen = ScreenSize { rows: 7, cols: 5, xpixel: 0, ypixel: 0 };
    let rgba = vec![9u8; 3 * 2 * 4];
    assert!(can_draw(screen, &rgba, 3, 2));
    assert!(render_rgba(screen, &rgba, 3, 2).is_some());
    assert!(!can_draw(screen, &rgba, 30, 20));
    assert!(!can_draw(screen, &rgba, usize::MAX, 2));
    assert!(can_draw(screen, &[], 0, 2));
}

#[test]
fn converted_packets_keep_their_units() {
    let mut packet = vec![];
    let mut wanted = vec![];
    for unit in [vec![1u8; 3], vec![2u8; 300], vec![3u8]] {
        packet.extend_from_slice(&(unit.len() as u16).to_be_bytes());
        packet.extend_from_slice(&unit);
        wanted.extend_from_slice(&[0, 0, 0, 1]);
        wanted.extend_from_slice(&unit);
    }
    assert_eq!(avcc_packet_to_annexb(&packet, 2).unwrap(), wanted);
}

#[test]
fn forwarded_endpoints_are_local() {
    let endpoint = Endpoint::parse("ssh://h?remote=tcp://9.9.9.9:9").unwrap();
    let (local, _) = setup_client_transport(endpoint, SystemFamily::Unix, Scratch::Port(1)).unwrap();
    assert!(local.warn_if_non_loopback("x").is_none());
}

#[test]
fn surface_numbers_are_read_back() {
    let mut bytes = Vec::new();
    WlSurfaceId(0x0102_0304_0506_0708).framed_write(&mut bytes).unwrap();
    assert_eq!(bytes, vec![1, 2, 3, 4, 5, 6, 7, 8]);
    let (id, end) = WlSurfaceId::framed_read(&bytes, 0).unwrap();
    assert_eq!((id, end), (WlSurfaceId(0x0102_0304_0506_0708), 8));
    assert_eq!(
        WlSurfaceId::framed_read(&bytes, 1).unwrap_err().display_message(),
        "failed to fill whole buffer"
    );
    let header = RawBufferHeader { version: 2, kind: RawBufferKind::Jpeg, surface: None };
    assert_eq!(
        header.framed_write(&mut bytes).unwrap_err().display_message(),
        "invalid argument: RawBufferHeader v2 requires surface"
    );
    assert_eq!(
        RawBufferHeader::framed_read(&[1, 9], 0).unwrap_err().display_message(),
        "invalid argument: invalid RawBufferKind 9"
    );
}

#[test]
fn integers_are_doubles() {
    for n in [0, 1, -1, 3, 120, i32::MAX, i32::MIN] {
        assert_eq!(f64::from_bits(F64::from_i32(n).bits), f64::from(n));
    }
    let zero = F64 { bits: 0.0f64.to_bits() };
    let minus_zero = F64 { bits: (-0.0f64).to_bits() };
    let nan = F64 { bits: f64::NAN.to_bits() };
    assert!(zero.same(&minus_zero));
    assert!(!nan.same(&nan));
}

#[test]
fn changed_pixels_are_uploaded() {
    let mut entry = SurfaceEntry {
        id: WlSurfaceId(1),
        metadata: BufferMetadata { width: 1, height: 1, stride: 8, format: BufferFormat::Argb8888 },
        data: vec![1, 2, 3, 4, 0, 0, 0, 0],
        dirty: true,
    };
    let same = Some(Size { w: 1, h: 1 });
    assert!(matches!(plan_upload(&entry, same), Upload::Update(p) if p == vec![1, 2, 3, 4]));
    let other = Some(Size { w: 2, h: 1 });
    assert!(matches!(plan_upload(&entry, other), Upload::Import(_)));
    assert!(matches!(plan_upload(&entry, None), Upload::Import(_)));
    entry.dirty = false;
    assert!(matches!(plan_upload(&entry, None), Upload::Nothing));
}

#[test]
fn keymaps_are_asked_for_once() {
    let asked = |actions: &[Action]| {
        actions.iter().filter(|a| matches!(a, Action::Plain(PlainAction::LoadKeymap))).count()
    };
    let mut app = App::new(KeyboardMode::Keymap, 0);
    let mut out = Vec::new();
    app.resumed(1, &mut out);
    assert_eq!(asked(&out), 1);
    app.resumed(2, &mut out);
    app.window_event(5, WindowEvent::Focused(true), &mut out);
    assert_eq!(asked(&out), 1);
    app.maybe_send_keymap(&mut out);
    assert_eq!(asked(&out), 1);
    let mut other = App::new(KeyboardMode::Keymap, 0);
    let mut out = Vec::new();
    other.maybe_send_keymap(&mut out);
    other.maybe_send_keymap(&mut out);
    assert_eq!(asked(&out), 1);
    let mut evdev = App::new(KeyboardMode::Evdev, 0);
    let mut out = Vec::new();
    evdev.resumed(1, &mut out);
    assert_eq!(asked(&out), 0);
    assert!(matches!(
        keymap_message(Some("k".to_string())),
        Some(Event::KeyboardEvent(KeyboardEvent::Keymap(text))) if text == "k"
    ));
    assert!(keymap_message(None).is_none());
}

#[test]
fn drawn_surfaces_are_not_drawn_again() {
    let mut state = CompositorState::new(KeyboardMode::Evdev, Size { w: 100, h: 100 });
    let mut shown = surface(3, None);
    shown.bitmap = Some(BitmapAssignment::New(Bitmap {
        metadata: BufferMetadata { width: 1, height: 1, stride: 4, format: BufferFormat::Argb8888 },
        data: BufferPoolHandle::from_bytes(vec![1, 2, 3, 4]),
    }));
    assert!(state.can_apply(&shown));
    assert!(state.apply_client_updates(&vec![shown], &vec![]));
    let entry = state.surfaces.get(3).unwrap();
    assert!(can_upload(entry));
    assert!(matches!(plan_upload(entry, None), Upload::Import(pixels) if pixels == [1, 2, 3, 4]));
    state.uploaded(WlSurfaceId(3));
    assert!(matches!(plan_upload(state.surfaces.get(3).unwrap(), None), Upload::Nothing));
}
