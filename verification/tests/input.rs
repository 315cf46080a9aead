use wprs::client::backends::smithay_client::compositor::{
    event_for, CompositorState, Hit, InputEvent, Message,
};
use wprs::client::backends::winit_wgpu::app::{App, CursorPlan, ServerStep};
use wprs::client::backends::winit_wgpu::events::{message_for, toplevel_configure, WindowEvent};
use wprs::client::backends::winit_wgpu::input::{
    cursor_icon_for_resize, cursor_icon_from_wayland_name, hit_test_decorationless_resize,
    linux_button_from_winit, linux_keycode_from_winit, MouseButton, ResizeDirection,
};
use wprs::client::backends::winit_wgpu::model::{Action, PlainAction};
use wprs::client::backends::winit_wgpu::outputs::{
    can_be_enlarged, output_info_from_monitor, refresh_outputs, Monitor,
};
use wprs::client::backends::winit_wgpu::popups::popup_position;
use wprs::client::backends::winit_wgpu::surfaces::Presented;
use wprs::client::config::KeyboardMode;
use wprs::models::surface::{
    Buffer, BufferAssignment, BufferData, BufferFormat, BufferMetadata, Role, SurfaceState,
    UncompressedBufferData, WlSurfaceId,
};
use wprs::protocols::rdp::{
    linux_keycode_from_rdp_scancode, parse_security, Display, InputHandler, RdpKeyboardEvent,
    RdpMouseEvent, Security,
};
use wprs::protocols::wprs::geometry::{Point, Size};
use wprs::protocols::wprs::serializer::RecvType;
use wprs::protocols::wprs::types::{ClientId, DisplayConfig, Event, Request};
use wprs::protocols::wprs::wayland::{
    CursorImage, CursorImageStatus, KeyState, KeyboardEvent, OutputEvent, PointerEventKind,
    SurfaceRequest, SurfaceRequestPayload,
};
use wprs::protocols::wprs::xdg_shell::{ToplevelEvent, XdgToplevelId, XdgToplevelState};
use wprs::utils::filtering::filter;
use wprs::utils::ieee::F64;

fn float(x: f64) -> F64 {
    F64 { bits: x.to_bits() }
}

fn at(x: f64, y: f64) -> Point<F64> {
    Point { x: float(x), y: float(y) }
}

fn window(id: u64) -> SurfaceState {
    SurfaceState {
        client: ClientId(1),
        id: WlSurfaceId(id),
        buffer: None,
        buffer_update: None,
        bitmap: None,
        bitmap_update: None,
        role: Some(Role::XdgToplevel(XdgToplevelState {
            id: XdgToplevelId(id),
            parent: None,
            title: Some("t".to_string()),
            app_id: None,
            decoration_mode: None,
            maximized: None,
            fullscreen: None,
        })),
        buffer_scale: 1,
        buffer_transform: None,
        opaque_region: None,
        input_region: None,
        z_ordered_children: Vec::new(),
        damage: None,
        output_ids: Vec::new(),
        viewport_state: None,
        xdg_surface_state: None,
    }
}

fn request(state: SurfaceState) -> SurfaceRequest {
    SurfaceRequest {
        client: state.client,
        surface: state.id,
        payload: SurfaceRequestPayload::Commit(state),
    }
}

/// An app with window 70 for surface 7.
fn app_with_window() -> App {
    let mut app = App::new(KeyboardMode::Keymap, 0);
    let mut out = Vec::new();
    let pending = app.begin_surface(request(window(7)), false, &mut out).unwrap();
    let spec = pending.window.as_ref().unwrap();
    assert_eq!(spec.title, Some("t".to_string()));
    app.window_created(WlSurfaceId(7), Presented::Toplevel(None), 70, None, &mut out);
    app.finish_surface(pending, &mut out);
    app
}

#[test]
fn keys_and_buttons_have_codes() {
    assert_eq!(linux_keycode_from_winit("KeyA"), Some(30));
    assert_eq!(linux_keycode_from_winit("Escape"), Some(1));
    assert_eq!(linux_keycode_from_winit("Nonsense"), None);
    assert_ne!(linux_keycode_from_winit("Enter"), linux_keycode_from_winit("NumpadEnter"));
    assert_eq!(linux_button_from_winit(MouseButton::Left), Some(0x110));
    assert_eq!(linux_button_from_winit(MouseButton::Right), Some(0x111));
}

#[test]
fn edges_resize_windows() {
    assert_eq!(
        hit_test_decorationless_resize(true, false, true, false),
        Some(ResizeDirection::NorthWest)
    );
    assert_eq!(hit_test_decorationless_resize(false, false, false, false), None);
    assert_eq!(cursor_icon_for_resize(ResizeDirection::NorthWest), "nwse-resize");
}

#[test]
fn cursors_are_found_by_name() {
    let find = |name: &str| cursor_icon_from_wayland_name(name);
    assert_eq!(find("Pointer"), Some("pointer".to_string()));
    assert_eq!(find("left_ptr"), Some("default".to_string()));
    assert_eq!(find("ns_resize"), Some("ns-resize".to_string()));
    assert_eq!(find("no such cursor"), None);
}

#[test]
fn pointers_enter_before_they_move() {
    let mut app = app_with_window();
    let mut out = Vec::new();
    app.window_event(
        70,
        WindowEvent::CursorMoved {
            physical: at(1.0, 2.0),
            window: at(1.0, 2.0),
            remote: at(3.0, 4.0),
            edge: None,
        },
        &mut out,
    );
    let kinds: Vec<PointerEventKind> = out
        .iter()
        .filter_map(|action| match action {
            Action::Plain(PlainAction::Pointer(event)) => Some(event.kind),
            _ => None,
        })
        .collect();
    assert!(matches!(kinds[0], PointerEventKind::Enter { .. }));
    assert!(matches!(kinds[1], PointerEventKind::Motion));
    assert!(app.pointer_inside.contains(&70));
    out.clear();
    app.window_event(70, WindowEvent::CursorLeft, &mut out);
    assert!(!app.pointer_inside.contains(&70));
}

#[test]
fn focused_windows_get_keys() {
    let mut app = app_with_window();
    let mut out = Vec::new();
    app.window_event(70, WindowEvent::Focused(true), &mut out);
    assert_eq!(app.focused_surface, Some(WlSurfaceId(7)));
    out.clear();
    app.window_event(
        70,
        WindowEvent::KeyboardInput { key: Some("KeyA".to_string()), pressed: true, repeat: false },
        &mut out,
    );
    let key = out
        .iter()
        .find_map(|action| match action {
            Action::Plain(PlainAction::Key(key)) => Some(*key),
            _ => None,
        })
        .unwrap();
    assert_eq!(key.raw_code, 30);
    assert_eq!(key.state, KeyState::Pressed);
    assert_ne!(key.serial, 0);
    let event = message_for(Action::Plain(PlainAction::Key(key))).unwrap();
    assert!(matches!(event, Event::KeyboardEvent(KeyboardEvent::Key(_))));
}

#[test]
fn destroyed_surfaces_lose_their_windows() {
    let mut app = app_with_window();
    let mut out = Vec::new();
    let gone = SurfaceRequest {
        client: ClientId(1),
        surface: WlSurfaceId(7),
        payload: SurfaceRequestPayload::Destroyed,
    };
    assert!(app.begin_surface(gone, false, &mut out).is_none());
    assert!(app.windows.is_empty());
    assert!(out
        .iter()
        .any(|action| matches!(action, Action::Plain(PlainAction::DropWindow { .. }))));
}

#[test]
fn server_messages_are_sorted() {
    let mut app = App::new(KeyboardMode::Keymap, 0);
    let msg = RecvType::Object(Request::DisplayConfig(DisplayConfig {
        scale_factor: 2,
        dpi: None,
    }));
    assert!(matches!(app.handle_server_message(msg), ServerStep::Nothing));
    assert!(app.server_display_config.is_some());
    let hidden = CursorImage { serial: 1, status: CursorImageStatus::Hidden };
    assert!(matches!(app.plan_cursor(&hidden), CursorPlan::Hide));
    let named = CursorImage {
        serial: 1,
        status: CursorImageStatus::Named("hand2".to_string()),
    };
    assert!(matches!(app.plan_cursor(&named), CursorPlan::Named(name) if name == "pointer"));
    let msg = RecvType::Object(Request::Surface(request(window(1))));
    assert!(matches!(app.handle_server_message(msg), ServerStep::Surface(_)));
}

#[test]
fn configures_tell_sizes() {
    let Event::Toplevel(ToplevelEvent::Configure(configure)) =
        toplevel_configure(WlSurfaceId(7), 30, 40)
    else {
        panic!("no configure");
    };
    assert_eq!(configure.surface_id, WlSurfaceId(7));
    assert_eq!(configure.new_size, Size { w: Some(30), h: Some(40) });
    assert_eq!(popup_position(Point { x: 1, y: 2 }, 3, -4), Point { x: 4, y: -2 });
}

#[test]
fn outputs_are_brought_up_to_date() {
    let monitor = Monitor {
        name: Some("m".to_string()),
        scale_factor: 1,
        position: Point { x: 0, y: 0 },
        width: 100,
        height: 50,
    };
    let one = output_info_from_monitor(0, &monitor, 1);
    assert_eq!(one.scale_factor, 1);
    assert_eq!(one.mode.dimensions, Size { w: 100, h: 50 });
    let enlarged = output_info_from_monitor(0, &monitor, 2);
    assert_eq!(enlarged.scale_factor, 2);
    assert_eq!(enlarged.mode.dimensions, Size { w: 200, h: 100 });
    assert!(can_be_enlarged(&monitor, 1000));
    assert!(!can_be_enlarged(&monitor, 2_000_000_000));
    let current = vec![output_info_from_monitor(0, &monitor, 1)];
    let events = refresh_outputs(&vec![], &current, false);
    assert!(matches!(events.as_slice(), [OutputEvent::New(_)]));
    let same = vec![output_info_from_monitor(0, &monitor, 1)];
    assert!(refresh_outputs(&current, &same, false).is_empty());
    let gone = refresh_outputs(&current, &vec![], false);
    assert!(matches!(gone.as_slice(), [OutputEvent::Destroy(_)]));
}

#[test]
fn compositor_hits_surfaces() {
    let mut state = CompositorState::new(KeyboardMode::Keymap, Size { w: 100, h: 100 });
    let mut out = Vec::new();
    let hit = Hit { surface_id: WlSurfaceId(3), position: at(1.0, 1.0) };
    state.handle_input(
        InputEvent::PointerMotion { at: at(5.0, 5.0), hit: Some(hit), left: at(0.0, 0.0) },
        &mut out,
    );
    assert_eq!(state.hovered_surface, Some(WlSurfaceId(3)));
    assert!(matches!(
        &out[0],
        Message::Pointer(event) if matches!(event.kind, PointerEventKind::Enter { .. })
    ));
    out.clear();
    state.handle_input(
        InputEvent::PointerButton { button: 0x110, pressed: true, hit: Some(hit) },
        &mut out,
    );
    assert_eq!(state.focused_surface, Some(WlSurfaceId(3)));
    let told: Vec<Event> = out.into_iter().filter_map(event_for).collect();
    assert!(told
        .iter()
        .any(|event| matches!(event, Event::KeyboardEvent(KeyboardEvent::Enter { .. }))));
}

#[test]
fn rdp_input_becomes_events() {
    assert_eq!(linux_keycode_from_rdp_scancode(0x1e, false), Some(30));
    let mut handler = InputHandler::new();
    assert!(handler.mouse(RdpMouseEvent::Move { x: 1, y: 2 }).is_none());
    handler.selected_surface = Some(WlSurfaceId(4));
    let Some(Event::PointerFrame(frame)) = handler.mouse(RdpMouseEvent::Move { x: 1, y: 2 }) else {
        panic!("no frame");
    };
    assert!(matches!(frame[0].kind, PointerEventKind::Enter { .. }));
    assert_eq!(f64::from_bits(frame[0].position.x.bits), 1.0);
    let key = handler.keyboard(RdpKeyboardEvent::Pressed { code: 0x1e, extended: false });
    assert!(matches!(key, Some(Event::KeyboardEvent(KeyboardEvent::Key(_)))));
}

#[test]
fn rdp_displays_show_the_first_window() {
    let mut display = Display::new();
    let metadata =
        BufferMetadata { width: 2, height: 1, stride: 8, format: BufferFormat::Xrgb8888 };
    let mut state = window(4);
    state.buffer = Some(BufferAssignment::New(Buffer {
        metadata,
        data: BufferData::Uncompressed(UncompressedBufferData::from_pixels(filter(&[
            1, 2, 3, 4, 5, 6, 7, 8,
        ]))),
    }));
    let msg = RecvType::Object(Request::Surface(request(state)));
    assert!(display.can_show(&msg));
    let update = display.handle_message(msg).unwrap();
    assert!(update.resize.is_some());
    assert_eq!((update.bitmap.width, update.bitmap.height), (2, 1));
    assert_eq!(update.bitmap.data, vec![1, 2, 3, 255, 5, 6, 7, 255]);
    assert_eq!(parse_security("tls").unwrap(), Security::Tls);
    assert_eq!(
        parse_security("x").unwrap_err().display_message(),
        "invalid --security \"x\" (expected: none|tls)"
    );
}
