use wprs::client::state::ClientState;
use wprs::client::window_manager::WindowManager;
use wprs::models::surface::{
    Bitmap, BitmapAssignment, BufferFormat, BufferMetadata, BufferPoolHandle, ClientSurface, Role,
    SurfaceState, WlSurfaceId,
};
use wprs::protocols::wprs::handshake::{initial_messages, surface_messages};
use wprs::protocols::wprs::serializer::{new_inproc_serializer_pair, RecvType, SendType};
use wprs::protocols::wprs::types::{Capabilities, ClientId, DisplayConfig, Event, Request};
use wprs::protocols::wprs::wayland::{SurfaceRequest, SurfaceRequestPayload};
use wprs::protocols::wprs::xdg_shell::{XdgToplevelId, XdgToplevelState};

fn dummy_surface_state(id: u64) -> SurfaceState {
    SurfaceState {
        client: ClientId(1),
        id: WlSurfaceId(id),
        buffer: None,
        buffer_update: None,
        bitmap: None,
        bitmap_update: None,
        role: None,
        buffer_scale: 1,
        buffer_transform: None,
        opaque_region: None,
        input_region: None,
        z_ordered_children: Vec::new(),
        damage: None,
        output_ids: Vec::new(),
        viewport_state: None,
        xdg_surface_state: None,
    }
}

fn make_state(id: u64, title: Option<&str>) -> SurfaceState {
    let mut state = dummy_surface_state(id);
    state.role = Some(Role::XdgToplevel(XdgToplevelState {
        id: XdgToplevelId(id),
        parent: None,
        title: title.map(|t| t.to_string()),
        app_id: None,
        decoration_mode: None,
        maximized: None,
        fullscreen: None,
    }));
    state
}

#[test]
fn server_to_client_surface_commit_updates_state() {
    let mut pair = new_inproc_serializer_pair::<Request, Event>();

    let surface_id = WlSurfaceId(99);
    let bitmap = Bitmap {
        metadata: BufferMetadata {
            width: 2,
            height: 1,
            stride: 8,
            format: BufferFormat::Argb8888,
        },
        data: BufferPoolHandle::from_bytes(vec![1, 2, 3, 4, 0, 0, 0, 0]),
    };
    let mut state = dummy_surface_state(99);
    state.bitmap = Some(BitmapAssignment::New(bitmap));
    let request = Request::Surface(SurfaceRequest {
        client: ClientId(1),
        surface: surface_id,
        payload: SurfaceRequestPayload::Commit(state),
    });

    pair.send_to_b(SendType::Object(request), None);

    let msg = pair.recv_b().expect("recv message");
    let RecvType::Object(request) = msg else {
        panic!("unexpected recv type");
    };

    let mut client_state = ClientState::new();
    assert!(client_state.apply_request(request));
    let delta = client_state.drain_surface_updates();
    assert_eq!(delta.updated.len(), 1);
    assert_eq!(delta.updated[0].id, surface_id);
}

#[test]
fn upserts_window_without_title() {
    let mut manager = WindowManager::new();
    let state = make_state(42, None);
    let delta = manager.apply_surface_updates(&[state], &[]);
    assert_eq!(delta.upserts.len(), 1);
    assert_eq!(delta.upserts[0].id, WlSurfaceId(42));
}

#[test]
fn surface_messages_send_only_surface_commit() {
    let surface = dummy_surface_state(2);
    let msgs = surface_messages(surface).unwrap();
    assert!(matches!(
        msgs.as_slice(),
        [SendType::Object(Request::Surface(_))]
    ));
}

#[test]
fn initial_messages_include_caps_display_and_commits() {
    let s1 = dummy_surface_state(10);
    let s2 = dummy_surface_state(20);

    let msgs = initial_messages(
        Capabilities { xwayland: false },
        DisplayConfig::default(),
        vec![s1, s2],
    )
    .unwrap();

    assert!(matches!(msgs[0], SendType::Object(Request::Capabilities(_))));
    assert!(matches!(msgs[1], SendType::Object(Request::DisplayConfig(_))));
    assert!(matches!(msgs[2], SendType::Object(Request::Surface(_))));
    assert!(matches!(msgs[3], SendType::Object(Request::Surface(_))));
}

#[test]
fn repeated_update_reports_no_window() {
    let mut manager = WindowManager::new();
    manager.apply_surface_updates(&[make_state(42, Some("a"))], &[]);
    let delta = manager.apply_surface_updates(&[make_state(42, Some("a"))], &[]);
    assert_eq!(delta.upserts.len(), 0);
    let delta = manager.apply_surface_updates(&[make_state(42, Some("b"))], &[]);
    assert_eq!(delta.upserts.len(), 1);
    assert_eq!(delta.upserts[0].display_title(), Some("b"));
    let gone = [ClientSurface { client: ClientId(0), surface: WlSurfaceId(42) }];
    let delta = manager.apply_surface_updates(&[make_state(43, None)], &gone);
    assert_eq!((delta.upserts.len(), delta.removed.len()), (1, 1));
    let delta = manager.apply_surface_updates(&[make_state(43, None)], &gone);
    assert_eq!((delta.upserts.len(), delta.removed.len()), (0, 0));
}
