use wprs::client::backends::html::{
    align_up, encode_surface_bgra, surface_destroyed_json, HtmlPresenter, WireMessage,
};
use wprs::client::backends::selected_window::{
    bgra_to_rgba_in_place, SelectedWindow, WindowPixels,
};
use wprs::client::backends::sgr_pixels;
use wprs::client::backends::smithay_client::layout::{arrange, can_arrange, SurfaceSize};
use wprs::client::backends::smithay_client::surfaces::{apply_patch, pack_buffer, SurfaceEntry};
use wprs::client::backends::terminal::{
    bitmap_to_rgba, encode_rgba_png, render_rgba, usable_size, Picture, ScreenSize,
    TerminalPresenter,
};
use wprs::client::backends::termwiz_image::window_image;
use wprs::client::backends::winit_wgpu::frames::{
    bgra_padded_to_rgba, buffer_has_rows, decode_filtered_to_padded_bgra,
};
use wprs::client::state::SurfaceDelta;
use wprs::models::surface::{
    Bitmap, BitmapAssignment, Buffer, BufferAssignment, BufferData, BufferFormat, BufferMetadata,
    BufferPoolHandle, ClientSurface, Role, SurfaceState, UncompressedBufferData, WlSurfaceId,
};
use wprs::protocols::wprs::frame_codecs::decode_png_to_bgra;
use wprs::protocols::wprs::serializer::RecvType;
use wprs::protocols::wprs::types::{ClientId, Request};
use wprs::protocols::wprs::wayland::{SurfaceRequest, SurfaceRequestPayload};
use wprs::protocols::wprs::xdg_shell::{XdgToplevelId, XdgToplevelState};
use wprs::utils::filtering::filter;

fn metadata(width: i32, height: i32, stride: i32) -> BufferMetadata {
    BufferMetadata { width, height, stride, format: BufferFormat::Argb8888 }
}

fn window(id: u64, title: Option<&str>) -> SurfaceState {
    SurfaceState {
        client: ClientId(1),
        id: WlSurfaceId(id),
        buffer: None,
        buffer_update: None,
        bitmap: None,
        bitmap_update: None,
        role: Some(Role::XdgToplevel(XdgToplevelState {
            id: XdgToplevelId(id),
            parent: None,
            title: title.map(|t| t.to_string()),
            app_id: None,
            decoration_mode: None,
            maximized: None,
            fullscreen: None,
        })),
        buffer_scale: 1,
        buffer_transform: None,
        opaque_region: None,
        input_region: None,
        z_ordered_children: Vec::new(),
        damage: None,
        output_ids: Vec::new(),
        viewport_state: None,
        xdg_surface_state: None,
    }
}

fn with_bitmap(mut state: SurfaceState, meta: BufferMetadata, data: Vec<u8>) -> SurfaceState {
    state.bitmap = Some(BitmapAssignment::New(Bitmap {
        metadata: meta,
        data: BufferPoolHandle::from_bytes(data),
    }));
    state
}

fn screen(cols: usize, rows: usize) -> ScreenSize {
    ScreenSize { rows, cols, xpixel: 0, ypixel: 0 }
}

#[test]
fn rows_are_aligned() {
    assert_eq!(align_up(0, 256), 0);
    assert_eq!(align_up(1, 256), 256);
    assert_eq!(align_up(256, 256), 256);
    assert_eq!(align_up(7, 0), 7);
    assert_eq!(align_up(usize::MAX, 2), usize::MAX - 1);
}

#[test]
fn frames_for_browsers() {
    let state = with_bitmap(window(1, None), metadata(1, 2, 8), (0..16).collect());
    let frame = encode_surface_bgra(&state).unwrap();
    assert_eq!((frame.width, frame.height, frame.stride), (1, 2, 256));
    assert_eq!(frame.bgra.len(), 512);
    assert_eq!(&frame.bgra[0..5], &[0, 1, 2, 3, 0]);
    assert_eq!(&frame.bgra[256..261], &[8, 9, 10, 11, 0]);
    let aligned = with_bitmap(window(1, None), metadata(1, 1, 256), vec![7; 300]);
    let frame = encode_surface_bgra(&aligned).unwrap();
    assert_eq!(frame.bgra, vec![7; 256]);
    assert!(encode_surface_bgra(&window(1, None)).is_none());
    let short = with_bitmap(window(1, None), metadata(1, 2, 8), vec![0; 15]);
    assert!(encode_surface_bgra(&short).is_none());
    let thin = with_bitmap(window(1, None), metadata(3, 1, 8), vec![0; 16]);
    assert!(encode_surface_bgra(&thin).is_none());
}

#[test]
fn browsers_hear_of_windows() {
    let mut presenter = HtmlPresenter::new();
    let first = SurfaceDelta {
        updated: vec![with_bitmap(window(2, Some("a")), metadata(1, 1, 4), vec![1, 2, 3, 4])],
        removed: vec![],
    };
    let messages = presenter.apply_updates(&first);
    assert_eq!(messages.len(), 2);
    let WireMessage::Text(text) = &messages[0] else {
        panic!("no text");
    };
    assert_eq!(text, "{\"id\":\"2\",\"title\":\"a\",\"type\":\"surface\"}");
    assert!(matches!(&messages[1], WireMessage::Binary(bytes) if bytes[0] == 1));
    let second = SurfaceDelta { updated: vec![window(2, Some("a"))], removed: vec![] };
    assert_eq!(presenter.apply_updates(&second).len(), 0);
    assert_eq!(
        presenter.snapshot_messages(),
        vec!["{\"id\":\"2\",\"title\":\"a\",\"type\":\"surface\"}".to_string()]
    );
    let gone = SurfaceDelta {
        updated: vec![],
        removed: vec![ClientSurface { client: ClientId(1), surface: WlSurfaceId(2) }],
    };
    let messages = presenter.apply_updates(&gone);
    let WireMessage::Text(text) = &messages[0] else {
        panic!("no text");
    };
    assert_eq!(*text, surface_destroyed_json(WlSurfaceId(2)));
    assert_eq!(text, "{\"id\":\"2\",\"type\":\"surface_destroyed\"}");
    assert!(presenter.snapshot_messages().is_empty());
}

#[test]
fn terminals_must_have_a_size() {
    assert_eq!(usable_size(screen(2, 1)).unwrap(), screen(2, 1));
    assert_eq!(
        usable_size(screen(0, 1)).unwrap_err().display_message(),
        "invalid argument: terminal reported zero size"
    );
    assert_eq!(
        sgr_pixels::usable_size(screen(1, 0)).unwrap_err().display_message(),
        "terminal reported zero size"
    );
}

#[test]
fn terminal_shows_the_first_window() {
    let mut presenter = TerminalPresenter::new();
    let mut xrgb = metadata(1, 2, 8);
    xrgb.format = BufferFormat::Xrgb8888;
    let state = with_bitmap(window(5, None), xrgb, (0..16).collect());
    assert!(presenter.surface_is_sound(&state));
    let picture = presenter.apply_surface(&state).unwrap().unwrap();
    assert_eq!(picture.rgba, vec![2, 1, 0, 255, 10, 9, 8, 255]);
    assert_eq!(presenter.selected_size, Some((1, 2)));
    let other = with_bitmap(window(6, None), metadata(1, 1, 4), vec![0; 4]);
    assert!(presenter.apply_surface(&other).unwrap().is_none());
    assert_eq!(presenter.selected_surface, Some(WlSurfaceId(5)));
    let thin = with_bitmap(window(5, None), metadata(3, 1, 8), vec![0; 8]);
    assert_eq!(
        presenter.apply_surface(&thin).unwrap_err().display_message(),
        "invalid argument: bitmap stride too small"
    );
    let short = with_bitmap(window(5, None), metadata(1, 2, 8), vec![0; 8]);
    assert!(presenter.apply_surface(&short).unwrap().is_none());
    let odd = with_bitmap(window(5, None), metadata(1, -1, -4), vec![0; 8]);
    assert!(!presenter.surface_is_sound(&odd));
}

#[test]
fn terminal_pictures_become_files() {
    let picture = Picture { rgba: vec![1, 2, 3, 4], width: 1, height: 1 };
    let file = render_rgba(screen(9, 9), &picture).unwrap().unwrap();
    assert_eq!(decode_png_to_bgra(&file).unwrap(), (1, 1, vec![3, 2, 1, 4]));
    assert!(render_rgba(screen(0, 9), &picture).unwrap().is_none());
    assert_eq!(
        encode_rgba_png(&[1], 1, 1).unwrap_err().display_message(),
        "invalid argument: rgba buffer size mismatch"
    );
    let bitmap = Bitmap {
        metadata: metadata(1, 2, 4),
        data: BufferPoolHandle::from_bytes(vec![0; 4]),
    };
    assert_eq!(
        bitmap_to_rgba(&bitmap, BufferFormat::Argb8888).unwrap_err().display_message(),
        "invalid argument: bitmap data too short"
    );
}

fn commit(state: SurfaceState) -> RecvType<Request> {
    RecvType::Object(Request::Surface(SurfaceRequest {
        client: ClientId(1),
        surface: state.id,
        payload: SurfaceRequestPayload::Commit(state),
    }))
}

fn with_buffer(mut state: SurfaceState, meta: BufferMetadata, bgra: &[u8]) -> SurfaceState {
    state.buffer = Some(BufferAssignment::New(Buffer {
        metadata: meta,
        data: BufferData::Uncompressed(UncompressedBufferData::from_pixels(filter(bgra))),
    }));
    state
}

#[test]
fn selected_windows_are_shown() {
    let mut selected = SelectedWindow::new();
    let msg = commit(with_buffer(window(4, None), metadata(1, 1, 4), &[1, 2, 3, 4]));
    assert!(selected.message_has_size(&msg));
    let pixels = selected.handle_message(msg).unwrap();
    assert_eq!(pixels.rgba, vec![3, 2, 1, 4]);
    let other = commit(with_buffer(window(5, None), metadata(1, 1, 4), &[1, 2, 3, 4]));
    assert!(selected.handle_message(other).is_none());
    let file = window_image(&pixels).unwrap();
    assert_eq!(decode_png_to_bgra(&file).unwrap(), (1, 1, vec![1, 2, 3, 4]));
    let negative = commit(with_buffer(window(4, None), metadata(1, -1, 4), &[]));
    assert!(!selected.message_has_size(&negative));
    let hidden = commit(with_buffer(window(5, None), metadata(1, -1, 4), &[]));
    assert!(selected.message_has_size(&hidden));
    let bad = WindowPixels { rgba: vec![], metadata: metadata(-1, 1, 4) };
    assert!(window_image(&bad).is_err());
}

#[test]
fn colours_are_exchanged() {
    let mut bytes = vec![1, 2, 3, 4, 5, 6, 7, 8, 9];
    bgra_to_rgba_in_place(&mut bytes);
    assert_eq!(bytes, vec![3, 2, 1, 4, 7, 6, 5, 8, 9]);
    bgra_to_rgba_in_place(&mut bytes);
    assert_eq!(bytes, vec![1, 2, 3, 4, 5, 6, 7, 8, 9]);
}

#[test]
fn half_blocks_are_drawn() {
    let rgba = [1, 2, 3, 0, 1, 2, 3, 0, 4, 5, 6, 0, 7, 8, 9, 0];
    let text = sgr_pixels::render_rgba(screen(2, 1), &rgba, 2, 2).unwrap();
    assert_eq!(
        text,
        "\x1b[2J\x1b[H\x1b[0m\x1b[38;2;1;2;3m\x1b[48;2;4;5;6m▀\x1b[48;2;7;8;9m▀\x1b[0m"
    );
    let text = sgr_pixels::render_rgba(screen(1, 2), &rgba, 2, 2).unwrap();
    assert_eq!(
        text,
        "\x1b[2J\x1b[H\x1b[0m\x1b[38;2;1;2;3m\x1b[48;2;1;2;3m▀\x1b[0m\n\x1b[38;2;4;5;6m\x1b[48;2;4;5;6m▀\x1b[0m"
    );
    assert!(sgr_pixels::render_rgba(screen(0, 2), &rgba, 2, 2).is_none());
}

#[test]
fn surfaces_are_laid_out_in_rows() {
    let size = |id, width, height| SurfaceSize { id: WlSurfaceId(id), width, height };
    let sizes = vec![size(1, 40, 10), size(2, 40, 30), size(3, 40, 10)];
    assert!(can_arrange(&sizes, 100));
    let places = arrange(&sizes, 100);
    assert_eq!(places.len(), 3);
    assert_eq!(places[0].rect.loc.y, places[1].rect.loc.y);
    assert!(places[1].rect.loc.x >= places[0].rect.loc.x + 40);
    assert!(places[2].rect.loc.y >= places[1].rect.loc.y + 30);
    assert_eq!(places[2].rect.loc.x, 0);
    let tall = vec![size(1, 40, i32::MAX), size(2, 40, 30)];
    assert!(can_arrange(&tall, 100));
    assert!(!can_arrange(&tall, 50));
}

#[test]
fn patches_change_their_part() {
    let entry = SurfaceEntry {
        id: WlSurfaceId(1),
        metadata: metadata(2, 2, 8),
        data: vec![0; 16],
        dirty: false,
    };
    let entry = apply_patch(entry, 1, 1, 1, 1, 4, &[1, 2, 3, 4]);
    assert_eq!(entry.data, vec![0, 0, 0, 0, 0, 0, 0, 0, 0, 0, 0, 0, 1, 2, 3, 4]);
    assert_eq!(
        pack_buffer(&metadata(1, 2, 8), &entry.data),
        vec![0, 0, 0, 0, 0, 0, 0, 0]
    );
}

#[test]
fn frames_are_padded_for_the_gpu() {
    let meta = metadata(1, 2, 4);
    assert!(buffer_has_rows(&meta));
    let (row, padded) = decode_filtered_to_padded_bgra(&meta, &filter(&[1, 2, 3, 4, 5, 6, 7, 8]));
    assert_eq!(row, 256);
    assert_eq!(padded.len(), 512);
    assert_eq!(&padded[0..4], &[1, 2, 3, 4]);
    assert_eq!(&padded[256..260], &[5, 6, 7, 8]);
    let cursor = bgra_padded_to_rgba(&meta, row, &padded).unwrap();
    assert_eq!((cursor.width, cursor.height), (1, 2));
    assert_eq!(cursor.rgba, vec![3, 2, 1, 4, 7, 6, 5, 8]);
    let flat = metadata(1, 0, -4);
    assert!(buffer_has_rows(&flat));
    assert_eq!(decode_filtered_to_padded_bgra(&flat, &filter(&[1, 2, 3, 4])), (256, vec![]));
    assert!(!buffer_has_rows(&metadata(1, 1, -4)));
    assert!(!buffer_has_rows(&metadata(2, 1, 4)));
}
