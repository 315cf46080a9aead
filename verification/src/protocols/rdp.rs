//! A bridge to remote desktop clients: one toplevel is their desktop.
use crate::client::backends::winit_wgpu::input::{linux_button, MouseButton};
use crate::error::Error;
use crate::models::surface::{
    BufferAssignment, BufferData, BufferMetadata, Role, SurfaceState, UncompressedBufferData,
    WlSurfaceId,
};
use crate::models::surface_model::{BufferModel, RoleModel, SurfaceModel};
use crate::protocols::image::pixels::{
    copy_rows, lemma_row_position, make_opaque, padded_rows, rows_within, with_format,
};
use crate::protocols::wprs::geometry::Point;
use crate::protocols::wprs::serializer::RecvType;
use crate::protocols::wprs::types::{Event, Request};
use crate::protocols::wprs::wayland::{
    AxisScroll, AxisSource, KeyInner, KeyState, KeyboardEvent, PointerEvent, PointerEventKind,
    SurfaceRequestPayload,
};
use crate::utils::filtering::{unfilter_to_buffer, unfiltered_buffer};
use crate::utils::ieee::{integer, F64};
use crate::utils::text::{debug_text, owned, quoted, same_text};
use crate::utils::vec4u8::Vec4u8s;
use vstd::prelude::*;

verus! {

/// How the connection to remote desktop clients is protected.
#[derive(Debug, Clone, Copy, PartialEq, Eq, Structural)]
pub enum Security {
    Plain,
    Tls,
}

#[derive(Debug, Clone, Copy, PartialEq, Eq, Structural)]
pub struct DesktopSize {
    pub width: u16,
    pub height: u16,
}

/// A key event of a remote desktop client. Other keyboard events have no meaning here.
#[derive(Debug, Clone, Copy, PartialEq, Eq, Structural)]
pub enum RdpKeyboardEvent {
    Pressed { code: u8, extended: bool },
    Released { code: u8, extended: bool },
    Other,
}

/// A mouse event of a remote desktop client.
#[derive(Debug, Clone, Copy, PartialEq, Eq, Structural)]
pub enum RdpMouseEvent {
    Move { x: u16, y: u16 },
    LeftPressed,
    LeftReleased,
    RightPressed,
    RightReleased,
    MiddlePressed,
    MiddleReleased,
    VerticalScroll { value: i16 },
    Other,
}

/// The evdev code of a scan code.
pub open spec fn linux_keycode(code: u8, extended: bool) -> Option<u32> {
    if !extended {
        Some(code as u32)
    } else if code == 0x1D {
        Some(97)
    } else if code == 0x38 {
        Some(100)
    } else if 0x47 <= code <= 0x49 {
        Some((code - 0x47 + 102) as u32)
    } else if code == 0x4B {
        Some(105)
    } else if code == 0x4D {
        Some(106)
    } else if 0x4F <= code <= 0x53 {
        Some((code - 0x4F + 107) as u32)
    } else {
        None
    }
}

pub fn linux_keycode_from_rdp_scancode(code: u8, extended: bool) -> (r: Option<u32>)
    ensures
        r == linux_keycode(code, extended),
{
    if !extended {
        return Some(code as u32);
    }
    match code {
        0x1D => Some(97),  // right control
        0x38 => Some(100),  // right alt
        0x47 => Some(102),  // home
        0x48 => Some(103),  // up
        0x49 => Some(104),  // page up
        0x4B => Some(105),  // left
        0x4D => Some(106),  // right
        0x4F => Some(107),  // end
        0x50 => Some(108),  // down
        0x51 => Some(109),  // page down
        0x52 => Some(110),  // insert
        0x53 => Some(111),  // delete
        _ => None,
    }
}

/// What the input side of the bridge knows. The selected surface is set by the display side.
pub struct InputHandler {
    pub selected_surface: Option<WlSurfaceId>,
    pub serial: u32,
    pub pointer_entered: bool,
    pub last_pointer_pos: (u16, u16),
}

pub open spec fn following(serial: u32) -> u32 {
    if serial == u32::MAX {
        0
    } else {
        (serial + 1) as u32
    }
}

pub open spec fn position_of(x: u16, y: u16) -> Point<F64> {
    Point { x: integer(x as int), y: integer(y as int) }
}

/// The events by which the server learns of a pointer event: the first one of all is preceded by
/// the pointer's entering.
pub open spec fn pointer_frame(
    h: InputHandler,
    kind: PointerEventKind,
    x: u16,
    y: u16,
) -> Option<Seq<PointerEvent>> {
    match h.selected_surface {
        None => None,
        Some(surface_id) => {
            let event = PointerEvent { surface_id, position: position_of(x, y), kind };
            Some(
                if h.pointer_entered {
                    seq![event]
                } else {
                    seq![
                        PointerEvent {
                            kind: PointerEventKind::Enter { serial: h.serial },
                            ..event
                        },
                        event,
                    ]
                },
            )
        },
    }
}

pub open spec fn after_pointer(h: InputHandler) -> InputHandler {
    if h.selected_surface is Some && !h.pointer_entered {
        InputHandler { pointer_entered: true, serial: following(h.serial), ..h }
    } else {
        h
    }
}

pub open spec fn counted(h: InputHandler) -> InputHandler {
    InputHandler { serial: following(h.serial), ..h }
}

/// Whether `event` tells the server of `frame`, or there is neither.
pub open spec fn tells(event: Option<Event>, frame: Option<Seq<PointerEvent>>) -> bool {
    match frame {
        Some(frame) => event matches Some(Event::PointerFrame(events)) && events@ == frame,
        None => event is None,
    }
}

pub open spec fn button_kind(pressed: bool, button: u32, serial: u32) -> PointerEventKind {
    if pressed {
        PointerEventKind::Press { button, serial }
    } else {
        PointerEventKind::Release { button, serial }
    }
}

pub open spec fn sign(n: int) -> int {
    if n < 0 {
        -1
    } else if n > 0 {
        1
    } else {
        0
    }
}

pub open spec fn scroll_kind(value: i16) -> PointerEventKind {
    PointerEventKind::Axis {
        horizontal: AxisScroll { absolute: integer(0), discrete: 0, stop: false },
        vertical: AxisScroll {
            absolute: integer(value as int),
            discrete: sign(value as int) as i32,
            stop: false,
        },
        source: Some(AxisSource::Wheel),
    }
}

/// The button a mouse event is about, and whether it goes down.
pub open spec fn mouse_button(event: RdpMouseEvent) -> Option<(u32, bool)> {
    match event {
        RdpMouseEvent::LeftPressed => Some((272u32, true)),
        RdpMouseEvent::LeftReleased => Some((272u32, false)),
        RdpMouseEvent::RightPressed => Some((273u32, true)),
        RdpMouseEvent::RightReleased => Some((273u32, false)),
        RdpMouseEvent::MiddlePressed => Some((274u32, true)),
        RdpMouseEvent::MiddleReleased => Some((274u32, false)),
        _ => None,
    }
}

pub open spec fn after_mouse(h: InputHandler, event: RdpMouseEvent) -> InputHandler {
    match event {
        RdpMouseEvent::Move { x, y } => after_pointer(
            InputHandler { last_pointer_pos: (x, y), ..h },
        ),
        RdpMouseEvent::VerticalScroll { .. } => if h.selected_surface is Some {
            counted(h)
        } else {
            h
        },
        RdpMouseEvent::Other => h,
        _ => after_pointer(counted(h)),
    }
}

/// What the server is told of a mouse event.
pub open spec fn mouse_frame(h: InputHandler, event: RdpMouseEvent) -> Option<Seq<PointerEvent>> {
    let (x, y) = h.last_pointer_pos;
    match event {
        RdpMouseEvent::Move { x, y } => pointer_frame(h, PointerEventKind::Motion, x, y),
        RdpMouseEvent::VerticalScroll { value } => match h.selected_surface {
            Some(surface_id) => Some(
                seq![
                    PointerEvent {
                        surface_id,
                        position: position_of(x, y),
                        kind: scroll_kind(value),
                    },
                ],
            ),
            None => None,
        },
        RdpMouseEvent::Other => None,
        _ => {
            let (button, pressed) = mouse_button(event)->0;
            pointer_frame(counted(h), button_kind(pressed, button, h.serial), x, y)
        },
    }
}

impl InputHandler {
    pub fn new() -> (r: Self)
        ensures
            r == (InputHandler {
                selected_surface: None,
                serial: 1,
                pointer_entered: false,
                last_pointer_pos: (0, 0),
            }),
    {
        InputHandler {
            selected_surface: None,
            serial: 1,
            pointer_entered: false,
            last_pointer_pos: (0, 0),
        }
    }

    fn next_serial(&mut self) -> (r: u32)
        ensures
            r == old(self).serial,
            *final(self) == counted(*old(self)),
    {
        let serial: u32 = self.serial;
        self.serial = if serial == u32::MAX {
            0
        } else {
            serial + 1
        };
        serial
    }

    fn send_pointer(&mut self, kind: PointerEventKind, x: u16, y: u16) -> (r: Option<Event>)
        ensures
            *final(self) == after_pointer(*old(self)),
            tells(r, pointer_frame(*old(self), kind, x, y)),
    {
        let surface_id = match self.selected_surface {
            Some(surface_id) => surface_id,
            None => {
                return None;
            },
        };
        let position = Point { x: F64::from_i32(x as i32), y: F64::from_i32(y as i32) };
        let mut events: Vec<PointerEvent> = Vec::new();
        let ghost before = *self;
        if !self.pointer_entered {
            self.pointer_entered = true;
            let serial: u32 = self.next_serial();
            events.push(
                PointerEvent { surface_id, position, kind: PointerEventKind::Enter { serial } },
            );
        }
        events.push(PointerEvent { surface_id, position, kind });
        assert(events@ =~= pointer_frame(before, kind, x, y)->0);
        Some(Event::PointerFrame(events))
    }

    fn send_key(&mut self, keycode: u32, state: KeyState) -> (r: Event)
        ensures
            *final(self) == counted(*old(self)),
            r == key_event(keycode, state, old(self).serial),
    {
        let serial: u32 = self.next_serial();
        Event::KeyboardEvent(KeyboardEvent::Key(KeyInner { serial, raw_code: keycode, state }))
    }

    /// What the server is told of a key event. Keys without an evdev code are ignored.
    pub fn keyboard(&mut self, event: RdpKeyboardEvent) -> (r: Option<Event>)
        ensures
            match key_of(event) {
                Some((keycode, state)) => r == Some(
                    key_event(keycode, state, old(self).serial),
                ) && *final(self) == counted(*old(self)),
                None => r is None && *final(self) == *old(self),
            },
    {
        match event {
            RdpKeyboardEvent::Pressed { code, extended } => {
                match linux_keycode_from_rdp_scancode(code, extended) {
                    Some(keycode) => Some(self.send_key(keycode, KeyState::Pressed)),
                    None => None,
                }
            },
            RdpKeyboardEvent::Released { code, extended } => {
                match linux_keycode_from_rdp_scancode(code, extended) {
                    Some(keycode) => Some(self.send_key(keycode, KeyState::Released)),
                    None => None,
                }
            },
            RdpKeyboardEvent::Other => None,
        }
    }

    fn send_button(&mut self, button: u32, pressed: bool) -> (r: Option<Event>)
        ensures
            *final(self) == after_pointer(counted(*old(self))),
            tells(
                r,
                pointer_frame(
                    counted(*old(self)),
                    button_kind(pressed, button, old(self).serial),
                    old(self).last_pointer_pos.0,
                    old(self).last_pointer_pos.1,
                ),
            ),
    {
        let (x, y): (u16, u16) = self.last_pointer_pos;
        let serial: u32 = self.next_serial();
        let kind = if pressed {
            PointerEventKind::Press { button, serial }
        } else {
            PointerEventKind::Release { button, serial }
        };
        self.send_pointer(kind, x, y)
    }

    fn scroll(&mut self, value: i16) -> (r: Option<Event>)
        ensures
            *final(self) == after_mouse(*old(self), RdpMouseEvent::VerticalScroll { value }),
            tells(r, mouse_frame(*old(self), RdpMouseEvent::VerticalScroll { value })),
    {
        let surface_id = match self.selected_surface {
            Some(surface_id) => surface_id,
            None => {
                return None;
            },
        };
        let _serial: u32 = self.next_serial();
        let (x, y): (u16, u16) = self.last_pointer_pos;
        let discrete: i32 = if value < 0 {
            -1
        } else if value > 0 {
            1
        } else {
            0
        };
        let mut events: Vec<PointerEvent> = Vec::new();
        events.push(
            PointerEvent {
                surface_id,
                position: Point { x: F64::from_i32(x as i32), y: F64::from_i32(y as i32) },
                kind: PointerEventKind::Axis {
                    horizontal: AxisScroll {
                        absolute: F64::from_i32(0),
                        discrete: 0,
                        stop: false,
                    },
                    vertical: AxisScroll {
                        absolute: F64::from_i32(value as i32),
                        discrete,
                        stop: false,
                    },
                    source: Some(AxisSource::Wheel),
                },
            },
        );
        assert(events@ =~= mouse_frame(*old(self), RdpMouseEvent::VerticalScroll { value })->0);
        Some(Event::PointerFrame(events))
    }

    /// What the server is told of a mouse event.
    pub fn mouse(&mut self, event: RdpMouseEvent) -> (r: Option<Event>)
        ensures
            *final(self) == after_mouse(*old(self), event),
            tells(r, mouse_frame(*old(self), event)),
    {
        match event {
            RdpMouseEvent::Move { x, y } => {
                self.last_pointer_pos = (x, y);
                self.send_pointer(PointerEventKind::Motion, x, y)
            },
            RdpMouseEvent::LeftPressed => self.send_button(272, true),
            RdpMouseEvent::LeftReleased => self.send_button(272, false),
            RdpMouseEvent::RightPressed => self.send_button(273, true),
            RdpMouseEvent::RightReleased => self.send_button(273, false),
            RdpMouseEvent::MiddlePressed => self.send_button(274, true),
            RdpMouseEvent::MiddleReleased => self.send_button(274, false),
            RdpMouseEvent::VerticalScroll { value } => self.scroll(value),
            RdpMouseEvent::Other => None,
        }
    }
}

pub open spec fn key_event(raw_code: u32, state: KeyState, serial: u32) -> Event {
    Event::KeyboardEvent(KeyboardEvent::Key(KeyInner { serial, raw_code, state }))
}

/// The key a keyboard event is about, and what happens to it.
pub open spec fn key_of(event: RdpKeyboardEvent) -> Option<(u32, KeyState)> {
    match event {
        RdpKeyboardEvent::Pressed { code, extended } => match linux_keycode(code, extended) {
            Some(keycode) => Some((keycode, KeyState::Pressed)),
            None => None,
        },
        RdpKeyboardEvent::Released { code, extended } => match linux_keycode(code, extended) {
            Some(keycode) => Some((keycode, KeyState::Released)),
            None => None,
        },
        RdpKeyboardEvent::Other => None,
    }
}

/// The display as remote desktop clients have it.
pub struct Display {
    pub selected_surface: Option<WlSurfaceId>,
    pub buffer_cache: Option<UncompressedBufferData>,
    pub desktop_size: DesktopSize,
}

#[verifier::ext_equal]
pub struct DisplayModel {
    pub selected: Option<WlSurfaceId>,
    pub cache: Option<Seq<u8>>,
    pub size: DesktopSize,
}

impl View for Display {
    type V = DisplayModel;

    open spec fn view(&self) -> DisplayModel {
        DisplayModel {
            selected: self.selected_surface,
            cache: match self.buffer_cache {
                Some(b) => Some(b@),
                None => None,
            },
            size: self.desktop_size,
        }
    }
}

/// The whole desktop in BGRA pixels, its rows packed tightly.
#[derive(Debug)]
pub struct BitmapUpdate {
    pub width: u16,
    pub height: u16,
    pub stride: usize,
    pub data: Vec<u8>,
}

/// What remote desktop clients are sent: a new size first, where it changed, then the picture.
#[derive(Debug)]
pub struct DisplayUpdate {
    pub resize: Option<DesktopSize>,
    pub bitmap: BitmapUpdate,
}

pub open spec fn at_least_one(n: i32) -> int {
    if n < 1 {
        1
    } else {
        n as int
    }
}

/// Whether a buffer of the selected surface can be copied row by row.
pub open spec fn has_rows(metadata: BufferMetadata) -> bool {
    let width = at_least_one(metadata.width);
    let height = at_least_one(metadata.height);
    &&& 0 <= metadata.height * metadata.stride <= i32::MAX
    &&& rows_within(
        height,
        width * 4,
        at_least_one(metadata.stride),
        metadata.height * metadata.stride,
    )
    &&& width * 4 * height <= usize::MAX
}

/// The picture of a filtered buffer.
pub open spec fn picture(metadata: BufferMetadata, filtered: Seq<u8>) -> Seq<u8> {
    let row_bytes = at_least_one(metadata.width) * 4;
    with_format(
        padded_rows(
            unfiltered_buffer(filtered, (metadata.height * metadata.stride) as nat),
            at_least_one(metadata.stride),
            row_bytes,
            row_bytes as nat,
            at_least_one(metadata.height) as nat,
        ),
        metadata.format,
    )
}

/// The surface shown after a toplevel committed: the first one, for good.
pub open spec fn selected_after(m: DisplayModel, surface: WlSurfaceId) -> DisplayModel {
    if m.selected is None {
        DisplayModel { selected: Some(surface), ..m }
    } else {
        m
    }
}

/// The filtered bytes of a committed buffer, if they are there.
pub open spec fn frame_bytes(m: DisplayModel, buffer: BufferModel) -> Option<Seq<u8>> {
    match buffer.data {
        Some(data) => Some(data),
        None => m.cache,
    }
}

/// What is known once a buffer has been looked at: bytes that were kept are used once.
pub open spec fn after_buffer(m: DisplayModel, buffer: BufferModel) -> DisplayModel {
    match buffer.data {
        Some(_) => m,
        None => DisplayModel { cache: None, ..m },
    }
}

/// The size of the desktop that a buffer makes, if clients can have one of that size.
pub open spec fn size_of(metadata: BufferMetadata) -> Option<DesktopSize> {
    let width = at_least_one(metadata.width);
    let height = at_least_one(metadata.height);
    if width <= u16::MAX && height <= u16::MAX {
        Some(DesktopSize { width: width as u16, height: height as u16 })
    } else {
        None
    }
}

/// Whether a buffer of the selected surface leads to `after` and `update`.
pub open spec fn buffer_shown(
    m: DisplayModel,
    buffer: BufferModel,
    after: DisplayModel,
    update: Option<DisplayUpdate>,
) -> bool {
    let used = after_buffer(m, buffer);
    match (frame_bytes(m, buffer), size_of(buffer.metadata)) {
        (Some(filtered), Some(size)) => {
            &&& after == DisplayModel { size, ..used }
            &&& update matches Some(u) && u.resize == (if size == m.size {
                None
            } else {
                Some(size)
            }) && u.bitmap.width == size.width && u.bitmap.height == size.height
                && u.bitmap.stride == size.width * 4 && u.bitmap.data@ == picture(
                buffer.metadata,
                filtered,
            )
        },
        _ => after == used && update is None,
    }
}

/// Whether the commit of a surface leads to `after` and `update`. Only toplevels count, and only the
/// selected one is shown.
pub open spec fn commit_shown(
    m: DisplayModel,
    surface: WlSurfaceId,
    state: SurfaceModel,
    after: DisplayModel,
    update: Option<DisplayUpdate>,
) -> bool {
    if !(state.role matches Some(RoleModel::XdgToplevel(_))) {
        after == m && update is None
    } else {
        let m = selected_after(m, surface);
        if m.selected != Some(surface) {
            after == m && update is None
        } else {
            match state.buffer {
                Some(Some(buffer)) => buffer_shown(m, buffer, after, update),
                _ => after == m && update is None,
            }
        }
    }
}

fn not_below_one(n: i32) -> (r: usize)
    ensures
        r == at_least_one(n),
{
    if n < 1 {
        1
    } else {
        n as usize
    }
}

/// The picture of a filtered buffer.
fn draw(metadata: &BufferMetadata, filtered: &Vec4u8s) -> (r: Vec<u8>)
    requires
        has_rows(*metadata),
    ensures
        r@ == picture(*metadata, filtered@),
{
    let width: usize = not_below_one(metadata.width);
    let height: usize = not_below_one(metadata.height);
    let src_stride: usize = not_below_one(metadata.stride);
    assert(width * 4 <= width * 4 * height) by (nonlinear_arith)
        requires
            height >= 1,
            width >= 1,
    ;
    let dst_stride: usize = width * 4;
    let unfiltered = unfilter_to_buffer(filtered, metadata.len());
    let pixels = copy_rows(unfiltered.as_slice(), src_stride, dst_stride, dst_stride, height);
    make_opaque(pixels, metadata.format)
}

/// The buffer that a commit brings to the screen, if it does: that of the selected toplevel, where
/// its pixels are there.
pub open spec fn buffer_for(m: DisplayModel, surface: WlSurfaceId, state: SurfaceModel) -> Option<
    BufferMetadata,
> {
    match (state.role, state.buffer) {
        (Some(RoleModel::XdgToplevel(_)), Some(Some(buffer))) => if selected_after(
            m,
            surface,
        ).selected == Some(surface) && (buffer.data is Some || m.cache is Some) {
            Some(buffer.metadata)
        } else {
            None
        },
        _ => None,
    }
}

/// Whether a commit can be copied row by row, if it comes to that.
pub open spec fn commit_has_rows(
    m: DisplayModel,
    surface: WlSurfaceId,
    state: SurfaceModel,
) -> bool {
    buffer_for(m, surface, state) matches Some(metadata) ==> has_rows(metadata)
}

/// Whether a message can be shown.
pub open spec fn shows_rows(m: DisplayModel, msg: RecvType<Request>) -> bool {
    msg matches RecvType::Object(Request::Surface(request)) ==> (request.payload matches
        SurfaceRequestPayload::Commit(state) ==> commit_has_rows(m, request.surface, state@))
}

impl Display {
    pub fn new() -> (r: Self)
        ensures
            r@ == (DisplayModel {
                selected: None,
                cache: None,
                size: DesktopSize { width: 1024, height: 768 },
            }),
    {
        Display {
            selected_surface: None,
            buffer_cache: None,
            desktop_size: DesktopSize { width: 1024, height: 768 },
        }
    }

    fn show_commit(&mut self, surface: WlSurfaceId, state: SurfaceState) -> (r: Option<
        DisplayUpdate,
    >)
        requires
            commit_has_rows(old(self)@, surface, state@),
        ensures
            commit_shown(old(self)@, surface, state@, final(self)@, r),
    {
        match &state.role {
            Some(Role::XdgToplevel(_)) => {},
            _ => {
                return None;
            },
        }
        if self.selected_surface.is_none() {
            self.selected_surface = Some(surface);
        }
        if self.selected_surface != Some(surface) {
            return None;
        }
        let buffer = match state.buffer {
            Some(BufferAssignment::New(buffer)) => buffer,
            _ => {
                return None;
            },
        };
        let metadata = buffer.metadata;
        let data = match buffer.data {
            BufferData::Uncompressed(data) => data,
            BufferData::External => match self.buffer_cache.take() {
                Some(data) => data,
                None => {
                    return None;
                },
            },
        };
        let width: usize = not_below_one(metadata.width);
        let height: usize = not_below_one(metadata.height);
        if width > 65535 || height > 65535 {
            return None;
        }
        let pixels = draw(&metadata, data.pixels());
        let new_size = DesktopSize { width: width as u16, height: height as u16 };
        let resize = if new_size != self.desktop_size {
            self.desktop_size = new_size;
            Some(new_size)
        } else {
            None
        };
        Some(
            DisplayUpdate {
                resize,
                bitmap: BitmapUpdate {
                    width: new_size.width,
                    height: new_size.height,
                    stride: width * 4,
                    data: pixels,
                },
            },
        )
    }

    /// Whether a message can be shown.
    pub fn can_show(&self, msg: &RecvType<Request>) -> (r: bool)
        ensures
            r == shows_rows(self@, *msg),
    {
        let request = match msg {
            RecvType::Object(Request::Surface(request)) => request,
            _ => {
                return true;
            },
        };
        let state = match &request.payload {
            SurfaceRequestPayload::Commit(state) => state,
            SurfaceRequestPayload::Destroyed => {
                return true;
            },
        };
        let toplevel = match &state.role {
            Some(Role::XdgToplevel(_)) => true,
            _ => false,
        };
        let selected = self.selected_surface.is_none() || self.selected_surface == Some(
            request.surface,
        );
        match &state.buffer {
            Some(BufferAssignment::New(buffer)) => {
                let there = match &buffer.data {
                    BufferData::Uncompressed(_) => true,
                    BufferData::External => self.buffer_cache.is_some(),
                };
                !toplevel || !selected || !there || buffer_has_rows(&buffer.metadata)
            },
            _ => true,
        }
    }

    /// What remote desktop clients are sent after a message of the server.
    pub fn handle_message(&mut self, msg: RecvType<Request>) -> (r: Option<DisplayUpdate>)
        requires
            shows_rows(old(self)@, msg),
        ensures
            match msg {
                RecvType::RawBuffer(buffer) => r is None && final(self)@ == (DisplayModel {
                    cache: Some(buffer.bytes@),
                    ..old(self)@
                }),
                RecvType::Object(Request::Surface(request)) => match request.payload {
                    SurfaceRequestPayload::Commit(state) => commit_shown(
                        old(self)@,
                        request.surface,
                        state@,
                        final(self)@,
                        r,
                    ),
                    SurfaceRequestPayload::Destroyed => r is None && final(self)@ == old(self)@,
                },
                RecvType::Object(_) => r is None && final(self)@ == old(self)@,
            },
    {
        match msg {
            RecvType::RawBuffer(buffer) => {
                self.buffer_cache = Some(
                    UncompressedBufferData::from_pixels(Vec4u8s::from_bytes(buffer.bytes)),
                );
                None
            },
            RecvType::Object(Request::Surface(request)) => match request.payload {
                SurfaceRequestPayload::Commit(state) => self.show_commit(request.surface, state),
                SurfaceRequestPayload::Destroyed => None,
            },
            RecvType::Object(_) => None,
        }
    }
}

/// Reads how the connection is to be protected.
pub open spec fn security_named(text: Seq<char>) -> Option<Security> {
    if text == "none"@ {
        Some(Security::Plain)
    } else if text == "tls"@ {
        Some(Security::Tls)
    } else {
        None
    }
}

pub fn parse_security(text: &str) -> (r: Result<Security, Error>)
    ensures
        match security_named(text@) {
            Some(security) => r == Ok::<Security, Error>(security),
            None => r matches Err(Error::Message(message)) && message@ == "invalid --security "@
                + debug_text(text@) + " (expected: none|tls)"@,
        },
{
    if same_text(text, "none") {
        Ok(Security::Plain)
    } else if same_text(text, "tls") {
        Ok(Security::Tls)
    } else {
        let mut message = owned("invalid --security ");
        message.append(quoted(text).as_str());
        message.append(" (expected: none|tls)");
        Err(Error::Message(message))
    }
}

/// Whether a buffer can be copied row by row.
fn buffer_has_rows(metadata: &BufferMetadata) -> (r: bool)
    ensures
        r == has_rows(*metadata),
{
    let width: i128 = if metadata.width < 1 {
        1
    } else {
        metadata.width as i128
    };
    let height: i128 = if metadata.height < 1 {
        1
    } else {
        metadata.height as i128
    };
    let stride: i128 = if metadata.stride < 1 {
        1
    } else {
        metadata.stride as i128
    };
    proof {
        assert(-0x4000_0000_0000_0000 <= metadata.height * metadata.stride
            <= 0x4000_0000_0000_0000) by (nonlinear_arith)
            requires
                -0x8000_0000 <= metadata.height <= 0x7FFF_FFFF,
                -0x8000_0000 <= metadata.stride <= 0x7FFF_FFFF,
        ;
        assert(0 <= (height - 1) * stride <= 0x4000_0000_0000_0000) by (nonlinear_arith)
            requires
                1 <= height <= 0x7FFF_FFFF,
                1 <= stride <= 0x7FFF_FFFF,
        ;
        assert(0 <= width * 4 * height <= 4 * 0x4000_0000_0000_0000) by (nonlinear_arith)
            requires
                1 <= height <= 0x7FFF_FFFF,
                1 <= width <= 0x7FFF_FFFF,
        ;
    }
    let len: i128 = metadata.height as i128 * metadata.stride as i128;
    0 <= len && len <= 0x7FFF_FFFF && (height - 1) * stride + width * 4 <= len && width * 4
        * height <= usize::MAX as i128
}

/// Once a surface is selected it stays selected.
pub proof fn selection_is_for_good(
    m: DisplayModel,
    surface: WlSurfaceId,
    state: SurfaceModel,
    after: DisplayModel,
    update: Option<DisplayUpdate>,
)
    requires
        m.selected is Some,
        commit_shown(m, surface, state, after, update),
    ensures
        after.selected == m.selected,
{
}

/// No pointer event reaches the server before a surface is selected, and none without the pointer
/// having entered.
pub proof fn pointer_enters_first(h: InputHandler, event: RdpMouseEvent)
    ensures
        h.selected_surface is None ==> mouse_frame(h, event) is None,
        !h.pointer_entered && h.selected_surface is Some && event is Move ==> (mouse_frame(
            h,
            event,
        )->0)[0].kind is Enter && after_mouse(h, event).pointer_entered,
{
}

/// With a surface selected, the server is told of a mouse button that it went down or up, last of all,
/// where the pointer was last: the left button is 0x110, the right one 0x111 and the middle one
/// 0x112.
pub proof fn buttons_keep_their_meaning(h: InputHandler, event: RdpMouseEvent)
    requires
        h.selected_surface is Some,
    ensures
        event is LeftPressed || event is RightPressed || event is MiddlePressed ==> ({
            let frame = mouse_frame(h, event)->0;
            let code: u32 = if event is LeftPressed {
                0x110
            } else if event is RightPressed {
                0x111
            } else {
                0x112
            };
            &&& mouse_frame(h, event) is Some
            &&& frame.last().kind matches PointerEventKind::Press { button, serial } && button
                == code && serial == h.serial
        }),
        event is LeftReleased || event is RightReleased || event is MiddleReleased ==> ({
            let frame = mouse_frame(h, event)->0;
            let code: u32 = if event is LeftReleased {
                0x110
            } else if event is RightReleased {
                0x111
            } else {
                0x112
            };
            &&& mouse_frame(h, event) is Some
            &&& frame.last().kind matches PointerEventKind::Release { button, serial } && button
                == code && serial == h.serial
        }),
        linux_button(MouseButton::Left) == Some(0x110u32),
        linux_button(MouseButton::Right) == Some(0x111u32),
        linux_button(MouseButton::Middle) == Some(0x112u32),
{
}

/// Whatever the server is told of the mouse is about the selected surface, where the mouse is, and
/// ends with what the mouse did. It is all there is, but for the pointer's entering, which comes
/// first where it has not been told. Scrolling up stays scrolling up.
pub proof fn mouse_events_are_told(h: InputHandler, event: RdpMouseEvent)
    requires
        !(event is Other),
        h.selected_surface is Some,
    ensures
        ({
            let frame = mouse_frame(h, event)->0;
            let (x, y) = match event {
                RdpMouseEvent::Move { x, y } => (x, y),
                _ => h.last_pointer_pos,
            };
            &&& mouse_frame(h, event) is Some
            &&& frame.len() == (if h.pointer_entered || event is VerticalScroll {
                1int
            } else {
                2int
            })
            &&& frame.len() == 2 ==> frame[0].kind is Enter
            &&& forall|i: int|
                0 <= i < frame.len() ==> {
                    &&& Some((#[trigger] frame[i]).surface_id) == h.selected_surface
                    &&& frame[i].position.x == integer(x as int)
                    &&& frame[i].position.y == integer(y as int)
                }
            &&& event is Move ==> frame.last().kind == PointerEventKind::Motion
            &&& event matches RdpMouseEvent::VerticalScroll { value } ==> (frame.last().kind matches
                PointerEventKind::Axis { horizontal, vertical, source } && vertical.absolute
                == integer(value as int) && horizontal.absolute == integer(0)
                && horizontal.discrete == 0 && !vertical.stop && !horizontal.stop && source == Some(
                AxisSource::Wheel,
            ) && (value > 0 ==> vertical.discrete == 1) && (value < 0 ==> vertical.discrete == -1)
                && (value == 0 ==> vertical.discrete == 0))
        }),
{
}

/// The mouse is where it last moved to, the selected surface is left as it is, and a pointer that
/// entered stays so.
pub proof fn mouse_positions_are_kept(h: InputHandler, event: RdpMouseEvent)
    ensures
        after_mouse(h, event).last_pointer_pos == (match event {
            RdpMouseEvent::Move { x, y } => (x, y),
            _ => h.last_pointer_pos,
        }),
        after_mouse(h, event).selected_surface == h.selected_surface,
        h.pointer_entered ==> after_mouse(h, event).pointer_entered,
        h.selected_surface is Some && !(event is Other) && !(event is VerticalScroll)
            ==> after_mouse(h, event).pointer_entered,
{
}

/// Serials are counted on: what the server is told of two buttons that follow each other has
/// different serials.
pub proof fn button_serials_differ(h: InputHandler, first: RdpMouseEvent, second: RdpMouseEvent)
    requires
        h.selected_surface is Some,
        first is LeftPressed || first is RightPressed || first is MiddlePressed,
        second is LeftReleased || second is RightReleased || second is MiddleReleased,
    ensures
        ({
            let down = mouse_frame(h, first)->0;
            let up = mouse_frame(after_mouse(h, first), second)->0;
            down.last().kind matches PointerEventKind::Press { serial: a, button: _ } && (
            up.last().kind matches PointerEventKind::Release { serial: b, button: _ } && a != b)
        }),
{
}

/// A key that goes down is pressed and one that goes up is released. Keys of the main block have the
/// code of their place; of the others, each has a code of its own.
pub proof fn keys_keep_their_meaning(code: u8, other: u8)
    ensures
        key_of(RdpKeyboardEvent::Pressed { code, extended: false }) == Some(
            (code as u32, KeyState::Pressed),
        ),
        key_of(RdpKeyboardEvent::Released { code, extended: false }) == Some(
            (code as u32, KeyState::Released),
        ),
        key_of(RdpKeyboardEvent::Pressed { code, extended: true }) matches Some((_, state)) ==> state
            == KeyState::Pressed,
        key_of(RdpKeyboardEvent::Released { code, extended: true }) matches Some((_, state))
            ==> state == KeyState::Released,
        (key_of(RdpKeyboardEvent::Pressed { code, extended: true }) is Some) == (key_of(
            RdpKeyboardEvent::Released { code, extended: true },
        ) is Some),
        linux_keycode(code, true) is Some && linux_keycode(code, true) == linux_keycode(other, true)
            ==> code == other,
        linux_keycode(0x1D, true) == Some(97u32),
        linux_keycode(0x38, true) == Some(100u32),
        linux_keycode(0x47, true) == Some(102u32),
        linux_keycode(0x48, true) == Some(103u32),
        linux_keycode(0x49, true) == Some(104u32),
        linux_keycode(0x4B, true) == Some(105u32),
        linux_keycode(0x4D, true) == Some(106u32),
        linux_keycode(0x4F, true) == Some(107u32),
        linux_keycode(0x50, true) == Some(108u32),
        linux_keycode(0x51, true) == Some(109u32),
        linux_keycode(0x52, true) == Some(110u32),
        linux_keycode(0x53, true) == Some(111u32),
        linux_keycode(code, true) matches Some(key) ==> 97 <= key <= 111,
        forall|key: u32, state: KeyState, n: u32|
            #![trigger key_event(key, state, n)]
            (key_event(key, state, n) matches Event::KeyboardEvent(KeyboardEvent::Key(inner))
                && inner.raw_code == key && inner.state == state && inner.serial == n),
{
}

/// The first toplevel that commits is selected, and its buffers are shown from then on; what other
/// surfaces commit is not.
pub proof fn first_toplevel_is_shown(
    m: DisplayModel,
    surface: WlSurfaceId,
    state: SurfaceModel,
    after: DisplayModel,
    update: Option<DisplayUpdate>,
)
    requires
        commit_shown(m, surface, state, after, update),
    ensures
        state.role matches Some(RoleModel::XdgToplevel(_)) ==> after.selected == Some(
            match m.selected {
                Some(selected) => selected,
                None => surface,
            },
        ),
        !(state.role matches Some(RoleModel::XdgToplevel(_))) ==> after == m && update is None,
        m.selected is Some && m.selected != Some(surface) ==> after == m && update is None,
        !(state.buffer matches Some(Some(_))) ==> update is None && after.cache == m.cache
            && after.size == m.size,
{
}

/// A buffer of the shown surface is shown where its bytes are there: they are its own, or those that
/// came last, which are used up. Clients get a picture of its size, with the new size before it where
/// that is another one.
pub proof fn buffers_are_shown(
    m: DisplayModel,
    surface: WlSurfaceId,
    state: SurfaceModel,
    after: DisplayModel,
    update: Option<DisplayUpdate>,
    buffer: BufferModel,
)
    requires
        commit_shown(m, surface, state, after, update),
        state.role matches Some(RoleModel::XdgToplevel(_)),
        m.selected is None || m.selected == Some(surface),
        state.buffer == Some(Some(buffer)),
        1 <= buffer.metadata.width <= 65535,
        1 <= buffer.metadata.height <= 65535,
        buffer.data is Some || m.cache is Some,
    ensures
        update matches Some(u) && u.bitmap.width == buffer.metadata.width && u.bitmap.height
            == buffer.metadata.height && u.bitmap.stride == buffer.metadata.width * 4
            && u.bitmap.data@ == picture(
            buffer.metadata,
            if buffer.data is Some {
                buffer.data->0
            } else {
                m.cache->0
            },
        ) && (u.resize is Some) == (m.size.width != buffer.metadata.width || m.size.height
            != buffer.metadata.height) && (u.resize matches Some(size) ==> size.width
            == buffer.metadata.width && size.height == buffer.metadata.height),
        after.size.width == buffer.metadata.width,
        after.size.height == buffer.metadata.height,
        buffer.data is None ==> after.cache is None,
        buffer.data is Some ==> after.cache == m.cache,
{
}

/// Each pixel of the picture is that of the buffer at the same place, and opaque where the format has
/// no alpha.
pub proof fn pictures_show_their_buffer(metadata: BufferMetadata, filtered: Seq<u8>, x: int, y: int)
    requires
        1 <= metadata.width,
        1 <= metadata.height,
        1 <= metadata.stride,
        0 <= x < metadata.width,
        0 <= y < metadata.height,
    ensures
        ({
            let shown = picture(metadata, filtered);
            let source = unfiltered_buffer(filtered, (metadata.height * metadata.stride) as nat);
            let to = (y * metadata.width + x) * 4;
            let from = y * metadata.stride + x * 4;
            &&& shown.len() == metadata.width * 4 * metadata.height
            &&& 0 <= to && to + 3 < shown.len()
            &&& shown[to] == source[from]
            &&& shown[to + 1] == source[from + 1]
            &&& shown[to + 2] == source[from + 2]
            &&& shown[to + 3] == (if metadata.format is Xrgb8888 {
                255u8
            } else {
                source[from + 3]
            })
        }),
{
    let width = metadata.width as int;
    let height = metadata.height as int;
    let row = width * 4;
    assert((y * width + x) * 4 == y * row + x * 4) by (nonlinear_arith)
        requires
            row == width * 4,
    ;
    assert(0 <= y * row && y * row + row <= row * height) by (nonlinear_arith)
        requires
            0 <= y <= height - 1,
            row >= 0,
    ;
    let source = unfiltered_buffer(filtered, (metadata.height * metadata.stride) as nat);
    lemma_row_position(y, x * 4, row);
    lemma_row_position(y, x * 4 + 1, row);
    lemma_row_position(y, x * 4 + 2, row);
    lemma_row_position(y, x * 4 + 3, row);
    assert((y * width + x) * 4 % 4 == 0);
}

/// Two words name how a connection is protected, and no others do.
pub proof fn protection_is_named(text: Seq<char>)
    ensures
        security_named(text) == Some(Security::Plain) <==> text == "none"@,
        security_named("tls"@) == Some(Security::Tls),
        security_named(text) == Some(Security::Tls) ==> text == "tls"@,
        text != "none"@ && text != "tls"@ ==> security_named(text) is None,
{
    reveal_strlit("none");
    reveal_strlit("tls");
    assert("none"@.len() == 4 && "tls"@.len() == 3);
}

} // verus!
