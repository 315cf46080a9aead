//! The state of the backend and the steps that several events share.
use crate::client::backends::winit_wgpu::frames::{
    bgra_padded_to_rgba, is_cursor_sized, CursorFrame, DecodedFrame,
};
use crate::client::backends::winit_wgpu::input::{
    cursor_icon, cursor_icon_from_wayland_name, ResizeDirection,
};
use crate::client::backends::winit_wgpu::model::{
    cursor_position, emit, following_serial, has_decorations, plus, plus_plain, seen, with_serial,
    Action, ActionModel, AppModel, CursorFrameModel, Modifiers, PinchGestureState, PlainAction,
    PopupPlacement, Step,
};
use crate::client::backends::winit_wgpu::outputs::{
    event_models, output_events, output_models, refresh_outputs,
};
use crate::client::backends::winit_wgpu::popups::{
    has_offset, placed, placed_popups, placement, popups_follow,
};
use crate::client::config::KeyboardMode;
use crate::models::surface::{UncompressedBufferData, WlSurfaceId};
use crate::protocols::image::pixels::swapped_rows;
use crate::protocols::wprs::geometry::Point;
use crate::protocols::wprs::serializer::RecvType;
use crate::protocols::wprs::types::{ClientId, DisplayConfig, Request};
use crate::protocols::wprs::wayland::{
    CursorImage, CursorImageStatus, KeyInner, KeyState, OutputEvent, OutputInfo, PointerEvent,
    PointerEventKind, SurfaceRequest,
};
use crate::protocols::wprs::xdg_shell::XdgPopupState;
use crate::utils::ieee::F64;
use crate::utils::sorted_map::{in_order, keys_of, lemma_entries, lemma_keys_in_order, SortedMap};
use crate::utils::text::owned;
use crate::utils::vec4u8::Vec4u8s;
use std::collections::{HashMap, HashSet};
use vstd::prelude::*;

verus! {

broadcast use vstd::std_specs::hash::group_hash_axioms;

/// How long outputs are not looked at again, in milliseconds.
pub const OUTPUT_REFRESH_MS: u64 = 2000;

pub struct App {
    pub buffer_cache: Option<UncompressedBufferData>,
    pub windows: HashMap<u64, u64>,
    pub surface_by_window: HashMap<u64, u64>,
    pub outputs_sent: bool,
    pub last_outputs: Vec<OutputInfo>,
    pub last_outputs_refresh: u64,
    pub server_display_config: Option<DisplayConfig>,
    pub surface_scale_factor: HashMap<u64, i32>,
    pub keyboard_mode: KeyboardMode,
    pub xkb_keymap_sent: bool,
    pub serial_counter: u32,
    pub focused_window: Option<u64>,
    pub focused_surface: Option<WlSurfaceId>,
    pub surfaces_with_frame: HashSet<u64>,
    pub pressed_keycodes: SortedMap<u32, ()>,
    pub last_cursor_pos: HashMap<u64, Point<F64>>,
    pub last_window_cursor_pos: HashMap<u64, Point<F64>>,
    pub last_window_cursor_pos_physical: HashMap<u64, Point<F64>>,
    pub local_modifiers: Modifiers,
    pub window_has_decorations: HashMap<u64, bool>,
    pub window_cursor_overridden: HashSet<u64>,
    pub pointer_inside: HashSet<u64>,
    pub pointer_surface: Option<WlSurfaceId>,
    pub last_window_inner_pos: HashMap<u64, Point<i32>>,
    pub pinch_state: HashMap<u64, PinchGestureState>,
    pub popup_state_by_surface: SortedMap<u64, XdgPopupState>,
    pub cursor_frames: SortedMap<(u64, u64), CursorFrame>,
    pub cursor_surface_clients: HashMap<u64, ClientId>,
    pub cursor_visible: bool,
    pub cursor_dirty: bool,
}

impl View for App {
    type V = AppModel;

    open spec fn view(&self) -> AppModel {
        AppModel {
            cache: match self.buffer_cache {
                Some(b) => Some(b@),
                None => None,
            },
            windows: self.windows@,
            surface_by_window: self.surface_by_window@,
            outputs_sent: self.outputs_sent,
            outputs: output_models(self.last_outputs@),
            last_refresh: self.last_outputs_refresh,
            display_config: self.server_display_config,
            scales: self.surface_scale_factor@,
            keyboard_mode: self.keyboard_mode,
            keymap_sent: self.xkb_keymap_sent,
            serial: self.serial_counter,
            focused_window: self.focused_window,
            focused_surface: self.focused_surface,
            with_frame: self.surfaces_with_frame@,
            pressed: self.pressed_keycodes@.dom(),
            cursor_pos: self.last_cursor_pos@,
            window_cursor_pos: self.last_window_cursor_pos@,
            physical_pos: self.last_window_cursor_pos_physical@,
            modifiers: self.local_modifiers,
            decorations: self.window_has_decorations@,
            overridden: self.window_cursor_overridden@,
            inside: self.pointer_inside@,
            pointer_surface: self.pointer_surface,
            inner_pos: self.last_window_inner_pos@,
            pinch: self.pinch_state@,
            popups: self.popup_state_by_surface@,
            cursor_frames: self.cursor_frames@.map_values(|f: CursorFrame| f@),
            cursor_clients: self.cursor_surface_clients@,
            cursor_visible: self.cursor_visible,
            cursor_dirty: self.cursor_dirty,
        }
    }
}

/// The state of the backend together with what it has yet to do.
pub open spec fn step_of(app: App, out: Seq<Action>) -> Step {
    Step { m: app@, out: seen(out) }
}

pub open spec fn no_modifiers() -> Modifiers {
    Modifiers { ctrl: false, alt: false, shift: false, logo: false }
}

/// What the backend knows at the start: nothing has been sent, and the default cursor is shown.
pub open spec fn initial(keyboard_mode: KeyboardMode, now: u64) -> AppModel {
    AppModel {
        cache: None,
        windows: Map::empty(),
        surface_by_window: Map::empty(),
        outputs_sent: false,
        outputs: Seq::empty(),
        last_refresh: now,
        display_config: None,
        scales: Map::empty(),
        keyboard_mode,
        keymap_sent: false,
        serial: 1,
        focused_window: None,
        focused_surface: None,
        with_frame: Set::empty(),
        pressed: Set::empty(),
        cursor_pos: Map::empty(),
        window_cursor_pos: Map::empty(),
        physical_pos: Map::empty(),
        modifiers: no_modifiers(),
        decorations: Map::empty(),
        overridden: Set::empty(),
        inside: Set::empty(),
        pointer_surface: None,
        inner_pos: Map::empty(),
        pinch: Map::empty(),
        popups: Map::empty(),
        cursor_frames: Map::empty(),
        cursor_clients: Map::empty(),
        cursor_visible: true,
        cursor_dirty: true,
    }
}

/// Asks for the keymap the first time round, where the server is to have it.
pub open spec fn keymap_told(s: Step) -> Step {
    if s.m.keymap_sent {
        s
    } else {
        let s = Step { m: AppModel { keymap_sent: true, ..s.m }, ..s };
        if s.m.keyboard_mode is Keymap {
            plus_plain(s, PlainAction::LoadKeymap)
        } else {
            s
        }
    }
}

/// Takes the keyboard from the surface that has it.
pub open spec fn keyboard_left(s: Step) -> Step {
    if s.m.focused_surface is Some {
        let s = with_serial(s);
        plus_plain(s, PlainAction::LeaveKeyboard { serial: s.m.serial })
    } else {
        s
    }
}

/// Gives the keyboard to a surface, with the keys that are held.
pub open spec fn keyboard_entered(s: Step, target: Option<WlSurfaceId>) -> Step {
    let s = Step { m: AppModel { focused_surface: target, ..s.m }, ..s };
    match target {
        Some(surface_id) => {
            let s = with_serial(s);
            plus(
                s,
                ActionModel::EnterKeyboard {
                    serial: s.m.serial,
                    surface_id,
                    keycodes: in_order(s.m.pressed),
                },
            )
        },
        None => s,
    }
}

/// Moves the keyboard to a surface, or away from all.
pub open spec fn focus_moved(s: Step, target: Option<WlSurfaceId>) -> Step {
    let s = keymap_told(s);
    if s.m.focused_surface == target {
        s
    } else {
        keyboard_entered(keyboard_left(s), target)
    }
}

pub open spec fn pointer_told(
    s: Step,
    surface_id: WlSurfaceId,
    position: Point<F64>,
    kind: PointerEventKind,
) -> Step {
    plus_plain(s, PlainAction::Pointer(PointerEvent { surface_id, position, kind }))
}

/// Tells the server that the pointer is in a window, unless it has been told.
pub open spec fn pointer_entered(
    s: Step,
    surface_id: WlSurfaceId,
    window: u64,
    position: Point<F64>,
) -> Step {
    if s.m.inside.contains(window) {
        s
    } else {
        let s = with_serial(
            Step { m: AppModel { inside: s.m.inside.insert(window), ..s.m }, ..s },
        );
        pointer_told(s, surface_id, position, PointerEventKind::Enter { serial: s.m.serial })
    }
}

/// Shows the current cursor in the window of a surface, if it has one.
pub open spec fn cursor_applied(s: Step, surface_id: WlSurfaceId) -> Step {
    if s.m.windows.contains_key(surface_id.0) {
        plus_plain(
            s,
            PlainAction::ApplyCursor { surface_id, visible: s.m.cursor_visible },
        )
    } else {
        s
    }
}

/// Shows a cursor that changed while no surface had the pointer.
pub open spec fn dirty_cursor_applied(s: Step, surface_id: WlSurfaceId) -> Step {
    if s.m.cursor_dirty {
        let s = cursor_applied(s, surface_id);
        Step { m: AppModel { cursor_dirty: false, ..s.m }, ..s }
    } else {
        s
    }
}

/// In a window without decorations, the cursor shows what a click would do: resize at the edges,
/// move while Alt is held. Elsewhere it goes back to the current cursor.
pub open spec fn edge_cursor(
    s: Step,
    surface_id: WlSurfaceId,
    window: u64,
    edge: Option<ResizeDirection>,
) -> Step {
    if has_decorations(s.m, window) {
        s
    } else {
        let over = AppModel { overridden: s.m.overridden.insert(window), ..s.m };
        match edge {
            Some(direction) => plus_plain(
                Step { m: over, ..s },
                PlainAction::ShowResizeCursor { surface_id, direction },
            ),
            None => if s.m.modifiers.alt {
                plus_plain(Step { m: over, ..s }, PlainAction::ShowMoveCursor { surface_id })
            } else if s.m.overridden.contains(window) {
                cursor_applied(
                    Step {
                        m: AppModel { overridden: s.m.overridden.remove(window), ..s.m },
                        ..s
                    },
                    surface_id,
                )
            } else {
                s
            },
        }
    }
}

/// Tells the server of a key, if a surface has the keyboard.
pub open spec fn key_told(s: Step, raw_code: u32, state: KeyState) -> Step {
    if s.m.focused_surface is None {
        s
    } else {
        let s = with_serial(s);
        plus_plain(s, PlainAction::Key(KeyInner { serial: s.m.serial, raw_code, state }))
    }
}

/// What a cursor request amounts to.
#[derive(Debug)]
pub enum CursorPlan {
    Hide,
    /// A standard cursor, by its name.
    Named(String),
    /// The stored image of a surface.
    Image { client: ClientId, surface: WlSurfaceId, hotspot_x: u16, hotspot_y: u16 },
    /// An image that has not arrived yet: nothing changes.
    Missing,
}

pub open spec fn clamped(n: int, max: int) -> int {
    if n < 0 {
        0
    } else if n > max {
        max
    } else {
        n
    }
}

/// A hotspot in pixels of the image: the hotspot in surface coordinates times the buffer scale,
/// both kept within the image.
pub open spec fn hotspot_pixel(at: int, size: int, scale: int) -> int {
    clamped(clamped(at, size) * scale, size)
}

pub open spec fn buffer_scale(m: AppModel, surface: u64) -> int {
    if m.scales.contains_key(surface) && m.scales[surface] > 1 {
        m.scales[surface] as int
    } else {
        1
    }
}

/// Whether `plan` is what a cursor request amounts to.
pub open spec fn is_cursor_plan(m: AppModel, status: CursorImageStatus, plan: CursorPlan) -> bool {
    match status {
        CursorImageStatus::Hidden => plan is Hide,
        CursorImageStatus::Named(name) => plan matches CursorPlan::Named(icon) && icon@ == (
        match cursor_icon(name@) {
            Some(icon) => icon,
            None => "default"@,
        }),
        CursorImageStatus::Surface { client_surface, hotspot } => {
            let key = (client_surface.client.0, client_surface.surface.0);
            if m.cursor_frames.contains_key(key) {
                let frame = m.cursor_frames[key];
                let scale = buffer_scale(m, client_surface.surface.0);
                plan matches CursorPlan::Image { client, surface, hotspot_x, hotspot_y } && client
                    == client_surface.client && surface == client_surface.surface && hotspot_x
                    == hotspot_pixel(hotspot.x as int, frame.width as int, scale) && hotspot_y
                    == hotspot_pixel(hotspot.y as int, frame.height as int, scale)
            } else {
                plan is Missing
            }
        },
    }
}

/// The cursor of the seat becomes visible or hidden, and is shown wherever the pointer, or else the
/// keyboard, is.
pub open spec fn cursor_changed(s: Step, visible: bool) -> Step {
    let s = Step { m: AppModel { cursor_visible: visible, cursor_dirty: true, ..s.m }, ..s };
    let target = match s.m.pointer_surface {
        Some(surface) => Some(surface),
        None => s.m.focused_surface,
    };
    match target {
        Some(surface) => {
            let s = cursor_applied(s, surface);
            Step { m: AppModel { cursor_dirty: false, ..s.m }, ..s }
        },
        None => s,
    }
}

/// What a message of the server leaves to be done.
#[derive(Debug)]
pub enum ServerStep {
    Surface(SurfaceRequest),
    Cursor(CursorImage),
    Nothing,
}

pub open spec fn cursor_frame_of(frame: DecodedFrame) -> Option<CursorFrameModel> {
    if is_cursor_sized(frame.metadata, frame.padded_row_bytes, frame.data@.len()) {
        Some(
            CursorFrameModel {
                width: frame.metadata.width as u16,
                height: frame.metadata.height as u16,
                rgba: swapped_rows(
                    frame.data@,
                    frame.padded_row_bytes as int,
                    frame.metadata.width as nat,
                    frame.metadata.height as nat,
                ),
            },
        )
    } else {
        None
    }
}

/// A decoded frame goes to the window of its surface, or else is a cursor image.
pub open spec fn frame_arrived(m: AppModel, frame: DecodedFrame) -> AppModel {
    let surface = frame.surface_id.0;
    if m.windows.contains_key(surface) {
        AppModel { with_frame: m.with_frame.insert(surface), ..m }
    } else if m.cursor_clients.contains_key(surface) {
        match cursor_frame_of(frame) {
            Some(image) => AppModel {
                cursor_frames: m.cursor_frames.insert(
                    (m.cursor_clients[surface].0, surface),
                    image,
                ),
                ..m
            },
            None => m,
        }
    } else {
        m
    }
}

impl App {
    /// Popups add up to places, and the ordered collections are in order.
    pub open spec fn wf(&self) -> bool {
        &&& self.pressed_keycodes.wf()
        &&& self.popup_state_by_surface.wf()
        &&& self.cursor_frames.wf()
        &&& forall|s: u64| #[trigger]
            self.popup_state_by_surface@.contains_key(s) ==> has_offset(
                self.popup_state_by_surface@[s],
            )
    }

    pub fn new(keyboard_mode: KeyboardMode, now: u64) -> (r: Self)
        ensures
            r.wf(),
            r@ == initial(keyboard_mode, now),
    {
        let r = App {
            buffer_cache: None,
            windows: HashMap::new(),
            surface_by_window: HashMap::new(),
            outputs_sent: false,
            last_outputs: Vec::new(),
            last_outputs_refresh: now,
            server_display_config: None,
            surface_scale_factor: HashMap::new(),
            keyboard_mode,
            xkb_keymap_sent: false,
            serial_counter: 1,
            focused_window: None,
            focused_surface: None,
            surfaces_with_frame: HashSet::new(),
            pressed_keycodes: SortedMap::new(),
            last_cursor_pos: HashMap::new(),
            last_window_cursor_pos: HashMap::new(),
            last_window_cursor_pos_physical: HashMap::new(),
            local_modifiers: Modifiers { ctrl: false, alt: false, shift: false, logo: false },
            window_has_decorations: HashMap::new(),
            window_cursor_overridden: HashSet::new(),
            pointer_inside: HashSet::new(),
            pointer_surface: None,
            last_window_inner_pos: HashMap::new(),
            pinch_state: HashMap::new(),
            popup_state_by_surface: SortedMap::new(),
            cursor_frames: SortedMap::new(),
            cursor_surface_clients: HashMap::new(),
            cursor_visible: true,
            cursor_dirty: true,
        };
        assert(r@ =~= initial(keyboard_mode, now));
        r
    }

    pub(crate) fn next_serial(&mut self) -> (r: u32)
        ensures
            final(self)@ == (AppModel { serial: following_serial(old(self)@.serial), ..old(self)@ }),
            r == final(self)@.serial,
            r != 0,
            old(self).wf() ==> final(self).wf(),
    {
        if self.serial_counter == u32::MAX {
            self.serial_counter = 1;
        } else {
            self.serial_counter = self.serial_counter + 1;
        }
        self.serial_counter
    }

    /// Asks for the keymap the first time round, where the server is to have it.
    pub fn maybe_send_keymap(&mut self, out: &mut Vec<Action>)
        requires
            old(self).wf(),
        ensures
            final(self).wf(),
            step_of(*final(self), final(out)@) == keymap_told(step_of(*old(self), old(out)@)),
    {
        if self.xkb_keymap_sent {
            return;
        }
        self.xkb_keymap_sent = true;
        if self.keyboard_mode == KeyboardMode::Keymap {
            emit(out, Action::Plain(PlainAction::LoadKeymap));
        }
    }

    fn leave_keyboard(&mut self, out: &mut Vec<Action>)
        requires
            old(self).wf(),
        ensures
            final(self).wf(),
            step_of(*final(self), final(out)@) == keyboard_left(step_of(*old(self), old(out)@)),
    {
        if self.focused_surface.is_some() {
            let serial: u32 = self.next_serial();
            emit(out, Action::Plain(PlainAction::LeaveKeyboard { serial }));
        }
    }

    fn enter_keyboard(&mut self, surface_id: Option<WlSurfaceId>, out: &mut Vec<Action>)
        requires
            old(self).wf(),
        ensures
            final(self).wf(),
            step_of(*final(self), final(out)@) == keyboard_entered(
                step_of(*old(self), old(out)@),
                surface_id,
            ),
    {
        self.focused_surface = surface_id;
        if let Some(surface_id) = surface_id {
            let serial: u32 = self.next_serial();
            let keycodes = self.pressed_keycodes.keys();
            emit(out, Action::EnterKeyboard { serial, surface_id, keycodes });
        }
    }

    pub(crate) fn set_keyboard_focus(&mut self, surface_id: Option<WlSurfaceId>, out: &mut Vec<Action>)
        requires
            old(self).wf(),
        ensures
            final(self).wf(),
            step_of(*final(self), final(out)@) == focus_moved(
                step_of(*old(self), old(out)@),
                surface_id,
            ),
    {
        self.maybe_send_keymap(out);
        if self.focused_surface == surface_id {
            return;
        }
        self.leave_keyboard(out);
        self.enter_keyboard(surface_id, out);
    }

    pub(crate) fn send_pointer_event(
        &self,
        surface_id: WlSurfaceId,
        position: Point<F64>,
        kind: PointerEventKind,
        out: &mut Vec<Action>,
    )
        ensures
            step_of(*self, final(out)@) == pointer_told(
                step_of(*self, old(out)@),
                surface_id,
                position,
                kind,
            ),
    {
        emit(
            out,
            Action::Plain(PlainAction::Pointer(PointerEvent { surface_id, position, kind })),
        );
    }

    pub(crate) fn enter_pointer(
        &mut self,
        surface_id: WlSurfaceId,
        window: u64,
        position: Point<F64>,
        out: &mut Vec<Action>,
    )
        requires
            old(self).wf(),
        ensures
            final(self).wf(),
            step_of(*final(self), final(out)@) == pointer_entered(
                step_of(*old(self), old(out)@),
                surface_id,
                window,
                position,
            ),
    {
        let ghost before = self@;
        if self.pointer_inside.insert(window) {
            let serial: u32 = self.next_serial();
            self.send_pointer_event(surface_id, position, PointerEventKind::Enter { serial }, out);
        } else {
            assert(self@ =~= before);
        }
    }

    pub(crate) fn send_key(&mut self, keycode: u32, state: KeyState, out: &mut Vec<Action>)
        requires
            old(self).wf(),
        ensures
            final(self).wf(),
            step_of(*final(self), final(out)@) == key_told(
                step_of(*old(self), old(out)@),
                keycode,
                state,
            ),
    {
        if self.focused_surface.is_none() {
            return;
        }
        let serial: u32 = self.next_serial();
        emit(out, Action::Plain(PlainAction::Key(KeyInner { serial, raw_code: keycode, state })));
    }

    pub(crate) fn cursor_pos_for(&self, window: u64) -> (r: Point<F64>)
        ensures
            r == cursor_position(self@, window),
    {
        match self.last_cursor_pos.get(&window) {
            Some(pos) => *pos,
            None => Point { x: F64 { bits: 0 }, y: F64 { bits: 0 } },
        }
    }

    pub(crate) fn window_has_decorations(&self, window: u64) -> (r: bool)
        ensures
            r == has_decorations(self@, window),
    {
        match self.window_has_decorations.get(&window) {
            Some(decorated) => *decorated,
            None => true,
        }
    }

    pub(crate) fn apply_cursor_for_surface(&self, surface_id: WlSurfaceId, out: &mut Vec<Action>)
        ensures
            step_of(*self, final(out)@) == cursor_applied(step_of(*self, old(out)@), surface_id),
    {
        if self.windows.contains_key(&surface_id.0) {
            emit(
                out,
                Action::Plain(
                    PlainAction::ApplyCursor { surface_id, visible: self.cursor_visible },
                ),
            );
        }
    }

    pub(crate) fn apply_dirty_cursor(&mut self, surface_id: WlSurfaceId, out: &mut Vec<Action>)
        requires
            old(self).wf(),
        ensures
            final(self).wf(),
            step_of(*final(self), final(out)@) == dirty_cursor_applied(
                step_of(*old(self), old(out)@),
                surface_id,
            ),
    {
        if self.cursor_dirty {
            self.apply_cursor_for_surface(surface_id, out);
            self.cursor_dirty = false;
        }
    }

    pub(crate) fn update_decorationless_cursor(
        &mut self,
        surface_id: WlSurfaceId,
        window: u64,
        edge: Option<ResizeDirection>,
        out: &mut Vec<Action>,
    )
        requires
            old(self).wf(),
        ensures
            final(self).wf(),
            step_of(*final(self), final(out)@) == edge_cursor(
                step_of(*old(self), old(out)@),
                surface_id,
                window,
                edge,
            ),
    {
        if self.window_has_decorations(window) {
            return;
        }
        if let Some(direction) = edge {
            emit(out, Action::Plain(PlainAction::ShowResizeCursor { surface_id, direction }));
            let _ = self.window_cursor_overridden.insert(window);
            return;
        }
        if self.local_modifiers.alt {
            emit(out, Action::Plain(PlainAction::ShowMoveCursor { surface_id }));
            let _ = self.window_cursor_overridden.insert(window);
            return;
        }
        let ghost before = self@;
        if self.window_cursor_overridden.remove(&window) {
            self.apply_cursor_for_surface(surface_id, out);
        } else {
            assert(self@ =~= before);
        }
    }

    pub(crate) fn compute_popup_position(&self, surface: u64, popup: &XdgPopupState) -> (r: Option<
        PopupPlacement,
    >)
        requires
            has_offset(*popup),
        ensures
            r == placement(self@, surface, *popup),
    {
        let parent: u64 = popup.parent_surface_id.0;
        let window: u64 = match self.windows.get(&parent) {
            Some(window) => *window,
            None => {
                return None;
            },
        };
        let parent_pos = match self.last_window_inner_pos.get(&window) {
            Some(pos) => Some(*pos),
            None => None,
        };
        let server_scale: i32 = match self.surface_scale_factor.get(&parent) {
            Some(scale) => *scale,
            None => 1,
        };
        Some(
            PopupPlacement {
                popup: WlSurfaceId(surface),
                parent: popup.parent_surface_id,
                parent_pos,
                server_scale,
                dx: popup.positioner.anchor_rect.loc.x + popup.positioner.offset.x,
                dy: popup.positioner.anchor_rect.loc.y + popup.positioner.offset.y,
            },
        )
    }

    pub(crate) fn update_popup_position(
        &self,
        surface: u64,
        popup: &XdgPopupState,
        out: &mut Vec<Action>,
    )
        requires
            has_offset(*popup),
        ensures
            step_of(*self, final(out)@) == placed(step_of(*self, old(out)@), surface, *popup),
    {
        if !self.windows.contains_key(&surface) {
            return;
        }
        if let Some(p) = self.compute_popup_position(surface, popup) {
            emit(out, Action::Plain(PlainAction::PlacePopup(p)));
        }
    }

    pub(crate) fn update_popups_for_parent(&self, parent: WlSurfaceId, out: &mut Vec<Action>)
        requires
            self.wf(),
        ensures
            step_of(*self, final(out)@) == popups_follow(step_of(*self, old(out)@), parent.0),
    {
        let ghost start = step_of(*self, out@);
        let ghost entries = self.popup_state_by_surface.entries@;
        let ghost keys = keys_of(entries);
        proof {
            lemma_keys_in_order(entries);
            lemma_entries(entries);
            assert(keys.subrange(0, 0) =~= Seq::empty());
        }
        let mut i: usize = 0;
        while i < self.popup_state_by_surface.entries.len()
            invariant
                self.wf(),
                i <= entries.len(),
                entries == self.popup_state_by_surface.entries@,
                keys == keys_of(entries),
                start.m == self@,
                forall|j: int|
                    0 <= j < entries.len() ==> self.popup_state_by_surface@.contains_pair(
                        (#[trigger] entries[j]).key,
                        entries[j].value,
                    ),
                step_of(*self, out@) == placed_popups(
                    start,
                    parent.0,
                    keys.subrange(0, i as int),
                ),
            decreases entries.len() - i,
        {
            let entry = &self.popup_state_by_surface.entries[i];
            proof {
                assert(self.popup_state_by_surface@.contains_pair(
                    entries[i as int].key,
                    entries[i as int].value,
                ));
                assert(keys.subrange(0, i + 1).drop_last() =~= keys.subrange(0, i as int));
                assert(keys.subrange(0, i + 1).last() == entries[i as int].key);
            }
            if entry.value.parent_surface_id.0 == parent.0 {
                self.update_popup_position(entry.key, &entry.value, out);
            }
            i = i + 1;
        }
        assert(keys.subrange(0, i as int) =~= keys);
    }

    /// What a cursor request amounts to.
    pub fn plan_cursor(&self, cursor: &CursorImage) -> (r: CursorPlan)
        requires
            self.wf(),
        ensures
            is_cursor_plan(self@, cursor.status, r),
    {
        match &cursor.status {
            CursorImageStatus::Hidden => CursorPlan::Hide,
            CursorImageStatus::Named(name) => match cursor_icon_from_wayland_name(name.as_str()) {
                Some(icon) => CursorPlan::Named(icon),
                None => CursorPlan::Named(owned("default")),
            },
            CursorImageStatus::Surface { client_surface, hotspot } => {
                let key: (u64, u64) = (client_surface.client.0, client_surface.surface.0);
                match self.cursor_frames.get(key) {
                    None => CursorPlan::Missing,
                    Some(frame) => {
                        let scale: i32 = match self.surface_scale_factor.get(
                            &client_surface.surface.0,
                        ) {
                            Some(scale) => if *scale > 1 {
                                *scale
                            } else {
                                1
                            },
                            None => 1,
                        };
                        CursorPlan::Image {
                            client: client_surface.client,
                            surface: client_surface.surface,
                            hotspot_x: hotspot_in_image(hotspot.x, frame.width, scale),
                            hotspot_y: hotspot_in_image(hotspot.y, frame.height, scale),
                        }
                    },
                }
            },
        }
    }

    /// Takes a new cursor into use, once it is there, or hides it.
    pub fn set_cursor(&mut self, visible: bool, out: &mut Vec<Action>)
        requires
            old(self).wf(),
        ensures
            final(self).wf(),
            step_of(*final(self), final(out)@) == cursor_changed(
                step_of(*old(self), old(out)@),
                visible,
            ),
    {
        let target = match self.pointer_surface {
            Some(surface) => Some(surface),
            None => self.focused_surface,
        };
        self.cursor_visible = visible;
        self.cursor_dirty = true;
        if let Some(surface) = target {
            self.apply_cursor_for_surface(surface, out);
            self.cursor_dirty = false;
        }
    }

    /// Takes note of a message of the server.
    pub fn handle_server_message(&mut self, msg: RecvType<Request>) -> (r: ServerStep)
        requires
            old(self).wf(),
        ensures
            final(self).wf(),
            match msg {
                RecvType::RawBuffer(buffer) => r is Nothing && final(self)@ == (AppModel {
                    cache: Some(buffer.bytes@),
                    ..old(self)@
                }),
                RecvType::Object(Request::Surface(request)) => r == ServerStep::Surface(request)
                    && final(self)@ == old(self)@,
                RecvType::Object(Request::DisplayConfig(config)) => r is Nothing && final(self)@
                    == (AppModel { display_config: Some(config), ..old(self)@ }),
                RecvType::Object(Request::CursorImage(cursor)) => r == ServerStep::Cursor(cursor)
                    && final(self)@ == old(self)@,
                RecvType::Object(_) => r is Nothing && final(self)@ == old(self)@,
            },
    {
        match msg {
            RecvType::RawBuffer(buffer) => {
                self.buffer_cache = Some(
                    UncompressedBufferData::from_pixels(Vec4u8s::from_bytes(buffer.bytes)),
                );
                ServerStep::Nothing
            },
            RecvType::Object(Request::Surface(request)) => ServerStep::Surface(request),
            RecvType::Object(Request::DisplayConfig(config)) => {
                self.server_display_config = Some(config);
                ServerStep::Nothing
            },
            RecvType::Object(Request::CursorImage(cursor)) => ServerStep::Cursor(cursor),
            RecvType::Object(_) => ServerStep::Nothing,
        }
    }

    /// Takes a decoded frame in and says whether to upload it to the window of its surface.
    pub fn decoded_frame(&mut self, frame: &DecodedFrame) -> (upload: bool)
        requires
            old(self).wf(),
        ensures
            final(self).wf(),
            upload == old(self)@.windows.contains_key(frame.surface_id.0),
            final(self)@ == frame_arrived(old(self)@, *frame),
    {
        let ghost before = self@;
        if self.windows.contains_key(&frame.surface_id.0) {
            let _ = self.surfaces_with_frame.insert(frame.surface_id.0);
            return true;
        }
        let client = match self.cursor_surface_clients.get(&frame.surface_id.0) {
            Some(client) => *client,
            None => {
                return false;
            },
        };
        if let Some(image) = bgra_padded_to_rgba(
            &frame.metadata,
            frame.padded_row_bytes,
            frame.data.as_slice(),
        ) {
            let ghost frames = self.cursor_frames@;
            let ghost new = image;
            let key: (u64, u64) = (client.0, frame.surface_id.0);
            self.cursor_frames.insert(key, image);
            proof {
                assert(frames.insert(key, new).map_values(|f: CursorFrame| f@)
                    =~= frames.map_values(|f: CursorFrame| f@).insert(key, new@));
                assert(new@ =~= cursor_frame_of(*frame)->0);
            }
        }
        assert(self@ =~= frame_arrived(before, *frame));
        false
    }

    /// The window system is ready: tell the server what there is, the first time.
    pub fn resumed(&mut self, now: u64, out: &mut Vec<Action>)
        requires
            old(self).wf(),
        ensures
            final(self).wf(),
            step_of(*final(self), final(out)@) == after_resume(step_of(*old(self), old(out)@), now),
    {
        if self.outputs_sent {
            return;
        }
        self.outputs_sent = true;
        self.maybe_send_keymap(out);
        emit(out, Action::Plain(PlainAction::RefreshOutputs { force: true }));
        self.last_outputs_refresh = now;
    }

    /// Looks at the outputs again from time to time. Times are milliseconds of one clock.
    pub fn about_to_wait(&mut self, now: u64, out: &mut Vec<Action>)
        requires
            old(self).wf(),
            now >= old(self)@.last_refresh,
        ensures
            final(self).wf(),
            step_of(*final(self), final(out)@) == (if now - old(self)@.last_refresh
                < OUTPUT_REFRESH_MS {
                step_of(*old(self), old(out)@)
            } else {
                plus_plain(
                    Step {
                        m: AppModel { last_refresh: now, ..old(self)@ },
                        out: seen(old(out)@),
                    },
                    PlainAction::RefreshOutputs { force: false },
                )
            }),
    {
        if now - self.last_outputs_refresh < OUTPUT_REFRESH_MS {
            return;
        }
        self.last_outputs_refresh = now;
        emit(out, Action::Plain(PlainAction::RefreshOutputs { force: false }));
    }

    /// Tells the server how the outputs changed.
    pub fn refresh_outputs(&mut self, current: Vec<OutputInfo>, force: bool) -> (r: Vec<OutputEvent>)
        requires
            old(self).wf(),
        ensures
            final(self).wf(),
            final(self)@ == (AppModel { outputs: output_models(current@), ..old(self)@ }),
            event_models(r@) == (if !force && output_models(current@) == old(self)@.outputs {
                Seq::empty()
            } else {
                output_events(output_models(current@), old(self)@.outputs)
            }),
    {
        let events = refresh_outputs(&self.last_outputs, &current, force);
        self.last_outputs = current;
        events
    }
}

pub open spec fn after_resume(s: Step, now: u64) -> Step {
    if s.m.outputs_sent {
        s
    } else {
        let s = keymap_told(Step { m: AppModel { outputs_sent: true, ..s.m }, ..s });
        let s = plus_plain(s, PlainAction::RefreshOutputs { force: true });
        Step { m: AppModel { last_refresh: now, ..s.m }, ..s }
    }
}

fn hotspot_in_image(at: i32, size: u16, scale: i32) -> (r: u16)
    requires
        scale >= 1,
    ensures
        r == hotspot_pixel(at as int, size as int, scale as int),
{
    let within: i64 = if at < 0 {
        0
    } else if at > size as i32 {
        size as i64
    } else {
        at as i64
    };
    assert(0 <= within * scale <= 65535 * 0x7FFF_FFFF) by (nonlinear_arith)
        requires
            0 <= within <= 65535,
            1 <= scale <= 0x7FFF_FFFF,
    ;
    let pixel: i64 = within * scale as i64;
    if pixel > size as i64 {
        size
    } else {
        pixel as u16
    }
}

/// No serial is zero.
pub proof fn serials_are_not_zero(serial: u32)
    ensures
        following_serial(serial) != 0,
{
}

/// Moving the keyboard to where it is changes nothing.
pub proof fn focus_is_idempotent(s: Step, target: Option<WlSurfaceId>)
    ensures
        focus_moved(focus_moved(s, target), target) == focus_moved(s, target),
{
}

} // verus!
