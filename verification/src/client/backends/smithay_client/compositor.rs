//! Surfaces, pointer and keyboard of the compositor window.
use crate::client::backends::smithay_client::layout::{
    arrange, arranged, at_least_one, representable, shows_all, SurfaceLayout, SurfaceSize,
};
use crate::client::backends::smithay_client::surfaces::{
    apply_patch, is_patch_for, patched, EntryModel, SurfaceEntry,
};
use crate::client::config::KeyboardMode;
use crate::models::surface::{
    BitmapAssignment, BitmapUpdate, ClientSurface, SurfaceState, WlSurfaceId,
};
use crate::models::surface_model::SurfaceModel;
use crate::protocols::wprs::geometry::{Point, Size};
use crate::protocols::wprs::types::Event;
use crate::protocols::wprs::wayland::{
    AxisScroll, AxisSource, KeyInner, KeyState, KeyboardEvent, ModifierState, PointerEvent,
    PointerEventKind,
};
use crate::utils::ieee::F64;
use crate::utils::sorted_map::{in_order, keys_of, lemma_entries, lemma_keys_in_order, SortedMap};
use vstd::prelude::*;

verus! {

/// Something the server has to be told.
#[derive(Debug)]
pub enum Message {
    Pointer(PointerEvent),
    EnterKeyboard { serial: u32, surface_id: WlSurfaceId, keycodes: Vec<u32> },
    LeaveKeyboard { serial: u32 },
    Key(KeyInner),
    Modifiers(ModifierState),
    /// The keymap, which has to be got first.
    Keymap,
}

#[verifier::ext_equal]
pub enum MessageModel {
    Pointer(PointerEvent),
    EnterKeyboard { serial: u32, surface_id: WlSurfaceId, keycodes: Seq<u32> },
    LeaveKeyboard { serial: u32 },
    Key(KeyInner),
    Modifiers(ModifierState),
    Keymap,
}

impl View for Message {
    type V = MessageModel;

    open spec fn view(&self) -> MessageModel {
        match *self {
            Message::Pointer(e) => MessageModel::Pointer(e),
            Message::EnterKeyboard { serial, surface_id, keycodes } => MessageModel::EnterKeyboard {
                serial,
                surface_id,
                keycodes: keycodes@,
            },
            Message::LeaveKeyboard { serial } => MessageModel::LeaveKeyboard { serial },
            Message::Key(key) => MessageModel::Key(key),
            Message::Modifiers(m) => MessageModel::Modifiers(m),
            Message::Keymap => MessageModel::Keymap,
        }
    }
}

pub open spec fn seen(messages: Seq<Message>) -> Seq<MessageModel> {
    Seq::new(messages.len(), |i: int| messages[i]@)
}

fn tell(out: &mut Vec<Message>, message: Message)
    ensures
        seen(final(out)@) == seen(old(out)@).push(message@),
{
    let ghost before = seen(out@);
    let ghost new = message@;
    out.push(message);
    assert(seen(out@) =~= before.push(new));
}

/// The surface under the pointer and the pointer's position in it.
#[derive(Debug, Clone, Copy, PartialEq, Eq, Structural)]
pub struct Hit {
    pub surface_id: WlSurfaceId,
    pub position: Point<F64>,
}

/// An input event. What is under the pointer has been found out where the event came from, by the
/// layout and the pointer's position, last surface first.
#[derive(Debug, Clone, Copy, PartialEq, Eq, Structural)]
pub enum InputEvent {
    /// `left` is the pointer's position in the surface it was over before.
    PointerMotion { at: Point<F64>, hit: Option<Hit>, left: Point<F64> },
    PointerButton { button: u32, pressed: bool, hit: Option<Hit> },
    PointerAxis {
        horizontal: AxisScroll,
        vertical: AxisScroll,
        source: Option<AxisSource>,
        hit: Option<Hit>,
    },
    Keyboard { code: u32, pressed: bool },
    Modifiers(ModifierState),
    Other,
}

/// An event of the compositor window.
#[derive(Debug, Clone, Copy, PartialEq, Eq, Structural)]
pub enum WindowEvent {
    Resized(Size<i32>),
    Redraw,
    Focus(bool),
    Input(InputEvent),
}

pub struct CompositorState {
    pub surfaces: SortedMap<u64, SurfaceEntry>,
    pub layout: Vec<SurfaceLayout>,
    pub hovered_surface: Option<WlSurfaceId>,
    pub focused_surface: Option<WlSurfaceId>,
    pub serial_counter: u32,
    pub pressed_keycodes: SortedMap<u32, ()>,
    pub last_cursor_pos: Point<F64>,
    pub window_size: Size<i32>,
    pub keyboard_mode: KeyboardMode,
    pub keymap_sent: bool,
}

#[verifier::ext_equal]
pub struct CompositorModel {
    pub surfaces: Map<u64, EntryModel>,
    pub hovered: Option<WlSurfaceId>,
    pub focused: Option<WlSurfaceId>,
    pub serial: u32,
    pub pressed: Set<u32>,
    pub cursor: Point<F64>,
    pub window_size: Size<i32>,
    pub keyboard_mode: KeyboardMode,
    pub keymap_sent: bool,
}

pub open spec fn entry_models(m: Map<u64, SurfaceEntry>) -> Map<u64, EntryModel> {
    m.map_values(|e: SurfaceEntry| e@)
}

impl View for CompositorState {
    type V = CompositorModel;

    open spec fn view(&self) -> CompositorModel {
        CompositorModel {
            surfaces: entry_models(self.surfaces@),
            hovered: self.hovered_surface,
            focused: self.focused_surface,
            serial: self.serial_counter,
            pressed: self.pressed_keycodes@.dom(),
            cursor: self.last_cursor_pos,
            window_size: self.window_size,
            keyboard_mode: self.keyboard_mode,
            keymap_sent: self.keymap_sent,
        }
    }
}

/// The state and what the server has yet to be told.
#[verifier::ext_equal]
pub struct Step {
    pub m: CompositorModel,
    pub out: Seq<MessageModel>,
}

pub open spec fn step_of(state: CompositorState, out: Seq<Message>) -> Step {
    Step { m: state@, out: seen(out) }
}

pub open spec fn plus(s: Step, message: MessageModel) -> Step {
    Step { out: s.out.push(message), ..s }
}

/// Serials count up from one and skip zero.
pub open spec fn following_serial(serial: u32) -> u32 {
    if serial == u32::MAX {
        1
    } else {
        (serial + 1) as u32
    }
}

pub open spec fn with_serial(s: Step) -> Step {
    Step { m: CompositorModel { serial: following_serial(s.m.serial), ..s.m }, ..s }
}

pub open spec fn keymap_told(s: Step) -> Step {
    if s.m.keymap_sent {
        s
    } else {
        let s = Step { m: CompositorModel { keymap_sent: true, ..s.m }, ..s };
        if s.m.keyboard_mode is Keymap {
            plus(s, MessageModel::Keymap)
        } else {
            s
        }
    }
}

pub open spec fn keyboard_left(s: Step) -> Step {
    if s.m.focused is Some {
        let s = with_serial(s);
        plus(s, MessageModel::LeaveKeyboard { serial: s.m.serial })
    } else {
        s
    }
}

pub open spec fn keyboard_entered(s: Step, target: Option<WlSurfaceId>) -> Step {
    let s = Step { m: CompositorModel { focused: target, ..s.m }, ..s };
    match target {
        Some(surface_id) => {
            let s = with_serial(s);
            plus(
                s,
                MessageModel::EnterKeyboard {
                    serial: s.m.serial,
                    surface_id,
                    keycodes: in_order(s.m.pressed),
                },
            )
        },
        None => s,
    }
}

/// Moves the keyboard to a surface, or away from all.
pub open spec fn focus_moved(s: Step, target: Option<WlSurfaceId>) -> Step {
    let s = keymap_told(s);
    if s.m.focused == target {
        s
    } else {
        keyboard_entered(keyboard_left(s), target)
    }
}

pub open spec fn pointer_told(s: Step, hit: Hit, kind: PointerEventKind) -> Step {
    plus(
        s,
        MessageModel::Pointer(
            PointerEvent { surface_id: hit.surface_id, position: hit.position, kind },
        ),
    )
}

pub open spec fn hover_left(s: Step, left: Point<F64>) -> Step {
    match s.m.hovered {
        Some(surface_id) => {
            let s = with_serial(s);
            pointer_told(
                s,
                Hit { surface_id, position: left },
                PointerEventKind::Leave { serial: s.m.serial },
            )
        },
        None => s,
    }
}

pub open spec fn hover_entered(s: Step, hit: Option<Hit>) -> Step {
    match hit {
        Some(hit) => {
            let s = with_serial(
                Step { m: CompositorModel { hovered: Some(hit.surface_id), ..s.m }, ..s },
            );
            pointer_told(s, hit, PointerEventKind::Enter { serial: s.m.serial })
        },
        None => Step { m: CompositorModel { hovered: None, ..s.m }, ..s },
    }
}

pub open spec fn hit_surface(hit: Option<Hit>) -> Option<WlSurfaceId> {
    match hit {
        Some(hit) => Some(hit.surface_id),
        None => None,
    }
}

/// The pointer is over another surface than before, or over none: it leaves the one and enters the
/// other.
pub open spec fn hover_moved(s: Step, hit: Option<Hit>, left: Point<F64>) -> Step {
    if s.m.hovered == hit_surface(hit) {
        s
    } else {
        hover_entered(hover_left(s, left), hit)
    }
}

pub open spec fn motion(s: Step, at: Point<F64>, hit: Option<Hit>, left: Point<F64>) -> Step {
    let s = hover_moved(Step { m: CompositorModel { cursor: at, ..s.m }, ..s }, hit, left);
    match hit {
        Some(hit) => pointer_told(s, hit, PointerEventKind::Motion),
        None => s,
    }
}

/// A button goes down or up. Pressing one gives the keyboard to the surface under the pointer.
pub open spec fn button(s: Step, button: u32, pressed: bool, hit: Option<Hit>) -> Step {
    match hit {
        None => s,
        Some(hit) => if pressed {
            let s = with_serial(focus_moved(s, Some(hit.surface_id)));
            pointer_told(s, hit, PointerEventKind::Press { button, serial: s.m.serial })
        } else {
            let s = with_serial(s);
            pointer_told(s, hit, PointerEventKind::Release { button, serial: s.m.serial })
        },
    }
}

/// A key goes down or up. The server is told if a surface has the keyboard.
pub open spec fn key(s: Step, code: u32, pressed: bool) -> Step {
    let m = CompositorModel {
        pressed: if pressed {
            s.m.pressed.insert(code)
        } else {
            s.m.pressed.remove(code)
        },
        ..s.m
    };
    let s = Step { m, ..s };
    if s.m.focused is None {
        s
    } else {
        let s = with_serial(s);
        plus(
            s,
            MessageModel::Key(
                KeyInner {
                    serial: s.m.serial,
                    raw_code: code,
                    state: if pressed {
                        KeyState::Pressed
                    } else {
                        KeyState::Released
                    },
                },
            ),
        )
    }
}

pub open spec fn after_input(s: Step, event: InputEvent) -> Step {
    match event {
        InputEvent::PointerMotion { at, hit, left } => motion(s, at, hit, left),
        InputEvent::PointerButton { button: b, pressed, hit } => button(s, b, pressed, hit),
        InputEvent::PointerAxis { horizontal, vertical, source, hit } => match hit {
            Some(hit) => pointer_told(
                s,
                hit,
                PointerEventKind::Axis { horizontal, vertical, source },
            ),
            None => s,
        },
        InputEvent::Keyboard { code, pressed } => key(s, code, pressed),
        InputEvent::Modifiers(m) => plus(s, MessageModel::Modifiers(m)),
        InputEvent::Other => s,
    }
}

pub open spec fn after_window_event(s: Step, event: WindowEvent) -> Step {
    match event {
        WindowEvent::Resized(size) => Step { m: CompositorModel { window_size: size, ..s.m }, ..s },
        WindowEvent::Redraw => s,
        WindowEvent::Focus(focused) => if focused {
            s
        } else {
            focus_moved(s, None)
        },
        WindowEvent::Input(input) => after_input(s, input),
    }
}

/// The pixels of surfaces after a commit: a new bitmap takes the place of the old one, and a patch
/// changes the one that is there.
pub open spec fn after_state(surfaces: Map<u64, EntryModel>, state: SurfaceModel) -> Map<
    u64,
    EntryModel,
> {
    let surfaces = match state.bitmap {
        Some(Some(bitmap)) => surfaces.insert(
            state.id.0,
            EntryModel {
                id: state.id,
                metadata: bitmap.metadata,
                data: bitmap.data,
                dirty: true,
            },
        ),
        Some(None) => surfaces.remove(state.id.0),
        None => surfaces,
    };
    match state.bitmap_update {
        Some(patch) => if surfaces.contains_key(state.id.0) {
            let entry = surfaces[state.id.0];
            surfaces.insert(
                state.id.0,
                EntryModel {
                    data: patched(
                        entry.data,
                        entry.metadata.stride as int,
                        patch,
                        patch.height as int,
                    ),
                    dirty: true,
                    ..entry
                },
            )
        } else {
            surfaces
        },
        None => surfaces,
    }
}

/// The pixels of surfaces once those of one have been drawn.
pub open spec fn after_upload(surfaces: Map<u64, EntryModel>, surface: u64) -> Map<
    u64,
    EntryModel,
> {
    if surfaces.contains_key(surface) {
        surfaces.insert(surface, EntryModel { dirty: false, ..surfaces[surface] })
    } else {
        surfaces
    }
}

/// Whether the patch of a commit is one for the bitmap it is applied to.
pub open spec fn has_patch(surfaces: Map<u64, EntryModel>, state: SurfaceModel) -> bool {
    state.bitmap_update matches Some(patch) ==> (match state.bitmap {
        Some(Some(bitmap)) => is_patch_for(patch, bitmap.metadata),
        Some(None) => true,
        None => surfaces.contains_key(state.id.0) ==> is_patch_for(
            patch,
            surfaces[state.id.0].metadata,
        ),
    })
}

pub open spec fn after_states(surfaces: Map<u64, EntryModel>, states: Seq<SurfaceState>) -> Map<
    u64,
    EntryModel,
>
    decreases states.len(),
{
    if states.len() == 0 {
        surfaces
    } else {
        after_state(after_states(surfaces, states.drop_last()), states.last()@)
    }
}

pub open spec fn have_patches(surfaces: Map<u64, EntryModel>, states: Seq<SurfaceState>) -> bool {
    forall|i: int|
        0 <= i < states.len() ==> has_patch(
            after_states(surfaces, states.subrange(0, i)),
            (#[trigger] states[i])@,
        )
}

pub open spec fn after_removals(surfaces: Map<u64, EntryModel>, removed: Seq<ClientSurface>) -> Map<
    u64,
    EntryModel,
>
    decreases removed.len(),
{
    if removed.len() == 0 {
        surfaces
    } else {
        after_removals(surfaces, removed.drop_last()).remove(removed.last().surface.0)
    }
}

/// The surfaces by their numbers, with their sizes.
pub open spec fn sizes_of(surfaces: Map<u64, EntryModel>) -> Seq<SurfaceSize> {
    let keys = in_order(surfaces.dom());
    Seq::new(
        keys.len(),
        |i: int|
            SurfaceSize {
                id: surfaces[keys[i]].id,
                width: surfaces[keys[i]].metadata.width,
                height: surfaces[keys[i]].metadata.height,
            },
    )
}

proof fn lemma_models_insert(m: Map<u64, SurfaceEntry>, key: u64, e: SurfaceEntry)
    ensures
        entry_models(m.insert(key, e)) == entry_models(m).insert(key, e@),
{
    assert(entry_models(m.insert(key, e)) =~= entry_models(m).insert(key, e@));
}

proof fn lemma_models_remove(m: Map<u64, SurfaceEntry>, key: u64)
    ensures
        entry_models(m.remove(key)) == entry_models(m).remove(key),
{
    assert(entry_models(m.remove(key)) =~= entry_models(m).remove(key));
}

impl CompositorState {
    pub open spec fn wf(&self) -> bool {
        self.surfaces.wf() && self.pressed_keycodes.wf()
    }

    pub fn new(keyboard_mode: KeyboardMode, window_size: Size<i32>) -> (r: Self)
        ensures
            r.wf(),
            r.layout@.len() == 0,
            r@ == (CompositorModel {
                surfaces: Map::empty(),
                hovered: None,
                focused: None,
                serial: 1,
                pressed: Set::empty(),
                cursor: Point { x: F64 { bits: 0 }, y: F64 { bits: 0 } },
                window_size,
                keyboard_mode,
                keymap_sent: false,
            }),
    {
        let r = CompositorState {
            surfaces: SortedMap::new(),
            layout: Vec::new(),
            hovered_surface: None,
            focused_surface: None,
            serial_counter: 1,
            pressed_keycodes: SortedMap::new(),
            last_cursor_pos: Point { x: F64 { bits: 0 }, y: F64 { bits: 0 } },
            window_size,
            keyboard_mode,
            keymap_sent: false,
        };
        assert(r@.surfaces =~= Map::empty());
        assert(r@.pressed =~= Set::empty());
        r
    }

    fn next_serial(&mut self) -> (r: u32)
        ensures
            final(self)@ == (CompositorModel {
                serial: following_serial(old(self)@.serial),
                ..old(self)@
            }),
            r == final(self)@.serial,
            final(self).layout == old(self).layout,
            old(self).wf() ==> final(self).wf(),
    {
        if self.serial_counter == u32::MAX {
            self.serial_counter = 1;
        } else {
            self.serial_counter = self.serial_counter + 1;
        }
        self.serial_counter
    }

    fn maybe_send_keymap(&mut self, out: &mut Vec<Message>)
        requires
            old(self).wf(),
        ensures
            final(self).wf(),
            final(self).layout == old(self).layout,
            step_of(*final(self), final(out)@) == keymap_told(step_of(*old(self), old(out)@)),
    {
        if self.keymap_sent {
            return ;
        }
        self.keymap_sent = true;
        if self.keyboard_mode == KeyboardMode::Keymap {
            tell(out, Message::Keymap);
        }
    }

    fn leave_keyboard(&mut self, out: &mut Vec<Message>)
        requires
            old(self).wf(),
        ensures
            final(self).wf(),
            final(self).layout == old(self).layout,
            step_of(*final(self), final(out)@) == keyboard_left(step_of(*old(self), old(out)@)),
    {
        if self.focused_surface.is_some() {
            let serial: u32 = self.next_serial();
            tell(out, Message::LeaveKeyboard { serial });
        }
    }

    fn enter_keyboard(&mut self, surface_id: Option<WlSurfaceId>, out: &mut Vec<Message>)
        requires
            old(self).wf(),
        ensures
            final(self).wf(),
            final(self).layout == old(self).layout,
            step_of(*final(self), final(out)@) == keyboard_entered(
                step_of(*old(self), old(out)@),
                surface_id,
            ),
    {
        self.focused_surface = surface_id;
        if let Some(surface_id) = surface_id {
            let serial: u32 = self.next_serial();
            let keycodes = self.pressed_keycodes.keys();
            tell(out, Message::EnterKeyboard { serial, surface_id, keycodes });
        }
    }

    fn set_keyboard_focus(&mut self, surface_id: Option<WlSurfaceId>, out: &mut Vec<Message>)
        requires
            old(self).wf(),
        ensures
            final(self).wf(),
            final(self).layout == old(self).layout,
            step_of(*final(self), final(out)@) == focus_moved(
                step_of(*old(self), old(out)@),
                surface_id,
            ),
    {
        self.maybe_send_keymap(out);
        if self.focused_surface == surface_id {
            return ;
        }
        self.leave_keyboard(out);
        self.enter_keyboard(surface_id, out);
    }

    fn send_pointer_event(&self, hit: Hit, kind: PointerEventKind, out: &mut Vec<Message>)
        ensures
            step_of(*self, final(out)@) == pointer_told(step_of(*self, old(out)@), hit, kind),
    {
        tell(
            out,
            Message::Pointer(
                PointerEvent { surface_id: hit.surface_id, position: hit.position, kind },
            ),
        );
    }

    fn update_hover(&mut self, hit: Option<Hit>, left: Point<F64>, out: &mut Vec<Message>)
        requires
            old(self).wf(),
        ensures
            final(self).wf(),
            final(self).layout == old(self).layout,
            step_of(*final(self), final(out)@) == hover_moved(
                step_of(*old(self), old(out)@),
                hit,
                left,
            ),
    {
        let surface_id = match hit {
            Some(hit) => Some(hit.surface_id),
            None => None,
        };
        if self.hovered_surface == surface_id {
            return ;
        }
        if let Some(prev) = self.hovered_surface {
            let serial: u32 = self.next_serial();
            self.send_pointer_event(
                Hit { surface_id: prev, position: left },
                PointerEventKind::Leave { serial },
                out,
            );
        }
        self.hovered_surface = surface_id;
        if let Some(hit) = hit {
            let serial: u32 = self.next_serial();
            self.send_pointer_event(hit, PointerEventKind::Enter { serial }, out);
        }
    }

    fn press(&mut self, button_code: u32, pressed: bool, hit: Option<Hit>, out: &mut Vec<Message>)
        requires
            old(self).wf(),
        ensures
            final(self).wf(),
            final(self).layout == old(self).layout,
            step_of(*final(self), final(out)@) == button(
                step_of(*old(self), old(out)@),
                button_code,
                pressed,
                hit,
            ),
    {
        if let Some(hit) = hit {
            if pressed {
                self.set_keyboard_focus(Some(hit.surface_id), out);
                let serial: u32 = self.next_serial();
                self.send_pointer_event(
                    hit,
                    PointerEventKind::Press { button: button_code, serial },
                    out,
                );
            } else {
                let serial: u32 = self.next_serial();
                self.send_pointer_event(
                    hit,
                    PointerEventKind::Release { button: button_code, serial },
                    out,
                );
            }
        }
    }

    fn input_key(&mut self, code: u32, pressed: bool, out: &mut Vec<Message>)
        requires
            old(self).wf(),
        ensures
            final(self).wf(),
            final(self).layout == old(self).layout,
            step_of(*final(self), final(out)@) == key(step_of(*old(self), old(out)@), code, pressed),
    {
        let ghost before = self@;
        if pressed {
            self.pressed_keycodes.insert(code, ());
            assert(self@.pressed =~= before.pressed.insert(code));
        } else {
            let _ = self.pressed_keycodes.remove(code);
            assert(self@.pressed =~= before.pressed.remove(code));
        }
        if self.focused_surface.is_none() {
            return ;
        }
        let serial: u32 = self.next_serial();
        let state = if pressed {
            KeyState::Pressed
        } else {
            KeyState::Released
        };
        tell(out, Message::Key(KeyInner { serial, raw_code: code, state }));
    }

    /// Takes an input event into account and says whether it calls for drawing.
    pub fn handle_input(&mut self, event: InputEvent, out: &mut Vec<Message>) -> (redraw: bool)
        requires
            old(self).wf(),
        ensures
            final(self).wf(),
            final(self).layout == old(self).layout,
            redraw == !(event is Other),
            step_of(*final(self), final(out)@) == after_input(step_of(*old(self), old(out)@), event),
    {
        match event {
            InputEvent::PointerMotion { at, hit, left } => {
                self.last_cursor_pos = at;
                self.update_hover(hit, left, out);
                if let Some(hit) = hit {
                    self.send_pointer_event(hit, PointerEventKind::Motion, out);
                }
                true
            },
            InputEvent::PointerButton { button, pressed, hit } => {
                self.press(button, pressed, hit, out);
                true
            },
            InputEvent::PointerAxis { horizontal, vertical, source, hit } => {
                if let Some(hit) = hit {
                    self.send_pointer_event(
                        hit,
                        PointerEventKind::Axis { horizontal, vertical, source },
                        out,
                    );
                }
                true
            },
            InputEvent::Keyboard { code, pressed } => {
                self.input_key(code, pressed, out);
                true
            },
            InputEvent::Modifiers(modifiers) => {
                tell(out, Message::Modifiers(modifiers));
                true
            },
            InputEvent::Other => false,
        }
    }

    /// The sizes of all surfaces, by their numbers.
    pub fn surface_sizes(&self) -> (r: Vec<SurfaceSize>)
        requires
            self.wf(),
        ensures
            r@ == sizes_of(self@.surfaces),
    {
        let ghost entries = self.surfaces.entries@;
        let mut out: Vec<SurfaceSize> = Vec::new();
        let mut i: usize = 0;
        while i < self.surfaces.entries.len()
            invariant
                i <= entries.len(),
                entries == self.surfaces.entries@,
                out@.len() == i,
                forall|j: int|
                    0 <= j < i ==> (#[trigger] out@[j]) == (SurfaceSize {
                        id: entries[j].value.id,
                        width: entries[j].value.metadata.width,
                        height: entries[j].value.metadata.height,
                    }),
            decreases entries.len() - i,
        {
            let entry = &self.surfaces.entries[i].value;
            out.push(
                SurfaceSize {
                    id: entry.id,
                    width: entry.metadata.width,
                    height: entry.metadata.height,
                },
            );
            i = i + 1;
        }
        proof {
            lemma_keys_in_order(entries);
            lemma_entries(entries);
            let keys = keys_of(entries);
            assert(self@.surfaces.dom() =~= self.surfaces@.dom());
            assert forall|j: int| 0 <= j < out@.len() implies out@[j] == sizes_of(
                self@.surfaces,
            )[j] by {
                assert(self.surfaces@.contains_pair(entries[j].key, entries[j].value));
                assert(keys[j] == entries[j].key);
            }
            assert(out@ =~= sizes_of(self@.surfaces));
        }
        out
    }

    /// Finds new places for all surfaces.
    pub fn recompute_layout(&mut self)
        requires
            old(self).wf(),
            representable(sizes_of(old(self)@.surfaces), at_least_one(old(self)@.window_size.w)),
        ensures
            final(self).wf(),
            final(self)@ == old(self)@,
            shows_all(
                final(self).layout@,
                arranged(
                    sizes_of(old(self)@.surfaces),
                    at_least_one(old(self)@.window_size.w),
                ).cells,
            ),
    {
        let sizes = self.surface_sizes();
        self.layout = arrange(&sizes, self.window_size.w);
    }

    /// Takes an event of the compositor window into account and says whether it calls for drawing.
    pub fn handle_window_event(&mut self, event: WindowEvent, out: &mut Vec<Message>) -> (redraw:
        bool)
        requires
            old(self).wf(),
            event matches WindowEvent::Resized(size) ==> representable(
                sizes_of(old(self)@.surfaces),
                at_least_one(size.w),
            ),
        ensures
            final(self).wf(),
            redraw == !(event matches WindowEvent::Input(InputEvent::Other)),
            step_of(*final(self), final(out)@) == after_window_event(
                step_of(*old(self), old(out)@),
                event,
            ),
            if event is Resized {
                shows_all(
                    final(self).layout@,
                    arranged(
                        sizes_of(final(self)@.surfaces),
                        at_least_one(final(self)@.window_size.w),
                    ).cells,
                )
            } else {
                final(self).layout == old(self).layout
            },
    {
        match event {
            WindowEvent::Resized(size) => {
                self.window_size = size;
                self.recompute_layout();
                true
            },
            WindowEvent::Redraw => true,
            WindowEvent::Focus(focused) => {
                if !focused {
                    self.set_keyboard_focus(None, out);
                }
                true
            },
            WindowEvent::Input(input) => self.handle_input(input, out),
        }
    }

    /// Takes a commit into account.
    pub fn apply_surface_state(&mut self, state: &SurfaceState)
        requires
            old(self).wf(),
            has_patch(old(self)@.surfaces, state@),
        ensures
            final(self).wf(),
            final(self).layout == old(self).layout,
            final(self)@ == (CompositorModel {
                surfaces: after_state(old(self)@.surfaces, state@),
                ..old(self)@
            }),
    {
        let ghost before = self@;
        match &state.bitmap {
            Some(BitmapAssignment::New(bitmap)) => {
                let data = bitmap.data.bytes.clone();
                assert(data@ =~= bitmap.data@);
                let entry = SurfaceEntry {
                    id: state.id,
                    metadata: bitmap.metadata,
                    data,
                    dirty: true,
                };
                proof {
                    lemma_models_insert(self.surfaces@, state.id.0, entry);
                }
                self.surfaces.insert(state.id.0, entry);
            },
            Some(BitmapAssignment::Removed) => {
                proof {
                    lemma_models_remove(self.surfaces@, state.id.0);
                }
                let _ = self.surfaces.remove(state.id.0);
            },
            None => {},
        }
        if let Some(BitmapUpdate::Patch { x, y, width, height, stride, data }) = &state.bitmap_update {
            let ghost middle = self.surfaces@;
            if let Some(entry) = self.surfaces.remove(state.id.0) {
                let mut entry = apply_patch(
                    entry,
                    *x,
                    *y,
                    *width,
                    *height,
                    *stride,
                    data.as_slice(),
                );
                entry.dirty = true;
                proof {
                    lemma_models_insert(middle.remove(state.id.0), state.id.0, entry);
                    lemma_models_remove(middle, state.id.0);
                    assert(entry_models(middle).remove(state.id.0).insert(state.id.0, entry@)
                        =~= entry_models(middle).insert(state.id.0, entry@));
                }
                self.surfaces.insert(state.id.0, entry);
            } else {
                proof {
                    assert(middle.remove(state.id.0) =~= middle);
                }
            }
        }
        assert(self@ =~= CompositorModel {
            surfaces: after_state(before.surfaces, state@),
            ..before
        });
    }

    /// Whether the patch of a commit, if it has one, is one for the bitmap it is applied to.
    pub fn can_apply(&self, state: &SurfaceState) -> (r: bool)
        requires
            self.wf(),
        ensures
            r == has_patch(self@.surfaces, state@),
    {
        let Some(BitmapUpdate::Patch { x, y, width, height, stride, data: _ }) =
            &state.bitmap_update else {
            return true;
        };
        let base_stride: i32 = match &state.bitmap {
            Some(BitmapAssignment::New(bitmap)) => bitmap.metadata.stride,
            Some(BitmapAssignment::Removed) => {
                return true;
            },
            None => match self.surfaces.get(state.id.0) {
                Some(entry) => entry.metadata.stride,
                None => {
                    return true;
                },
            },
        };
        *x >= 0 && *y >= 0 && *width >= 0 && *height >= 0 && *stride >= 0 && base_stride >= 0
    }

    /// Notes that the pixels of a surface have been drawn, so that only later ones have to be.
    pub fn uploaded(&mut self, surface_id: WlSurfaceId)
        requires
            old(self).wf(),
        ensures
            final(self).wf(),
            final(self).layout == old(self).layout,
            final(self)@ == (CompositorModel {
                surfaces: after_upload(old(self)@.surfaces, surface_id.0),
                ..old(self)@
            }),
    {
        let ghost before = self@;
        let ghost entries = self.surfaces@;
        if let Some(entry) = self.surfaces.remove(surface_id.0) {
            let mut entry = entry;
            entry.dirty = false;
            proof {
                lemma_models_remove(entries, surface_id.0);
                lemma_models_insert(entries.remove(surface_id.0), surface_id.0, entry);
                assert(before.surfaces.remove(surface_id.0).insert(surface_id.0, entry@)
                    =~= before.surfaces.insert(surface_id.0, entry@));
            }
            self.surfaces.insert(surface_id.0, entry);
        } else {
            assert(entries.remove(surface_id.0) =~= entries);
        }
        assert(self@ =~= CompositorModel {
            surfaces: after_upload(before.surfaces, surface_id.0),
            ..before
        });
    }

    /// Takes what changed on the server into account and says whether anything did. The layout has
    /// to be found anew if so.
    pub fn apply_client_updates(&mut self, updated: &Vec<SurfaceState>, removed: &Vec<ClientSurface>) -> (changed:
        bool)
        requires
            old(self).wf(),
            have_patches(old(self)@.surfaces, updated@),
        ensures
            final(self).wf(),
            final(self).layout == old(self).layout,
            changed == (updated@.len() > 0 || removed@.len() > 0),
            final(self)@ == (CompositorModel {
                surfaces: after_removals(
                    after_states(old(self)@.surfaces, updated@),
                    removed@,
                ),
                ..old(self)@
            }),
    {
        let ghost before = self@;
        let ghost layout = self.layout;
        let mut i: usize = 0;
        assert(updated@.subrange(0, 0) =~= Seq::empty());
        while i < updated.len()
            invariant
                self.wf(),
                self.layout == layout,
                i <= updated@.len(),
                have_patches(before.surfaces, updated@),
                self@ == (CompositorModel {
                    surfaces: after_states(before.surfaces, updated@.subrange(0, i as int)),
                    ..before
                }),
            decreases updated@.len() - i,
        {
            assert(has_patch(
                after_states(before.surfaces, updated@.subrange(0, i as int)),
                updated@[i as int]@,
            ));
            self.apply_surface_state(&updated[i]);
            i = i + 1;
            assert(updated@.subrange(0, i as int).drop_last() =~= updated@.subrange(0, i - 1));
        }
        assert(updated@.subrange(0, i as int) =~= updated@);
        let ghost middle = after_states(before.surfaces, updated@);
        let mut i: usize = 0;
        assert(removed@.subrange(0, 0) =~= Seq::empty());
        while i < removed.len()
            invariant
                self.wf(),
                self.layout == layout,
                i <= removed@.len(),
                self@ == (CompositorModel {
                    surfaces: after_removals(middle, removed@.subrange(0, i as int)),
                    ..before
                }),
            decreases removed@.len() - i,
        {
            proof {
                lemma_models_remove(self.surfaces@, removed@[i as int].surface.0);
            }
            let _ = self.surfaces.remove(removed[i].surface.0);
            i = i + 1;
            assert(removed@.subrange(0, i as int).drop_last() =~= removed@.subrange(0, i - 1));
        }
        assert(removed@.subrange(0, i as int) =~= removed@);
        updated.len() > 0 || removed.len() > 0
    }
}

/// What the server is told by a message other than the keymap.
pub open spec fn is_event(message: Message, event: Option<Event>) -> bool {
    match message {
        Message::Pointer(e) => event matches Some(Event::PointerFrame(frame)) && frame@ == seq![e],
        Message::EnterKeyboard { serial, surface_id, keycodes } => event matches Some(
            Event::KeyboardEvent(
                KeyboardEvent::Enter { serial: n, surface_id: s, keycodes: held, keysyms },
            ),
        ) && n == serial && s == surface_id && held == keycodes && keysyms@.len() == 0,
        Message::LeaveKeyboard { serial } => event == Some(
            Event::KeyboardEvent(KeyboardEvent::Leave { serial }),
        ),
        Message::Key(key) => event == Some(Event::KeyboardEvent(KeyboardEvent::Key(key))),
        Message::Modifiers(modifier_state) => event == Some(
            Event::KeyboardEvent(KeyboardEvent::Modifiers { modifier_state, layout_index: 0 }),
        ),
        Message::Keymap => event is None,
    }
}

pub fn event_for(message: Message) -> (r: Option<Event>)
    ensures
        is_event(message, r),
{
    match message {
        Message::Pointer(e) => {
            let mut frame: Vec<PointerEvent> = Vec::new();
            frame.push(e);
            assert(frame@ =~= seq![e]);
            Some(Event::PointerFrame(frame))
        },
        Message::EnterKeyboard { serial, surface_id, keycodes } => Some(
            Event::KeyboardEvent(
                KeyboardEvent::Enter { serial, surface_id, keycodes, keysyms: Vec::new() },
            ),
        ),
        Message::LeaveKeyboard { serial } => Some(
            Event::KeyboardEvent(KeyboardEvent::Leave { serial }),
        ),
        Message::Key(key) => Some(Event::KeyboardEvent(KeyboardEvent::Key(key))),
        Message::Modifiers(modifier_state) => Some(
            Event::KeyboardEvent(KeyboardEvent::Modifiers { modifier_state, layout_index: 0 }),
        ),
        Message::Keymap => None,
    }
}

/// The keymap is asked for the first time round, where the server is to have it, and never again.
pub proof fn keymap_is_asked_for_once(s: Step, event: WindowEvent)
    ensures
        keymap_told(s).out == (if !s.m.keymap_sent && s.m.keyboard_mode is Keymap {
            s.out.push(MessageModel::Keymap)
        } else {
            s.out
        }),
        keymap_told(keymap_told(s)) == keymap_told(s),
        s.m.keymap_sent ==> after_window_event(s, event).m.keymap_sent && forall|i: int|
            s.out.len() <= i < after_window_event(s, event).out.len()
                ==> #[trigger] after_window_event(s, event).out[i] != MessageModel::Keymap,
{
}

/// The pointer is only ever told to be in the surface it hovers over.
pub proof fn motion_is_told_where_it_hovers(
    s: Step,
    at: Point<F64>,
    hit: Option<Hit>,
    left: Point<F64>,
)
    ensures
        motion(s, at, hit, left).m.hovered == hit_surface(hit),
{
}

/// A press gives the keyboard to the surface it hits.
pub proof fn press_moves_the_keyboard(s: Step, code: u32, hit: Hit)
    ensures
        button(s, code, true, Some(hit)).m.focused == Some(hit.surface_id),
{
}

} // verus!
