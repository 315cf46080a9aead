//! What happens in windows, and what the server is told of it.
use crate::client::backends::winit_wgpu::app::{
    dirty_cursor_applied, edge_cursor, focus_moved, key_told, pointer_entered, pointer_told,
    step_of, App,
};
use crate::client::backends::winit_wgpu::input::{
    linux_button, linux_button_from_winit, linux_keycode, linux_keycode_from_winit, MouseButton,
    ResizeDirection,
};
use crate::client::backends::winit_wgpu::model::{
    cursor_position, emit, has_decorations, plus_plain, with_serial, Action, AppModel, Modifiers,
    PinchGestureState, PlainAction, Step, TouchPhase, ONE_BITS,
};
use crate::client::backends::winit_wgpu::popups::{
    has_root, keyboard_focus_target_for, popups_follow, root, root_is_no_popup,
};
use crate::models::surface::WlSurfaceId;
use crate::protocols::wprs::geometry::Point;
use crate::protocols::wprs::types::Event;
use crate::protocols::wprs::wayland::{
    AxisScroll, AxisSource, KeyState, KeyboardEvent, ModifierState, PointerEvent,
    PointerEventKind, PointerGestureEvent,
};
use crate::protocols::wprs::xdg_shell::{
    DecorationMode, ToplevelClose, ToplevelConfigure, ToplevelEvent, WindowState,
};
use crate::protocols::wprs::geometry::Size;
use crate::utils::ieee::F64;
use vstd::prelude::*;

verus! {

broadcast use vstd::std_specs::hash::group_hash_axioms;

/// An event of the window system. Coordinates are floating-point numbers that have been computed
/// where the event came from.
#[derive(Debug)]
pub enum WindowEvent {
    Resized,
    ScaleFactorChanged,
    /// The place of the window's contents, if the window system tells.
    Moved { inner_pos: Option<Point<i32>> },
    RedrawRequested,
    CloseRequested,
    Focused(bool),
    ModifiersChanged(Modifiers),
    /// The name of the key's place, if it has one.
    KeyboardInput { key: Option<String>, pressed: bool, repeat: bool },
    /// `edge` is the window edge under the pointer, if any.
    CursorMoved {
        physical: Point<F64>,
        window: Point<F64>,
        remote: Point<F64>,
        edge: Option<ResizeDirection>,
    },
    CursorEntered,
    CursorLeft,
    /// `edge` is the window edge under the last position of the pointer, if any.
    MouseInput { pressed: bool, button: MouseButton, edge: Option<ResizeDirection> },
    /// Lines of a wheel, or pixels of a touchpad.
    MouseWheel { horizontal: AxisScroll, vertical: AxisScroll, pixels: bool },
    /// `scale` is what the pinch amounts to so far, and `told` what the server is told of it.
    PinchGesture { phase: TouchPhase, scale: F64, told: F64 },
    /// `told` is the scale to be told along with the rotation.
    RotationGesture { phase: TouchPhase, rotation: F64, told: F64 },
    Other,
}

/// What is done for a window of another size, before its popups follow.
pub open spec fn before_popups(s: Step, surface_id: WlSurfaceId) -> Step {
    let s = plus_plain(s, PlainAction::ResizeRenderer { surface_id });
    if s.m.popups.contains_key(surface_id.0) {
        s
    } else {
        plus_plain(s, PlainAction::SendConfigure { surface_id })
    }
}

/// The window of a surface has another size.
pub open spec fn resized(s: Step, surface_id: WlSurfaceId) -> Step {
    popups_follow(before_popups(s, surface_id), surface_id.0)
}

pub open spec fn moved(
    s: Step,
    surface_id: WlSurfaceId,
    window: u64,
    inner_pos: Option<Point<i32>>,
) -> Step {
    let s = match inner_pos {
        Some(pos) => Step { m: AppModel { inner_pos: s.m.inner_pos.insert(window, pos), ..s.m }, ..s },
        None => s,
    };
    popups_follow(s, surface_id.0)
}

/// The user closes a window: the server is asked to close a toplevel, and the window goes.
pub open spec fn closed(s: Step, surface_id: WlSurfaceId, window: u64) -> Step {
    let s = if s.m.popups.contains_key(surface_id.0) {
        s
    } else {
        plus_plain(s, PlainAction::CloseToplevel { surface_id })
    };
    let s = plus_plain(
        Step {
            m: AppModel {
                windows: s.m.windows.remove(surface_id.0),
                surface_by_window: s.m.surface_by_window.remove(window),
                decorations: s.m.decorations.remove(window),
                overridden: s.m.overridden.remove(window),
                physical_pos: s.m.physical_pos.remove(window),
                ..s.m
            },
            ..s
        },
        PlainAction::DropWindow { surface_id },
    );
    unfocused(s, window)
}

/// A window loses the focus, if it has it.
pub open spec fn unfocused(s: Step, window: u64) -> Step {
    if s.m.focused_window == Some(window) {
        focus_moved(Step { m: AppModel { focused_window: None, ..s.m }, ..s }, None)
    } else {
        s
    }
}

/// Which surface gets the keyboard when a window is focused: a popup that asked for it, or else the
/// toplevel.
pub open spec fn focus_target(m: AppModel, surface: u64) -> WlSurfaceId {
    if m.popups.contains_key(surface) && m.popups[surface].grab_requested {
        WlSurfaceId(surface)
    } else {
        WlSurfaceId(root(m.popups, surface))
    }
}

/// Whether there is a surface to get the keyboard.
pub open spec fn has_focus(m: AppModel, surface: u64) -> bool {
    (m.popups.contains_key(surface) && m.popups[surface].grab_requested) || has_root(
        m.popups,
        surface,
    )
}

pub open spec fn focused(s: Step, surface: u64, window: u64) -> Step {
    focus_moved(
        Step { m: AppModel { focused_window: Some(window), ..s.m }, ..s },
        Some(focus_target(s.m, surface)),
    )
}

pub open spec fn key_state(pressed: bool, repeat: bool) -> KeyState {
    if pressed {
        if repeat {
            KeyState::Repeated
        } else {
            KeyState::Pressed
        }
    } else {
        KeyState::Released
    }
}

/// A key goes down or up. Keys without an evdev code are ignored.
pub open spec fn key_input(s: Step, key: Option<Seq<char>>, pressed: bool, repeat: bool) -> Step {
    match key {
        None => s,
        Some(name) => match linux_keycode(name) {
            None => s,
            Some(code) => {
                let m = AppModel {
                    pressed: if pressed {
                        s.m.pressed.insert(code)
                    } else {
                        s.m.pressed.remove(code)
                    },
                    ..s.m
                };
                key_told(Step { m, ..s }, code, key_state(pressed, repeat))
            },
        },
    }
}

/// The pointer moves. The server is told that it entered before it is told that it moved.
pub open spec fn cursor_moved(
    s: Step,
    surface_id: WlSurfaceId,
    window: u64,
    physical: Point<F64>,
    in_window: Point<F64>,
    remote: Point<F64>,
    edge: Option<ResizeDirection>,
) -> Step {
    if s.m.windows.contains_key(surface_id.0) {
        let s = Step {
            m: AppModel {
                physical_pos: s.m.physical_pos.insert(window, physical),
                window_cursor_pos: s.m.window_cursor_pos.insert(window, in_window),
                ..s.m
            },
            ..s
        };
        motion_told(edge_cursor(s, surface_id, window, edge), surface_id, window, remote)
    } else {
        s
    }
}

/// Tells the server where the pointer is, in its own coordinates.
pub open spec fn motion_told(
    s: Step,
    surface_id: WlSurfaceId,
    window: u64,
    remote: Point<F64>,
) -> Step {
    let s = Step {
        m: AppModel {
            cursor_pos: s.m.cursor_pos.insert(window, remote),
            pointer_surface: Some(surface_id),
            ..s.m
        },
        ..s
    };
    let s = pointer_entered(s, surface_id, window, remote);
    let s = pointer_told(s, surface_id, remote, PointerEventKind::Motion);
    dirty_cursor_applied(s, surface_id)
}

pub open spec fn cursor_entered(s: Step, surface_id: WlSurfaceId, window: u64) -> Step {
    let s = Step { m: AppModel { pointer_surface: Some(surface_id), ..s.m }, ..s };
    let s = pointer_entered(s, surface_id, window, cursor_position(s.m, window));
    dirty_cursor_applied(s, surface_id)
}

pub open spec fn cursor_left(s: Step, surface_id: WlSurfaceId, window: u64) -> Step {
    let s = with_serial(s);
    let s = pointer_told(
        s,
        surface_id,
        cursor_position(s.m, window),
        PointerEventKind::Leave { serial: s.m.serial },
    );
    let pointer_surface = if s.m.pointer_surface == Some(surface_id) {
        None
    } else {
        s.m.pointer_surface
    };
    Step { m: AppModel { inside: s.m.inside.remove(window), pointer_surface, ..s.m }, ..s }
}

/// What a click in a window without decorations does, if it is not for the server: the right button
/// opens the window menu, edges resize, and the left button moves the window while Alt is held.
pub open spec fn window_click(
    s: Step,
    surface_id: WlSurfaceId,
    window: u64,
    pressed: bool,
    button: MouseButton,
    edge: Option<ResizeDirection>,
) -> Option<Step> {
    if pressed && button is Right {
        Some(
            if s.m.physical_pos.contains_key(window) {
                plus_plain(
                    s,
                    PlainAction::ShowWindowMenu { surface_id, at: s.m.physical_pos[window] },
                )
            } else {
                s
            },
        )
    } else if s.m.physical_pos.contains_key(window) && edge is Some {
        Some(
            if pressed {
                plus_plain(s, PlainAction::DragResize { surface_id, direction: edge->0 })
            } else {
                s
            },
        )
    } else if pressed && button is Left && s.m.modifiers.alt {
        Some(plus_plain(s, PlainAction::DragWindow { surface_id }))
    } else {
        None
    }
}

/// Tells the server of a mouse button.
pub open spec fn button_told(
    s: Step,
    surface_id: WlSurfaceId,
    window: u64,
    pressed: bool,
    button: u32,
) -> Step {
    let position = cursor_position(s.m, window);
    let s = with_serial(pointer_entered(s, surface_id, window, position));
    let serial = s.m.serial;
    pointer_told(
        s,
        surface_id,
        position,
        if pressed {
            PointerEventKind::Press { button, serial }
        } else {
            PointerEventKind::Release { button, serial }
        },
    )
}

pub open spec fn mouse_input(
    s: Step,
    surface_id: WlSurfaceId,
    window: u64,
    pressed: bool,
    button: MouseButton,
    edge: Option<ResizeDirection>,
) -> Step {
    if !s.m.windows.contains_key(surface_id.0) {
        s
    } else {
        let click = window_click(s, surface_id, window, pressed, button, edge);
        if !has_decorations(s.m, window) && click is Some {
            click->0
        } else {
            match linux_button(button) {
                Some(code) => button_told(s, surface_id, window, pressed, code),
                None => s,
            }
        }
    }
}

pub open spec fn mouse_wheel(
    s: Step,
    surface_id: WlSurfaceId,
    window: u64,
    horizontal: AxisScroll,
    vertical: AxisScroll,
    pixels: bool,
) -> Step {
    if pixels && !s.m.windows.contains_key(surface_id.0) {
        s
    } else {
        pointer_told(
            s,
            surface_id,
            cursor_position(s.m, window),
            PointerEventKind::Axis {
                horizontal,
                vertical,
                source: Some(
                    if pixels {
                        AxisSource::Finger
                    } else {
                        AxisSource::Wheel
                    },
                ),
            },
        )
    }
}

pub open spec fn no_gesture() -> PinchGestureState {
    PinchGestureState { active_pinch: false, active_rotation: false, scale: F64 { bits: 0 } }
}

/// The gesture on a surface; one that is not known yet is entered.
pub open spec fn gesture(m: AppModel, surface: u64) -> PinchGestureState {
    if m.pinch.contains_key(surface) {
        m.pinch[surface]
    } else {
        no_gesture()
    }
}

pub open spec fn with_gesture(s: Step, surface: u64, state: PinchGestureState) -> Step {
    Step { m: AppModel { pinch: s.m.pinch.insert(surface, state), ..s.m }, ..s }
}

/// A pinch or rotation starts. The server sees one gesture, which begins with the first of the two.
pub open spec fn gesture_started(
    s: Step,
    surface_id: WlSurfaceId,
    window: u64,
    rotation: bool,
) -> Step {
    let state = gesture(s.m, surface_id.0);
    let was_active = state.active_pinch || state.active_rotation;
    let s = with_gesture(
        s,
        surface_id.0,
        PinchGestureState {
            active_pinch: state.active_pinch || !rotation,
            active_rotation: state.active_rotation || rotation,
            scale: if state.scale.is_zero() {
                F64 { bits: ONE_BITS }
            } else {
                state.scale
            },
        },
    );
    if was_active {
        s
    } else {
        let s = with_serial(s);
        plus_plain(
            s,
            PlainAction::Gesture(
                PointerGestureEvent::PinchBegin {
                    surface_id,
                    position: cursor_position(s.m, window),
                    serial: s.m.serial,
                    fingers: 2,
                },
            ),
        )
    }
}

pub open spec fn zero_point() -> Point<F64> {
    Point { x: F64 { bits: 0 }, y: F64 { bits: 0 } }
}

/// A pinch or rotation goes on.
pub open spec fn gesture_moved(
    s: Step,
    surface_id: WlSurfaceId,
    window: u64,
    scale: F64,
    told: F64,
    rotation: F64,
) -> Step {
    let state = gesture(s.m, surface_id.0);
    let s = with_gesture(s, surface_id.0, PinchGestureState { scale, ..state });
    plus_plain(
        s,
        PlainAction::Gesture(
            PointerGestureEvent::PinchUpdate {
                surface_id,
                position: cursor_position(s.m, window),
                delta: zero_point(),
                scale: told,
                rotation,
            },
        ),
    )
}

/// A pinch or rotation ends. The server sees the end of the last of the two.
pub open spec fn gesture_ended(
    s: Step,
    surface_id: WlSurfaceId,
    window: u64,
    rotation: bool,
    cancelled: bool,
) -> Step {
    let state = gesture(s.m, surface_id.0);
    let state = PinchGestureState {
        active_pinch: state.active_pinch && rotation,
        active_rotation: state.active_rotation && !rotation,
        ..state
    };
    if state.active_pinch || state.active_rotation {
        with_gesture(s, surface_id.0, state)
    } else {
        let s = with_serial(
            Step { m: AppModel { pinch: s.m.pinch.remove(surface_id.0), ..s.m }, ..s },
        );
        plus_plain(
            s,
            PlainAction::Gesture(
                PointerGestureEvent::PinchEnd {
                    surface_id,
                    position: cursor_position(s.m, window),
                    serial: s.m.serial,
                    cancelled,
                },
            ),
        )
    }
}

pub open spec fn pinched(
    s: Step,
    surface_id: WlSurfaceId,
    window: u64,
    phase: TouchPhase,
    scale: F64,
    told: F64,
) -> Step {
    match phase {
        TouchPhase::Started => gesture_started(s, surface_id, window, false),
        TouchPhase::Moved => gesture_moved(s, surface_id, window, scale, told, F64 { bits: 0 }),
        TouchPhase::Ended => gesture_ended(s, surface_id, window, false, false),
        TouchPhase::Cancelled => gesture_ended(s, surface_id, window, false, true),
    }
}

pub open spec fn rotated(
    s: Step,
    surface_id: WlSurfaceId,
    window: u64,
    phase: TouchPhase,
    rotation: F64,
    told: F64,
) -> Step {
    match phase {
        TouchPhase::Started => gesture_started(s, surface_id, window, true),
        TouchPhase::Moved => gesture_moved(
            s,
            surface_id,
            window,
            gesture(s.m, surface_id.0).scale,
            told,
            rotation,
        ),
        TouchPhase::Ended => gesture_ended(s, surface_id, window, true, false),
        TouchPhase::Cancelled => gesture_ended(s, surface_id, window, true, true),
    }
}

/// What an event in the window of a surface leads to.
pub open spec fn after_surface_event(
    s: Step,
    surface_id: WlSurfaceId,
    window: u64,
    event: WindowEvent,
) -> Step {
    let shown = s.m.windows.contains_key(surface_id.0);
    match event {
        WindowEvent::Resized | WindowEvent::ScaleFactorChanged => if shown {
            resized(s, surface_id)
        } else {
            s
        },
        WindowEvent::Moved { inner_pos } => if shown {
            moved(s, surface_id, window, inner_pos)
        } else {
            s
        },
        WindowEvent::RedrawRequested => if shown {
            plus_plain(s, PlainAction::Render { surface_id })
        } else {
            s
        },
        WindowEvent::CloseRequested => if shown {
            closed(s, surface_id, window)
        } else {
            s
        },
        WindowEvent::Focused(true) => focused(s, surface_id.0, window),
        WindowEvent::Focused(false) => unfocused(s, window),
        WindowEvent::ModifiersChanged(modifiers) => plus_plain(
            Step { m: AppModel { modifiers, ..s.m }, ..s },
            PlainAction::TellModifiers(modifiers),
        ),
        WindowEvent::KeyboardInput { key, pressed, repeat } => key_input(
            s,
            match key {
                Some(name) => Some(name@),
                None => None,
            },
            pressed,
            repeat,
        ),
        WindowEvent::CursorMoved { physical, window: in_window, remote, edge } => cursor_moved(
            s,
            surface_id,
            window,
            physical,
            in_window,
            remote,
            edge,
        ),
        WindowEvent::CursorEntered => cursor_entered(s, surface_id, window),
        WindowEvent::CursorLeft => cursor_left(s, surface_id, window),
        WindowEvent::MouseInput { pressed, button, edge } => mouse_input(
            s,
            surface_id,
            window,
            pressed,
            button,
            edge,
        ),
        WindowEvent::MouseWheel { horizontal, vertical, pixels } => mouse_wheel(
            s,
            surface_id,
            window,
            horizontal,
            vertical,
            pixels,
        ),
        WindowEvent::PinchGesture { phase, scale, told } => pinched(
            s,
            surface_id,
            window,
            phase,
            scale,
            told,
        ),
        WindowEvent::RotationGesture { phase, rotation, told } => rotated(
            s,
            surface_id,
            window,
            phase,
            rotation,
            told,
        ),
        WindowEvent::Other => s,
    }
}

/// What an event in a window leads to: nothing, where the window belongs to no surface.
pub open spec fn after_event(s: Step, window: u64, event: WindowEvent) -> Step {
    if s.m.surface_by_window.contains_key(window) {
        after_surface_event(s, WlSurfaceId(s.m.surface_by_window[window]), window, event)
    } else {
        s
    }
}

impl App {
    fn resize_window(&mut self, surface_id: WlSurfaceId, out: &mut Vec<Action>)
        requires
            old(self).wf(),
        ensures
            final(self).wf(),
            step_of(*final(self), final(out)@) == resized(step_of(*old(self), old(out)@), surface_id),
    {
        emit(out, Action::Plain(PlainAction::ResizeRenderer { surface_id }));
        if !self.popup_state_by_surface.contains(surface_id.0) {
            emit(out, Action::Plain(PlainAction::SendConfigure { surface_id }));
        }
        self.update_popups_for_parent(surface_id, out);
    }

    fn move_window(
        &mut self,
        surface_id: WlSurfaceId,
        window: u64,
        inner_pos: Option<Point<i32>>,
        out: &mut Vec<Action>,
    )
        requires
            old(self).wf(),
        ensures
            final(self).wf(),
            step_of(*final(self), final(out)@) == moved(
                step_of(*old(self), old(out)@),
                surface_id,
                window,
                inner_pos,
            ),
    {
        if let Some(pos) = inner_pos {
            let _ = self.last_window_inner_pos.insert(window, pos);
        }
        self.update_popups_for_parent(surface_id, out);
    }

    fn unfocus_window(&mut self, window: u64, out: &mut Vec<Action>)
        requires
            old(self).wf(),
        ensures
            final(self).wf(),
            step_of(*final(self), final(out)@) == unfocused(step_of(*old(self), old(out)@), window),
    {
        if self.focused_window == Some(window) {
            self.focused_window = None;
            self.set_keyboard_focus(None, out);
        }
    }

    fn close_window(&mut self, surface_id: WlSurfaceId, window: u64, out: &mut Vec<Action>)
        requires
            old(self).wf(),
        ensures
            final(self).wf(),
            step_of(*final(self), final(out)@) == closed(
                step_of(*old(self), old(out)@),
                surface_id,
                window,
            ),
    {
        if !self.popup_state_by_surface.contains(surface_id.0) {
            emit(out, Action::Plain(PlainAction::CloseToplevel { surface_id }));
        }
        let _ = self.windows.remove(&surface_id.0);
        let _ = self.surface_by_window.remove(&window);
        let _ = self.window_has_decorations.remove(&window);
        let _ = self.window_cursor_overridden.remove(&window);
        let _ = self.last_window_cursor_pos_physical.remove(&window);
        emit(out, Action::Plain(PlainAction::DropWindow { surface_id }));
        self.unfocus_window(window, out);
    }

    fn focus_window(&mut self, surface_id: WlSurfaceId, window: u64, out: &mut Vec<Action>)
        requires
            old(self).wf(),
            has_focus(old(self)@, surface_id.0),
        ensures
            final(self).wf(),
            step_of(*final(self), final(out)@) == focused(
                step_of(*old(self), old(out)@),
                surface_id.0,
                window,
            ),
    {
        self.focused_window = Some(window);
        let grabbed = match self.popup_state_by_surface.get(surface_id.0) {
            Some(popup) => popup.grab_requested,
            None => false,
        };
        let target = if grabbed {
            surface_id
        } else {
            keyboard_focus_target_for(&self.popup_state_by_surface, surface_id)
        };
        self.set_keyboard_focus(Some(target), out);
    }

    fn input_key(
        &mut self,
        key: Option<String>,
        pressed: bool,
        repeat: bool,
        out: &mut Vec<Action>,
    )
        requires
            old(self).wf(),
        ensures
            final(self).wf(),
            step_of(*final(self), final(out)@) == key_input(
                step_of(*old(self), old(out)@),
                match key {
                    Some(name) => Some(name@),
                    None => None,
                },
                pressed,
                repeat,
            ),
    {
        let name = match key {
            Some(name) => name,
            None => {
                return ;
            },
        };
        let code: u32 = match linux_keycode_from_winit(name.as_str()) {
            Some(code) => code,
            None => {
                return ;
            },
        };
        let state = if pressed {
            if repeat {
                KeyState::Repeated
            } else {
                KeyState::Pressed
            }
        } else {
            KeyState::Released
        };
        let ghost before = self@;
        if pressed {
            self.pressed_keycodes.insert(code, ());
            assert(self@.pressed =~= before.pressed.insert(code));
        } else {
            let _ = self.pressed_keycodes.remove(code);
            assert(self@.pressed =~= before.pressed.remove(code));
        }
        self.send_key(code, state, out);
    }

    fn tell_motion(
        &mut self,
        surface_id: WlSurfaceId,
        window: u64,
        remote: Point<F64>,
        out: &mut Vec<Action>,
    )
        requires
            old(self).wf(),
        ensures
            final(self).wf(),
            step_of(*final(self), final(out)@) == motion_told(
                step_of(*old(self), old(out)@),
                surface_id,
                window,
                remote,
            ),
    {
        let _ = self.last_cursor_pos.insert(window, remote);
        self.pointer_surface = Some(surface_id);
        self.enter_pointer(surface_id, window, remote, out);
        self.send_pointer_event(surface_id, remote, PointerEventKind::Motion, out);
        self.apply_dirty_cursor(surface_id, out);
    }

    fn move_cursor(
        &mut self,
        surface_id: WlSurfaceId,
        window: u64,
        physical: Point<F64>,
        in_window: Point<F64>,
        remote: Point<F64>,
        edge: Option<ResizeDirection>,
        out: &mut Vec<Action>,
    )
        requires
            old(self).wf(),
        ensures
            final(self).wf(),
            step_of(*final(self), final(out)@) == cursor_moved(
                step_of(*old(self), old(out)@),
                surface_id,
                window,
                physical,
                in_window,
                remote,
                edge,
            ),
    {
        if !self.windows.contains_key(&surface_id.0) {
            return ;
        }
        let _ = self.last_window_cursor_pos_physical.insert(window, physical);
        let _ = self.last_window_cursor_pos.insert(window, in_window);
        self.update_decorationless_cursor(surface_id, window, edge, out);
        self.tell_motion(surface_id, window, remote, out);
    }

    fn enter_cursor(&mut self, surface_id: WlSurfaceId, window: u64, out: &mut Vec<Action>)
        requires
            old(self).wf(),
        ensures
            final(self).wf(),
            step_of(*final(self), final(out)@) == cursor_entered(
                step_of(*old(self), old(out)@),
                surface_id,
                window,
            ),
    {
        self.pointer_surface = Some(surface_id);
        let pos = self.cursor_pos_for(window);
        self.enter_pointer(surface_id, window, pos, out);
        self.apply_dirty_cursor(surface_id, out);
    }

    fn leave_cursor(&mut self, surface_id: WlSurfaceId, window: u64, out: &mut Vec<Action>)
        requires
            old(self).wf(),
        ensures
            final(self).wf(),
            step_of(*final(self), final(out)@) == cursor_left(
                step_of(*old(self), old(out)@),
                surface_id,
                window,
            ),
    {
        let pos = self.cursor_pos_for(window);
        let serial: u32 = self.next_serial();
        self.send_pointer_event(surface_id, pos, PointerEventKind::Leave { serial }, out);
        let _ = self.pointer_inside.remove(&window);
        if self.pointer_surface == Some(surface_id) {
            self.pointer_surface = None;
        }
    }

    /// Whether a click was for the window itself, in which case it has been dealt with.
    fn click_window(
        &self,
        surface_id: WlSurfaceId,
        window: u64,
        pressed: bool,
        button: MouseButton,
        edge: Option<ResizeDirection>,
        out: &mut Vec<Action>,
    ) -> (handled: bool)
        ensures
            match window_click(
                step_of(*self, old(out)@),
                surface_id,
                window,
                pressed,
                button,
                edge,
            ) {
                Some(step) => handled && step_of(*self, final(out)@) == step,
                None => !handled && final(out)@ == old(out)@,
            },
    {
        let last = match self.last_window_cursor_pos_physical.get(&window) {
            Some(pos) => Some(*pos),
            None => None,
        };
        if pressed && button == MouseButton::Right {
            if let Some(at) = last {
                emit(out, Action::Plain(PlainAction::ShowWindowMenu { surface_id, at }));
            }
            return true;
        }
        if last.is_some() {
            if let Some(direction) = edge {
                if pressed {
                    emit(out, Action::Plain(PlainAction::DragResize { surface_id, direction }));
                }
                return true;
            }
        }
        if pressed && button == MouseButton::Left && self.local_modifiers.alt {
            emit(out, Action::Plain(PlainAction::DragWindow { surface_id }));
            return true;
        }
        false
    }

    fn tell_button(
        &mut self,
        surface_id: WlSurfaceId,
        window: u64,
        pressed: bool,
        button: u32,
        out: &mut Vec<Action>,
    )
        requires
            old(self).wf(),
        ensures
            final(self).wf(),
            step_of(*final(self), final(out)@) == button_told(
                step_of(*old(self), old(out)@),
                surface_id,
                window,
                pressed,
                button,
            ),
    {
        let pos = self.cursor_pos_for(window);
        self.enter_pointer(surface_id, window, pos, out);
        let serial: u32 = self.next_serial();
        let kind = if pressed {
            PointerEventKind::Press { button, serial }
        } else {
            PointerEventKind::Release { button, serial }
        };
        self.send_pointer_event(surface_id, pos, kind, out);
    }

    fn input_mouse(
        &mut self,
        surface_id: WlSurfaceId,
        window: u64,
        pressed: bool,
        button: MouseButton,
        edge: Option<ResizeDirection>,
        out: &mut Vec<Action>,
    )
        requires
            old(self).wf(),
        ensures
            final(self).wf(),
            step_of(*final(self), final(out)@) == mouse_input(
                step_of(*old(self), old(out)@),
                surface_id,
                window,
                pressed,
                button,
                edge,
            ),
    {
        if !self.windows.contains_key(&surface_id.0) {
            return ;
        }
        if !self.window_has_decorations(window) {
            if self.click_window(surface_id, window, pressed, button, edge, out) {
                return ;
            }
        }
        if let Some(code) = linux_button_from_winit(button) {
            self.tell_button(surface_id, window, pressed, code, out);
        }
    }

    fn scroll(
        &mut self,
        surface_id: WlSurfaceId,
        window: u64,
        horizontal: AxisScroll,
        vertical: AxisScroll,
        pixels: bool,
        out: &mut Vec<Action>,
    )
        requires
            old(self).wf(),
        ensures
            final(self).wf(),
            step_of(*final(self), final(out)@) == mouse_wheel(
                step_of(*old(self), old(out)@),
                surface_id,
                window,
                horizontal,
                vertical,
                pixels,
            ),
    {
        if pixels && !self.windows.contains_key(&surface_id.0) {
            return ;
        }
        let pos = self.cursor_pos_for(window);
        let source = if pixels {
            Some(AxisSource::Finger)
        } else {
            Some(AxisSource::Wheel)
        };
        self.send_pointer_event(
            surface_id,
            pos,
            PointerEventKind::Axis { horizontal, vertical, source },
            out,
        );
    }

    /// The gesture on a surface, for computing what it amounts to next.
    pub fn gesture_state(&self, surface_id: WlSurfaceId) -> (r: PinchGestureState)
        ensures
            r == gesture(self@, surface_id.0),
    {
        match self.pinch_state.get(&surface_id.0) {
            Some(state) => *state,
            None => PinchGestureState {
                active_pinch: false,
                active_rotation: false,
                scale: F64 { bits: 0 },
            },
        }
    }

    fn start_gesture(
        &mut self,
        surface_id: WlSurfaceId,
        window: u64,
        rotation: bool,
        out: &mut Vec<Action>,
    )
        requires
            old(self).wf(),
        ensures
            final(self).wf(),
            step_of(*final(self), final(out)@) == gesture_started(
                step_of(*old(self), old(out)@),
                surface_id,
                window,
                rotation,
            ),
    {
        let position = self.cursor_pos_for(window);
        let mut state = self.gesture_state(surface_id);
        let was_active = state.active_pinch || state.active_rotation;
        if rotation {
            state.active_rotation = true;
        } else {
            state.active_pinch = true;
        }
        if state.scale.bits % 0x8000_0000_0000_0000 == 0 {
            state.scale = F64 { bits: ONE_BITS };
        }
        let _ = self.pinch_state.insert(surface_id.0, state);
        if !was_active {
            let serial: u32 = self.next_serial();
            emit(
                out,
                Action::Plain(
                    PlainAction::Gesture(
                        PointerGestureEvent::PinchBegin { surface_id, position, serial, fingers: 2 },
                    ),
                ),
            );
        }
    }

    fn move_gesture(
        &mut self,
        surface_id: WlSurfaceId,
        window: u64,
        scale: F64,
        told: F64,
        rotation: F64,
        out: &mut Vec<Action>,
    )
        requires
            old(self).wf(),
        ensures
            final(self).wf(),
            step_of(*final(self), final(out)@) == gesture_moved(
                step_of(*old(self), old(out)@),
                surface_id,
                window,
                scale,
                told,
                rotation,
            ),
    {
        let position = self.cursor_pos_for(window);
        let mut state = self.gesture_state(surface_id);
        state.scale = scale;
        let _ = self.pinch_state.insert(surface_id.0, state);
        emit(
            out,
            Action::Plain(
                PlainAction::Gesture(
                    PointerGestureEvent::PinchUpdate {
                        surface_id,
                        position,
                        delta: Point { x: F64 { bits: 0 }, y: F64 { bits: 0 } },
                        scale: told,
                        rotation,
                    },
                ),
            ),
        );
    }

    fn end_gesture(
        &mut self,
        surface_id: WlSurfaceId,
        window: u64,
        rotation: bool,
        cancelled: bool,
        out: &mut Vec<Action>,
    )
        requires
            old(self).wf(),
        ensures
            final(self).wf(),
            step_of(*final(self), final(out)@) == gesture_ended(
                step_of(*old(self), old(out)@),
                surface_id,
                window,
                rotation,
                cancelled,
            ),
    {
        let position = self.cursor_pos_for(window);
        let mut state = self.gesture_state(surface_id);
        if rotation {
            state.active_rotation = false;
        } else {
            state.active_pinch = false;
        }
        if state.active_pinch || state.active_rotation {
            let _ = self.pinch_state.insert(surface_id.0, state);
        } else {
            let _ = self.pinch_state.remove(&surface_id.0);
            let serial: u32 = self.next_serial();
            emit(
                out,
                Action::Plain(
                    PlainAction::Gesture(
                        PointerGestureEvent::PinchEnd { surface_id, position, serial, cancelled },
                    ),
                ),
            );
        }
    }

    fn surface_event(
        &mut self,
        surface_id: WlSurfaceId,
        window: u64,
        event: WindowEvent,
        out: &mut Vec<Action>,
    )
        requires
            old(self).wf(),
            event matches WindowEvent::Focused(true) ==> has_focus(old(self)@, surface_id.0),
        ensures
            final(self).wf(),
            step_of(*final(self), final(out)@) == after_surface_event(
                step_of(*old(self), old(out)@),
                surface_id,
                window,
                event,
            ),
    {
        let shown = self.windows.contains_key(&surface_id.0);
        match event {
            WindowEvent::Resized => {
                if shown {
                    self.resize_window(surface_id, out);
                }
            },
            WindowEvent::ScaleFactorChanged => {
                if shown {
                    self.resize_window(surface_id, out);
                }
            },
            WindowEvent::Moved { inner_pos } => {
                if shown {
                    self.move_window(surface_id, window, inner_pos, out);
                }
            },
            WindowEvent::RedrawRequested => {
                if shown {
                    emit(out, Action::Plain(PlainAction::Render { surface_id }));
                }
            },
            WindowEvent::CloseRequested => {
                if shown {
                    self.close_window(surface_id, window, out);
                }
            },
            WindowEvent::Focused(gained) => {
                if gained {
                    self.focus_window(surface_id, window, out);
                } else {
                    self.unfocus_window(window, out);
                }
            },
            WindowEvent::ModifiersChanged(modifiers) => {
                self.local_modifiers = modifiers;
                emit(out, Action::Plain(PlainAction::TellModifiers(modifiers)));
            },
            WindowEvent::KeyboardInput { key, pressed, repeat } => {
                self.input_key(key, pressed, repeat, out);
            },
            WindowEvent::CursorMoved { physical, window: in_window, remote, edge } => {
                self.move_cursor(surface_id, window, physical, in_window, remote, edge, out);
            },
            WindowEvent::CursorEntered => {
                self.enter_cursor(surface_id, window, out);
            },
            WindowEvent::CursorLeft => {
                self.leave_cursor(surface_id, window, out);
            },
            WindowEvent::MouseInput { pressed, button, edge } => {
                self.input_mouse(surface_id, window, pressed, button, edge, out);
            },
            WindowEvent::MouseWheel { horizontal, vertical, pixels } => {
                self.scroll(surface_id, window, horizontal, vertical, pixels, out);
            },
            WindowEvent::PinchGesture { phase, scale, told } => match phase {
                TouchPhase::Started => {
                    self.start_gesture(surface_id, window, false, out);
                },
                TouchPhase::Moved => {
                    self.move_gesture(surface_id, window, scale, told, F64 { bits: 0 }, out);
                },
                TouchPhase::Ended => {
                    self.end_gesture(surface_id, window, false, false, out);
                },
                TouchPhase::Cancelled => {
                    self.end_gesture(surface_id, window, false, true, out);
                },
            },
            WindowEvent::RotationGesture { phase, rotation, told } => match phase {
                TouchPhase::Started => {
                    self.start_gesture(surface_id, window, true, out);
                },
                TouchPhase::Moved => {
                    let scale = self.gesture_state(surface_id).scale;
                    self.move_gesture(surface_id, window, scale, told, rotation, out);
                },
                TouchPhase::Ended => {
                    self.end_gesture(surface_id, window, true, false, out);
                },
                TouchPhase::Cancelled => {
                    self.end_gesture(surface_id, window, true, true, out);
                },
            },
            WindowEvent::Other => {},
        }
    }

    /// Takes an event of the window system into account and says what has to be done about it.
    pub fn window_event(&mut self, window: u64, event: WindowEvent, out: &mut Vec<Action>)
        requires
            old(self).wf(),
            event matches WindowEvent::Focused(true) ==> (
            old(self)@.surface_by_window.contains_key(window) ==> has_focus(
                old(self)@,
                old(self)@.surface_by_window[window],
            )),
        ensures
            final(self).wf(),
            step_of(*final(self), final(out)@) == after_event(
                step_of(*old(self), old(out)@),
                window,
                event,
            ),
    {
        let surface: u64 = match self.surface_by_window.get(&window) {
            Some(surface) => *surface,
            None => {
                return ;
            },
        };
        self.surface_event(WlSurfaceId(surface), window, event, out);
    }
}

/// The message by which the server learns the size of a window, in logical points of its own.
pub fn toplevel_configure(surface_id: WlSurfaceId, width: u32, height: u32) -> (r: Event)
    ensures
        r == Event::Toplevel(
            ToplevelEvent::Configure(
                ToplevelConfigure {
                    surface_id,
                    new_size: Size { w: nonzero(width), h: nonzero(height) },
                    suggested_bounds: None,
                    decoration_mode: DecorationMode::Server,
                    state: WindowState { bits: 0 },
                },
            ),
        ),
{
    let w = if width == 0 {
        None
    } else {
        Some(width)
    };
    let h = if height == 0 {
        None
    } else {
        Some(height)
    };
    Event::Toplevel(
        ToplevelEvent::Configure(
            ToplevelConfigure {
                surface_id,
                new_size: Size { w, h },
                suggested_bounds: None,
                decoration_mode: DecorationMode::Server,
                state: WindowState { bits: 0 },
            },
        ),
    )
}

pub open spec fn nonzero(n: u32) -> Option<u32> {
    if n == 0 {
        None
    } else {
        Some(n)
    }
}

/// What the server is told for an action, if anything.
pub open spec fn is_message(action: Action, event: Option<Event>) -> bool {
    match action {
        Action::Plain(PlainAction::Pointer(e)) => event matches Some(Event::PointerFrame(frame))
            && frame@ == seq![e],
        Action::Plain(PlainAction::Gesture(e)) => event == Some(Event::PointerGesture(e)),
        Action::Plain(PlainAction::LeaveKeyboard { serial }) => event == Some(
            Event::KeyboardEvent(KeyboardEvent::Leave { serial }),
        ),
        Action::Plain(PlainAction::Key(key)) => event == Some(
            Event::KeyboardEvent(KeyboardEvent::Key(key)),
        ),
        Action::Plain(PlainAction::TellModifiers(m)) => event == Some(
            Event::KeyboardEvent(
                KeyboardEvent::Modifiers {
                    modifier_state: ModifierState {
                        ctrl: m.ctrl,
                        alt: m.alt,
                        shift: m.shift,
                        caps_lock: false,
                        logo: m.logo,
                        num_lock: false,
                    },
                    layout_index: 0,
                },
            ),
        ),
        Action::Plain(PlainAction::CloseToplevel { surface_id }) => event == Some(
            Event::Toplevel(ToplevelEvent::Close(ToplevelClose { surface_id })),
        ),
        Action::EnterKeyboard { serial, surface_id, keycodes } => event matches Some(
            Event::KeyboardEvent(
                KeyboardEvent::Enter { serial: n, surface_id: s, keycodes: held, keysyms },
            ),
        ) && n == serial && s == surface_id && held == keycodes && keysyms@.len() == 0,
        _ => event is None,
    }
}

/// The message for an action that only tells the server something. Other actions have none.
pub fn message_for(action: Action) -> (r: Option<Event>)
    ensures
        is_message(action, r),
{
    match action {
        Action::Plain(PlainAction::Pointer(e)) => {
            let mut frame: Vec<PointerEvent> = Vec::new();
            frame.push(e);
            assert(frame@ =~= seq![e]);
            Some(Event::PointerFrame(frame))
        },
        Action::Plain(PlainAction::Gesture(e)) => Some(Event::PointerGesture(e)),
        Action::Plain(PlainAction::LeaveKeyboard { serial }) => Some(
            Event::KeyboardEvent(KeyboardEvent::Leave { serial }),
        ),
        Action::Plain(PlainAction::Key(key)) => Some(
            Event::KeyboardEvent(KeyboardEvent::Key(key)),
        ),
        Action::Plain(PlainAction::TellModifiers(m)) => Some(
            Event::KeyboardEvent(
                KeyboardEvent::Modifiers {
                    modifier_state: ModifierState {
                        ctrl: m.ctrl,
                        alt: m.alt,
                        shift: m.shift,
                        caps_lock: false,
                        logo: m.logo,
                        num_lock: false,
                    },
                    layout_index: 0,
                },
            ),
        ),
        Action::Plain(PlainAction::CloseToplevel { surface_id }) => Some(
            Event::Toplevel(ToplevelEvent::Close(ToplevelClose { surface_id })),
        ),
        Action::EnterKeyboard { serial, surface_id, keycodes } => Some(
            Event::KeyboardEvent(
                KeyboardEvent::Enter { serial, surface_id, keycodes, keysyms: Vec::new() },
            ),
        ),
        _ => None,
    }
}

/// No popup gets the keyboard but one that asked for it and is focused itself.
pub proof fn only_grabbing_popups_get_the_keyboard(m: AppModel, surface: u64)
    requires
        has_focus(m, surface),
        m.popups.contains_key(focus_target(m, surface).0),
    ensures
        focus_target(m, surface).0 == surface,
        m.popups[surface].grab_requested,
{
    if !(m.popups.contains_key(surface) && m.popups[surface].grab_requested) {
        root_is_no_popup(m.popups, surface);
    }
}

/// The server is told that the pointer entered a window before it is told anything else of it
/// there.
pub proof fn pointer_enters_before_it_moves(
    s: Step,
    surface_id: WlSurfaceId,
    window: u64,
    physical: Point<F64>,
    in_window: Point<F64>,
    remote: Point<F64>,
    edge: Option<ResizeDirection>,
)
    requires
        s.m.windows.contains_key(surface_id.0),
    ensures
        cursor_moved(s, surface_id, window, physical, in_window, remote, edge).m.inside.contains(
            window,
        ),
{
}

/// Leaving a window undoes entering it.
pub proof fn leaving_undoes_entering(s: Step, surface_id: WlSurfaceId, window: u64)
    requires
        !s.m.inside.contains(window),
    ensures
        cursor_left(cursor_entered(s, surface_id, window), surface_id, window).m.inside =~= s.m.inside,
        cursor_left(cursor_entered(s, surface_id, window), surface_id, window).m.pointer_surface is None,
{
}

/// A gesture that starts and ends with nothing else going on leaves nothing behind but what it told
/// the server: a beginning and an end.
pub proof fn gesture_begins_and_ends(s: Step, surface_id: WlSurfaceId, window: u64, rotation: bool)
    requires
        !s.m.pinch.contains_key(surface_id.0),
    ensures
        ({
            let end = gesture_ended(
                gesture_started(s, surface_id, window, rotation),
                surface_id,
                window,
                rotation,
                false,
            );
            &&& end.m.pinch =~= s.m.pinch
            &&& end.out.len() == s.out.len() + 2
        }),
{
}

} // verus!
