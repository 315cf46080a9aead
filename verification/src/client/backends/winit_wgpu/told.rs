//! What the server learns of the user's input, event by event.
use crate::client::backends::winit_wgpu::app::{
    after_resume, cursor_changed, cursor_frame_of, frame_arrived, hotspot_pixel, initial,
    is_cursor_plan, CursorPlan, OUTPUT_REFRESH_MS,
};
use crate::client::backends::winit_wgpu::events::{after_event, is_message, WindowEvent};
use crate::client::backends::winit_wgpu::frames::DecodedFrame;
use crate::client::backends::winit_wgpu::input::{
    cursor_icon, linux_keycode, MouseButton, ResizeDirection,
};
use crate::client::backends::winit_wgpu::model::{
    Action, ActionModel, AppModel, Modifiers, PlainAction, Step, TouchPhase,
};
use crate::client::backends::winit_wgpu::popups::{
    ancestor, clamped_sum, has_offset, lemma_root, placed_popups, placement,
};
use crate::client::backends::winit_wgpu::surfaces::{
    commit_finished, commit_noted, surface_destroyed, wants_window, window_added, window_for, Presented,
    StartSize,
};
use crate::client::config::KeyboardMode;
use crate::models::surface::WlSurfaceId;
use crate::models::surface_model::{BufferModel, RoleModel, SurfaceModel, ToplevelModel};
use crate::protocols::image::pixels::swapped_pixels_keep_their_place;
use crate::protocols::wprs::geometry::Point;
use crate::protocols::wprs::types::Event;
use crate::protocols::wprs::wayland::{
    AxisScroll, AxisSource, CursorImageStatus, KeyInner, KeyState, KeyboardEvent, PointerEvent,
    PointerEventKind, PointerGestureEvent,
};
use crate::protocols::wprs::xdg_shell::{DecorationMode, ToplevelEvent, XdgPopupState};
use crate::utils::ieee::F64;
use crate::utils::sorted_map::{increasing, lemma_in_order};
use vstd::prelude::*;

verus! {

/// The pointer events among actions, in order.
pub open spec fn pointers(out: Seq<ActionModel>) -> Seq<PointerEvent>
    decreases out.len(),
{
    if out.len() == 0 {
        Seq::empty()
    } else {
        match out.last() {
            ActionModel::Plain(PlainAction::Pointer(event)) => pointers(out.drop_last()).push(event),
            _ => pointers(out.drop_last()),
        }
    }
}

proof fn lemma_pointers()
    ensures
        forall|out: Seq<ActionModel>, action: ActionModel| #[trigger]
            pointers(out.push(action)) == (match action {
                ActionModel::Plain(PlainAction::Pointer(event)) => pointers(out).push(event),
                _ => pointers(out),
            }),
{
    assert forall|out: Seq<ActionModel>, action: ActionModel| #[trigger]
        pointers(out.push(action)) == (match action {
            ActionModel::Plain(PlainAction::Pointer(event)) => pointers(out).push(event),
            _ => pointers(out),
        }) by {
        assert(out.push(action).drop_last() =~= out);
    }
}

/// Where the pointer last was in a window: where it last moved to, or in the corner.
pub open spec fn last_position(m: AppModel, window: u64) -> Point<F64> {
    if m.cursor_pos.contains_key(window) {
        m.cursor_pos[window]
    } else {
        Point { x: F64 { bits: 0 }, y: F64 { bits: 0 } }
    }
}

/// A key goes up or down in a window: while a surface has the keyboard, the server is told so at
/// once, and of nothing else. The keys that are held are those that went down and not up since.
pub proof fn keys_are_told(
    s: Step,
    window: u64,
    name: String,
    pressed: bool,
    repeat: bool,
    code: u32,
    other: u32,
)
    requires
        s.m.surface_by_window.contains_key(window),
        linux_keycode(name@) == Some(code),
        other != code,
    ensures
        ({
            let t = after_event(
                s,
                window,
                WindowEvent::KeyboardInput { key: Some(name), pressed, repeat },
            );
            &&& s.m.focused_surface is None ==> t.out == s.out
            &&& s.m.focused_surface is Some ==> t.out == s.out.push(
                ActionModel::Plain(
                    PlainAction::Key(
                        KeyInner {
                            serial: t.m.serial,
                            raw_code: code,
                            state: if !pressed {
                                KeyState::Released
                            } else if repeat {
                                KeyState::Repeated
                            } else {
                                KeyState::Pressed
                            },
                        },
                    ),
                ),
            ) && t.m.serial != s.m.serial && t.m.serial != 0
            &&& t.m.pressed.contains(code) == pressed
            &&& t.m.pressed.contains(other) == s.m.pressed.contains(other)
            &&& t.m.focused_surface == s.m.focused_surface
        }),
{
}

/// Keys that have no code are not told of, and neither is anything else that the library knows
/// nothing of.
pub proof fn unknown_keys_are_ignored(s: Step, window: u64, name: String, pressed: bool, repeat: bool)
    requires
        linux_keycode(name@) is None,
    ensures
        after_event(s, window, WindowEvent::KeyboardInput { key: Some(name), pressed, repeat }) == s,
        after_event(s, window, WindowEvent::KeyboardInput { key: None, pressed, repeat }) == s,
        after_event(s, window, WindowEvent::Other) == s,
{
}

/// Events in a window that belongs to no surface change nothing.
pub proof fn foreign_windows_are_ignored(s: Step, window: u64, event: WindowEvent)
    requires
        !s.m.surface_by_window.contains_key(window),
    ensures
        after_event(s, window, event) == s,
{
}

/// The pointer moves in the window of a surface: the server is told that it entered, if it has not
/// been told, and where it moved, in this order and nothing else.
#[verifier::rlimit(40)]
pub proof fn motion_is_told(
    s: Step,
    window: u64,
    physical: Point<F64>,
    in_window: Point<F64>,
    remote: Point<F64>,
    edge: Option<ResizeDirection>,
)
    requires
        s.m.surface_by_window.contains_key(window),
        s.m.windows.contains_key(s.m.surface_by_window[window]),
    ensures
        ({
            let surface_id = WlSurfaceId(s.m.surface_by_window[window]);
            let t = after_event(
                s,
                window,
                WindowEvent::CursorMoved { physical, window: in_window, remote, edge },
            );
            let moved = PointerEvent {
                surface_id,
                position: remote,
                kind: PointerEventKind::Motion,
            };
            &&& s.m.inside.contains(window) ==> pointers(t.out) == pointers(s.out).push(moved)
            &&& !s.m.inside.contains(window) ==> pointers(t.out) == pointers(s.out).push(
                PointerEvent {
                    surface_id,
                    position: remote,
                    kind: PointerEventKind::Enter { serial: t.m.serial },
                },
            ).push(moved)
            &&& t.m.inside.contains(window)
            &&& t.m.pointer_surface == Some(surface_id)
            &&& t.m.cursor_pos.contains_key(window)
            &&& t.m.cursor_pos[window] == remote
            &&& t.m.physical_pos.contains_key(window)
            &&& t.m.physical_pos[window] == physical
        }),
{
    lemma_pointers();
}

/// A mouse button goes up or down in a window with decorations: the server is told which, where the
/// pointer last was, after its entering where that has not been told.
#[verifier::rlimit(40)]
pub proof fn buttons_are_told(
    s: Step,
    window: u64,
    pressed: bool,
    button: MouseButton,
    edge: Option<ResizeDirection>,
)
    requires
        s.m.surface_by_window.contains_key(window),
        s.m.windows.contains_key(s.m.surface_by_window[window]),
        s.m.decorations.contains_key(window) ==> s.m.decorations[window],
        !(button is Other),
    ensures
        ({
            let surface_id = WlSurfaceId(s.m.surface_by_window[window]);
            let t = after_event(s, window, WindowEvent::MouseInput { pressed, button, edge });
            let position = last_position(s.m, window);
            let code: u32 = match button {
                MouseButton::Left => 0x110,
                MouseButton::Right => 0x111,
                MouseButton::Middle => 0x112,
                MouseButton::Back => 0x113,
                MouseButton::Forward => 0x114,
                MouseButton::Other(_) => 0,
            };
            let entered = pointers(t.out)[pointers(s.out).len() as int];
            let last = pointers(t.out).last();
            &&& pointers(t.out).len() == pointers(s.out).len() + (if s.m.inside.contains(window) {
                1int
            } else {
                2int
            })
            &&& !s.m.inside.contains(window) ==> entered.kind is Enter && entered.position
                == position && entered.surface_id == surface_id
            &&& last.surface_id == surface_id
            &&& last.position == position
            &&& last.kind == (if pressed {
                PointerEventKind::Press { button: code, serial: t.m.serial }
            } else {
                PointerEventKind::Release { button: code, serial: t.m.serial }
            })
            &&& t.m.inside.contains(window)
        }),
{
    lemma_pointers();
}

/// In a window without decorations, the right button opens the window menu where the pointer is, a
/// press at an edge resizes the window at that edge, and the left button drags it while Alt is held.
/// The server is not told of these.
#[verifier::rlimit(40)]
pub proof fn windows_without_decorations_are_handled(
    s: Step,
    window: u64,
    pressed: bool,
    button: MouseButton,
    edge: Option<ResizeDirection>,
)
    requires
        s.m.surface_by_window.contains_key(window),
        s.m.windows.contains_key(s.m.surface_by_window[window]),
        s.m.decorations.contains_key(window),
        !s.m.decorations[window],
        s.m.physical_pos.contains_key(window),
    ensures
        ({
            let surface_id = WlSurfaceId(s.m.surface_by_window[window]);
            let t = after_event(s, window, WindowEvent::MouseInput { pressed, button, edge });
            &&& pressed && button is Right ==> t.out == s.out.push(
                ActionModel::Plain(
                    PlainAction::ShowWindowMenu { surface_id, at: s.m.physical_pos[window] },
                ),
            )
            &&& edge is Some && !(pressed && button is Right) ==> t.out == (if pressed {
                s.out.push(
                    ActionModel::Plain(PlainAction::DragResize { surface_id, direction: edge->0 }),
                )
            } else {
                s.out
            })
            &&& edge is None && pressed && button is Left && s.m.modifiers.alt ==> t.out
                == s.out.push(ActionModel::Plain(PlainAction::DragWindow { surface_id }))
            &&& edge is None && button is Left && !(pressed && s.m.modifiers.alt) ==> pointers(
                t.out,
            ).last().kind == (if pressed {
                PointerEventKind::Press { button: 0x110, serial: t.m.serial }
            } else {
                PointerEventKind::Release { button: 0x110, serial: t.m.serial }
            })
        }),
{
    lemma_pointers();
}

/// Scrolling is told as it is, where the pointer last was: by a wheel, or by a finger where it is
/// counted in pixels.
pub proof fn scrolling_is_told(
    s: Step,
    window: u64,
    horizontal: AxisScroll,
    vertical: AxisScroll,
    pixels: bool,
)
    requires
        s.m.surface_by_window.contains_key(window),
        s.m.windows.contains_key(s.m.surface_by_window[window]),
    ensures
        after_event(s, window, WindowEvent::MouseWheel { horizontal, vertical, pixels }).out
            == s.out.push(
            ActionModel::Plain(
                PlainAction::Pointer(
                    PointerEvent {
                        surface_id: WlSurfaceId(s.m.surface_by_window[window]),
                        position: last_position(s.m, window),
                        kind: PointerEventKind::Axis {
                            horizontal,
                            vertical,
                            source: Some(
                                if pixels {
                                    AxisSource::Finger
                                } else {
                                    AxisSource::Wheel
                                },
                            ),
                        },
                    },
                ),
            ),
        ),
{
}

/// Entering a window is told once, where the pointer last was.
#[verifier::rlimit(40)]
pub proof fn entering_is_told(s: Step, window: u64)
    requires
        s.m.surface_by_window.contains_key(window),
    ensures
        ({
            let surface_id = WlSurfaceId(s.m.surface_by_window[window]);
            let t = after_event(s, window, WindowEvent::CursorEntered);
            &&& pointers(t.out) == (if s.m.inside.contains(window) {
                pointers(s.out)
            } else {
                pointers(s.out).push(
                    PointerEvent {
                        surface_id,
                        position: last_position(s.m, window),
                        kind: PointerEventKind::Enter { serial: t.m.serial },
                    },
                )
            })
            &&& t.m.inside.contains(window)
            &&& t.m.pointer_surface == Some(surface_id)
        }),
{
    lemma_pointers();
}

/// Leaving a window is told each time, where the pointer last was.
#[verifier::rlimit(40)]
pub proof fn leaving_is_told(s: Step, window: u64)
    requires
        s.m.surface_by_window.contains_key(window),
    ensures
        ({
            let surface_id = WlSurfaceId(s.m.surface_by_window[window]);
            let t = after_event(s, window, WindowEvent::CursorLeft);
            &&& pointers(t.out) == pointers(s.out).push(
                PointerEvent {
                    surface_id,
                    position: last_position(s.m, window),
                    kind: PointerEventKind::Leave { serial: t.m.serial },
                },
            )
            &&& !t.m.inside.contains(window)
            &&& t.m.pointer_surface != Some(surface_id)
        }),
{
    lemma_pointers();
}

/// A window gets the focus, and the keyboard goes to its surface: it leaves the one that has it, and
/// enters the other with the keys that are held. (The keymap has been asked for before.)
#[verifier::rlimit(40)]
pub proof fn focus_moves_the_keyboard(s: Step, window: u64, held: Seq<u32>)
    requires
        s.m.surface_by_window.contains_key(window),
        s.m.keymap_sent,
        !s.m.popups.contains_key(s.m.surface_by_window[window]),
        increasing(held),
        s.m.pressed == held.to_set(),
    ensures
        ({
            let surface_id = WlSurfaceId(s.m.surface_by_window[window]);
            let t = after_event(s, window, WindowEvent::Focused(true));
            &&& t.m.focused_window == Some(window)
            &&& t.m.focused_surface == Some(surface_id)
            &&& s.m.focused_surface == Some(surface_id) ==> t.out == s.out
            &&& s.m.focused_surface != Some(surface_id) ==> {
                &&& t.out.len() == s.out.len() + (if s.m.focused_surface is Some {
                    2int
                } else {
                    1int
                })
                &&& s.m.focused_surface is Some ==> (t.out[s.out.len() as int] matches
                    ActionModel::Plain(PlainAction::LeaveKeyboard { .. }))
                &&& t.out.last() == ActionModel::EnterKeyboard {
                    serial: t.m.serial,
                    surface_id,
                    keycodes: held,
                }
            }
        }),
{
    let surface = s.m.surface_by_window[window];
    lemma_root(s.m.popups, surface, 0);
    lemma_in_order(held);
}

/// A window that loses the focus gives the keyboard back; others that lose theirs change nothing.
pub proof fn lost_focus_takes_the_keyboard(s: Step, window: u64)
    requires
        s.m.surface_by_window.contains_key(window),
        s.m.keymap_sent,
    ensures
        ({
            let t = after_event(s, window, WindowEvent::Focused(false));
            &&& s.m.focused_window != Some(window) ==> t == s
            &&& s.m.focused_window == Some(window) ==> {
                &&& t.m.focused_window is None
                &&& t.m.focused_surface is None
                &&& t.out == (if s.m.focused_surface is Some {
                    s.out.push(
                        ActionModel::Plain(PlainAction::LeaveKeyboard { serial: t.m.serial }),
                    )
                } else {
                    s.out
                })
            }
        }),
{
}

/// A popup that gets the focus keeps the keyboard if it asked for it, and otherwise gives it to the
/// surface that it was opened from.
pub proof fn popups_share_the_keyboard(s: Step, window: u64)
    requires
        s.m.surface_by_window.contains_key(window),
        s.m.popups.contains_key(s.m.surface_by_window[window]),
        !s.m.popups.contains_key(
            s.m.popups[s.m.surface_by_window[window]].parent_surface_id.0,
        ),
    ensures
        ({
            let surface = s.m.surface_by_window[window];
            after_event(s, window, WindowEvent::Focused(true)).m.focused_surface == Some(
                if s.m.popups[surface].grab_requested {
                    WlSurfaceId(surface)
                } else {
                    s.m.popups[surface].parent_surface_id
                },
            )
        }),
{
    reveal_with_fuel(ancestor, 2);
    lemma_root(s.m.popups, s.m.surface_by_window[window], 1);
}

/// The server is told which modifiers are held whenever that changes.
pub proof fn modifiers_are_told(s: Step, window: u64, modifiers: Modifiers)
    requires
        s.m.surface_by_window.contains_key(window),
    ensures
        ({
            let t = after_event(s, window, WindowEvent::ModifiersChanged(modifiers));
            &&& t.out == s.out.push(ActionModel::Plain(PlainAction::TellModifiers(modifiers)))
            &&& t.m.modifiers == modifiers
        }),
{
}

/// The user closes the window of a toplevel: the server is asked to close it, and the window goes.
/// That of a popup only goes.
#[verifier::rlimit(40)]
pub proof fn closing_is_told(s: Step, window: u64)
    requires
        s.m.surface_by_window.contains_key(window),
        s.m.windows.contains_key(s.m.surface_by_window[window]),
        s.m.focused_window != Some(window),
    ensures
        ({
            let surface_id = WlSurfaceId(s.m.surface_by_window[window]);
            let t = after_event(s, window, WindowEvent::CloseRequested);
            let gone = ActionModel::Plain(PlainAction::DropWindow { surface_id });
            &&& t.out == (if s.m.popups.contains_key(surface_id.0) {
                s.out.push(gone)
            } else {
                s.out.push(ActionModel::Plain(PlainAction::CloseToplevel { surface_id })).push(gone)
            })
            &&& !t.m.windows.contains_key(surface_id.0)
            &&& !t.m.surface_by_window.contains_key(window)
        }),
{
}

/// A window that has to be drawn is.
pub proof fn windows_are_drawn(s: Step, window: u64)
    requires
        s.m.surface_by_window.contains_key(window),
        s.m.windows.contains_key(s.m.surface_by_window[window]),
    ensures
        after_event(s, window, WindowEvent::RedrawRequested) == (Step {
            out: s.out.push(
                ActionModel::Plain(
                    PlainAction::Render { surface_id: WlSurfaceId(s.m.surface_by_window[window]) },
                ),
            ),
            ..s
        }),
{
}

/// A window without popups that gets another size is resized, and the server is told if it is a
/// toplevel's.
pub proof fn sizes_are_told(s: Step, window: u64)
    requires
        s.m.surface_by_window.contains_key(window),
        s.m.windows.contains_key(s.m.surface_by_window[window]),
        s.m.popups == Map::<u64, XdgPopupState>::empty(),
    ensures
        ({
            let surface_id = WlSurfaceId(s.m.surface_by_window[window]);
            let t = after_event(s, window, WindowEvent::Resized);
            &&& t.out == s.out.push(
                ActionModel::Plain(PlainAction::ResizeRenderer { surface_id }),
            ).push(ActionModel::Plain(PlainAction::SendConfigure { surface_id }))
            &&& after_event(s, window, WindowEvent::ScaleFactorChanged) == t
        }),
{
    assert(Seq::<u64>::empty().to_set() =~= s.m.popups.dom());
    lemma_in_order(Seq::<u64>::empty());
}

/// What the user does to begin, go on with, end or cancel a pinch or a rotation.
pub open spec fn gesture_event(
    rotation: bool,
    phase: TouchPhase,
    by: F64,
    told: F64,
) -> WindowEvent {
    if rotation {
        WindowEvent::RotationGesture { phase, rotation: by, told }
    } else {
        WindowEvent::PinchGesture { phase, scale: by, told }
    }
}

/// Whether a pinch or a rotation is going on.
pub open spec fn in_progress(m: AppModel, surface: u64) -> bool {
    m.pinch.contains_key(surface) && (m.pinch[surface].active_pinch
        || m.pinch[surface].active_rotation)
}

/// The server is told that a pinch or a rotation begins, unless the other one is going on.
#[verifier::rlimit(40)]
pub proof fn gestures_begin(s: Step, window: u64, rotation: bool, by: F64, told: F64)
    requires
        s.m.surface_by_window.contains_key(window),
    ensures
        ({
            let surface_id = WlSurfaceId(s.m.surface_by_window[window]);
            let t = after_event(
                s,
                window,
                gesture_event(rotation, TouchPhase::Started, by, told),
            );
            &&& t.out == (if in_progress(s.m, surface_id.0) {
                s.out
            } else {
                s.out.push(
                    ActionModel::Plain(
                        PlainAction::Gesture(
                            PointerGestureEvent::PinchBegin {
                                surface_id,
                                position: last_position(s.m, window),
                                serial: t.m.serial,
                                fingers: 2,
                            },
                        ),
                    ),
                )
            })
            &&& t.m.pinch.contains_key(surface_id.0)
            &&& rotation ==> t.m.pinch[surface_id.0].active_rotation
            &&& !rotation ==> t.m.pinch[surface_id.0].active_pinch
            &&& !s.m.pinch.contains_key(surface_id.0) ==> t.m.pinch[surface_id.0].scale == (F64 {
                bits: 0x3FF0_0000_0000_0000,
            }) && t.m.pinch[surface_id.0].active_rotation == rotation
                && t.m.pinch[surface_id.0].active_pinch == !rotation
        }),
{
}

/// Each step of a pinch or a rotation is told. A pinch changes the scale only, and a rotation only
/// the angle.
#[verifier::rlimit(40)]
pub proof fn gestures_go_on(s: Step, window: u64, rotation: bool, by: F64, told: F64)
    requires
        s.m.surface_by_window.contains_key(window),
        s.m.pinch.contains_key(s.m.surface_by_window[window]),
    ensures
        ({
            let surface_id = WlSurfaceId(s.m.surface_by_window[window]);
            let t = after_event(
                s,
                window,
                gesture_event(rotation, TouchPhase::Moved, by, told),
            );
            &&& t.out == s.out.push(
                ActionModel::Plain(
                    PlainAction::Gesture(
                        PointerGestureEvent::PinchUpdate {
                            surface_id,
                            position: last_position(s.m, window),
                            delta: Point { x: F64 { bits: 0 }, y: F64 { bits: 0 } },
                            scale: told,
                            rotation: if rotation {
                                by
                            } else {
                                F64 { bits: 0 }
                            },
                        },
                    ),
                ),
            )
            &&& !rotation ==> t.m.pinch[surface_id.0].scale == by
        }),
{
}

/// The server is told that a pinch or a rotation ends, or is cancelled, once neither goes on.
#[verifier::rlimit(40)]
pub proof fn gestures_end(
    s: Step,
    window: u64,
    rotation: bool,
    cancelled: bool,
    by: F64,
    told: F64,
)
    requires
        s.m.surface_by_window.contains_key(window),
        s.m.pinch.contains_key(s.m.surface_by_window[window]),
    ensures
        ({
            let surface_id = WlSurfaceId(s.m.surface_by_window[window]);
            let phase = if cancelled {
                TouchPhase::Cancelled
            } else {
                TouchPhase::Ended
            };
            let t = after_event(s, window, gesture_event(rotation, phase, by, told));
            let other = if rotation {
                s.m.pinch[surface_id.0].active_pinch
            } else {
                s.m.pinch[surface_id.0].active_rotation
            };
            &&& other ==> t.out == s.out && in_progress(t.m, surface_id.0)
            &&& !other ==> !t.m.pinch.contains_key(surface_id.0) && t.out == s.out.push(
                ActionModel::Plain(
                    PlainAction::Gesture(
                        PointerGestureEvent::PinchEnd {
                            surface_id,
                            position: last_position(s.m, window),
                            serial: t.m.serial,
                            cancelled,
                        },
                    ),
                ),
            )
        }),
{
}

/// The message of each action that is for the server says what the action says, and actions that are
/// not for the server have none.
pub proof fn actions_say_what_they_mean(action: Action, event: Option<Event>)
    requires
        is_message(action, event),
    ensures
        match action {
            Action::Plain(PlainAction::Pointer(e)) => event matches Some(Event::PointerFrame(frame))
                && frame@.len() == 1 && frame@[0] == e,
            Action::Plain(PlainAction::Gesture(e)) => event == Some(Event::PointerGesture(e)),
            Action::Plain(PlainAction::Key(key)) => event == Some(
                Event::KeyboardEvent(KeyboardEvent::Key(key)),
            ),
            Action::Plain(PlainAction::LeaveKeyboard { serial }) => event == Some(
                Event::KeyboardEvent(KeyboardEvent::Leave { serial }),
            ),
            Action::Plain(PlainAction::TellModifiers(held)) => event matches Some(
                Event::KeyboardEvent(KeyboardEvent::Modifiers { modifier_state: told, layout_index }),
            ) && told.ctrl == held.ctrl && told.alt == held.alt && told.shift == held.shift
                && told.logo == held.logo && !told.caps_lock && !told.num_lock && layout_index == 0,
            Action::Plain(PlainAction::CloseToplevel { surface_id }) => event matches Some(
                Event::Toplevel(ToplevelEvent::Close(close)),
            ) && close.surface_id == surface_id,
            Action::EnterKeyboard { serial, surface_id, keycodes } => event matches Some(
                Event::KeyboardEvent(
                    KeyboardEvent::Enter { serial: n, surface_id: target, keycodes: held, keysyms },
                ),
            ) && n == serial && target == surface_id && held@ == keycodes@ && keysyms@.len() == 0,
            _ => event is None,
        },
{
}

/// When the window system is ready, the server is told of the outputs, once; and of the keymap, if it
/// is to have it and has not.
pub proof fn readiness_is_told_once(s: Step, now: u64)
    ensures
        s.m.outputs_sent ==> after_resume(s, now) == s,
        !s.m.outputs_sent ==> ({
            let t = after_resume(s, now);
            &&& t.m.outputs_sent
            &&& t.m.last_refresh == now
            &&& t.m.keymap_sent
            &&& t.out.last() == ActionModel::Plain(PlainAction::RefreshOutputs { force: true })
            &&& t.out.len() == s.out.len() + (if s.m.keyboard_mode is Keymap && !s.m.keymap_sent {
                2int
            } else {
                1int
            })
        }),
{
}

/// A cursor that changes is shown where the pointer is, or else where the keyboard is, if there is a
/// window; elsewhere it is shown later.
pub proof fn cursors_are_shown(s: Step, visible: bool)
    ensures
        ({
            let t = cursor_changed(s, visible);
            let target = if s.m.pointer_surface is Some {
                s.m.pointer_surface
            } else {
                s.m.focused_surface
            };
            &&& t.m.cursor_visible == visible
            &&& t.m.cursor_dirty == (target is None)
            &&& t.out == (match target {
                Some(surface_id) if s.m.windows.contains_key(surface_id.0) => s.out.push(
                    ActionModel::Plain(PlainAction::ApplyCursor { surface_id, visible }),
                ),
                _ => s.out,
            })
        }),
{
}

/// A cursor is hidden, or a standard one, or the image of a surface, as the server says; an unknown
/// name stands for the default cursor, and an image that is not there changes nothing. The hotspot
/// stays within the image.
pub proof fn cursor_plans(m: AppModel, status: CursorImageStatus, plan: CursorPlan)
    requires
        is_cursor_plan(m, status, plan),
    ensures
        match status {
            CursorImageStatus::Hidden => plan is Hide,
            CursorImageStatus::Named(name) => plan matches CursorPlan::Named(icon) && (cursor_icon(
                name@,
            ) matches Some(found) ==> icon@ == found) && (cursor_icon(name@) is None ==> icon@
                == "default"@),
            CursorImageStatus::Surface { client_surface, hotspot } => ({
                let key = (client_surface.client.0, client_surface.surface.0);
                &&& (plan is Missing) == !m.cursor_frames.contains_key(key)
                &&& m.cursor_frames.contains_key(key) ==> (plan matches CursorPlan::Image {
                    client,
                    surface,
                    hotspot_x,
                    hotspot_y,
                } && client == client_surface.client && surface == client_surface.surface
                    && hotspot_x <= m.cursor_frames[key].width && hotspot_y
                    <= m.cursor_frames[key].height && (!m.scales.contains_key(
                    client_surface.surface.0,
                ) && 0 <= hotspot.x <= m.cursor_frames[key].width && 0 <= hotspot.y
                    <= m.cursor_frames[key].height ==> hotspot_x == hotspot.x && hotspot_y
                    == hotspot.y))
            }),
        },
{
}

/// A hotspot within the image is scaled with the image, and kept within it.
pub proof fn hotspots_are_scaled(at: int, size: int, scale: int)
    requires
        0 <= at <= size,
        1 <= scale,
    ensures
        0 <= hotspot_pixel(at, size, scale) <= size,
        at * scale <= size ==> hotspot_pixel(at, size, scale) == at * scale,
        at * scale > size ==> hotspot_pixel(at, size, scale) == size,
{
    assert(at * scale >= 0) by (nonlinear_arith)
        requires
            0 <= at,
            1 <= scale,
    ;
}

/// A decoded frame of a surface with a window is for that window; one of a cursor surface is kept as
/// its image, under the client and surface that it belongs to; others go nowhere.
pub proof fn frames_go_where_they_belong(m: AppModel, frame: DecodedFrame, other: (u64, u64))
    ensures
        ({
            let surface = frame.surface_id.0;
            let after = frame_arrived(m, frame);
            let cursor = !m.windows.contains_key(surface) && m.cursor_clients.contains_key(surface)
                && cursor_frame_of(frame) is Some;
            let key = (m.cursor_clients[surface].0, surface);
            &&& m.windows.contains_key(surface) ==> after.with_frame.contains(surface)
                && after.cursor_frames == m.cursor_frames
            &&& cursor ==> after.cursor_frames.contains_key(key) && after.cursor_frames[key]
                == cursor_frame_of(frame)->0 && after.cursor_frames[key].width
                == frame.metadata.width && after.cursor_frames[key].height == frame.metadata.height
            &&& other != key && m.cursor_frames.contains_key(other)
                ==> after.cursor_frames.contains_key(other) && after.cursor_frames[other]
                == m.cursor_frames[other]
            &&& !m.windows.contains_key(surface) && !cursor ==> after == m
        }),
{
}

/// A surface that commits as a toplevel or a popup is known as such, with its scale; a popup is one
/// until it commits as something else.
pub proof fn commits_are_noted(m: AppModel, surface: u64, state: SurfaceModel)
    ensures
        ({
            let after = commit_noted(m, surface, state);
            &&& after.scales.contains_key(surface)
            &&& after.scales[surface] == (if state.buffer_scale < 1 {
                1
            } else {
                state.buffer_scale
            })
            &&& match state.role {
                Some(RoleModel::XdgPopup(popup)) => after.popups.contains_key(surface)
                    && after.popups[surface] == popup,
                Some(RoleModel::XdgToplevel(_)) | Some(RoleModel::Cursor(
                    _,
                )) => !after.popups.contains_key(surface),
                _ => after.popups == m.popups,
            }
            &&& state.role matches Some(RoleModel::Cursor(_)) ==> after.cursor_clients.contains_key(
                surface,
            ) && after.cursor_clients[surface] == state.client
            &&& after.windows == m.windows
        }),
{
}

/// The window of a toplevel has its title, decorations unless the client draws its own, and can be
/// resized; that of a popup is above others and has none of these. It starts with the size of the
/// buffer, where there is one.
#[verifier::rlimit(40)]
pub proof fn windows_fit_their_surface(
    m: AppModel,
    surface: u64,
    state: SurfaceModel,
    toplevel: ToplevelModel,
    popup: XdgPopupState,
)
    ensures
        state.role == Some(RoleModel::XdgToplevel(toplevel)) ==> ({
            let plain = window_for(m, surface, state, false);
            let bare = window_for(m, surface, state, true);
            &&& plain.title == Some(
                if toplevel.title is Some {
                    toplevel.title->0
                } else {
                    "wprs"@
                },
            )
            &&& plain.decorations == (toplevel.decoration_mode != Some(DecorationMode::Client))
            &&& bare.title == Some(Seq::<char>::empty())
            &&& !bare.decorations
            &&& plain.resizable && bare.resizable
            &&& !plain.always_on_top && !bare.always_on_top
            &&& plain.position is None
        }),
        state.role == Some(RoleModel::XdgPopup(popup)) ==> ({
            let window = window_for(m, surface, state, false);
            &&& window.title is None
            &&& !window.decorations
            &&& !window.resizable
            &&& window.always_on_top
            &&& !(state.buffer matches Some(Some(_))) ==> (window.size matches StartSize::Popup {
                width,
                height,
            } && (popup.positioner.width >= 1 ==> width == popup.positioner.width) && (
            popup.positioner.height >= 1 ==> height == popup.positioner.height)) && window.position
                == placement(m, surface, popup)
        }),
        (state.role == Some(RoleModel::XdgToplevel(toplevel)) || state.role == Some(
            RoleModel::XdgPopup(popup),
        )) && (state.buffer matches Some(Some(_))) ==> (window_for(m, surface, state, false).size matches
            StartSize::Buffer { width, height, scale } && ({
            let meta = (state.buffer->0->0).metadata;
            &&& meta.width >= 1 ==> width == meta.width
            &&& meta.height >= 1 ==> height == meta.height
            &&& state.buffer_scale >= 1 ==> scale == state.buffer_scale
        })),
{
}

/// A popup goes to where its anchor and its offset say, from the place of its parent's window and at
/// its parent's scale.
pub proof fn popups_are_placed_by_their_parent(m: AppModel, surface: u64, popup: XdgPopupState)
    requires
        i32::MIN <= popup.positioner.anchor_rect.loc.x + popup.positioner.offset.x <= i32::MAX,
        i32::MIN <= popup.positioner.anchor_rect.loc.y + popup.positioner.offset.y <= i32::MAX,
    ensures
        ({
            let parent = popup.parent_surface_id.0;
            &&& !m.windows.contains_key(parent) ==> placement(m, surface, popup) is None
            &&& m.windows.contains_key(parent) ==> (placement(m, surface, popup) matches Some(p)
                && p.popup == WlSurfaceId(surface) && p.parent == popup.parent_surface_id && p.dx
                == popup.positioner.anchor_rect.loc.x + popup.positioner.offset.x && p.dy
                == popup.positioner.anchor_rect.loc.y + popup.positioner.offset.y && p.server_scale
                == (if m.scales.contains_key(parent) {
                m.scales[parent]
            } else {
                1
            }) && p.parent_pos == (if m.inner_pos.contains_key(m.windows[parent]) {
                Some(m.inner_pos[m.windows[parent]])
            } else {
                None
            }))
        }),
{
}

/// A surface that goes takes its window along, and its popup and cursor; other surfaces keep theirs.
pub proof fn surfaces_go_with_their_window(s: Step, surface: u64, other: u64)
    requires
        other != surface,
    ensures
        ({
            let t = surface_destroyed(s, surface);
            &&& !t.m.windows.contains_key(surface)
            &&& !t.m.popups.contains_key(surface)
            &&& t.m.windows.contains_key(other) == s.m.windows.contains_key(other)
            &&& s.m.windows.contains_key(other) ==> t.m.windows[other] == s.m.windows[other]
            &&& t.m.popups.contains_key(other) == s.m.popups.contains_key(other)
            &&& t.out == (if s.m.windows.contains_key(surface) {
                s.out.push(
                    ActionModel::Plain(
                        PlainAction::DropWindow { surface_id: WlSurfaceId(surface) },
                    ),
                )
            } else {
                s.out
            })
            &&& s.m.windows.contains_key(surface) ==> !t.m.surface_by_window.contains_key(
                s.m.windows[surface],
            )
        }),
{
}

/// A new window belongs to its surface. The server is told the size of that of a toplevel.
pub proof fn new_windows_are_known(
    s: Step,
    surface: WlSurfaceId,
    mode: Option<DecorationMode>,
    window: u64,
    inner_pos: Option<Point<i32>>,
)
    ensures
        ({
            let t = window_added(s, surface, Presented::Toplevel(mode), window, inner_pos);
            &&& t.m.windows.contains_key(surface.0)
            &&& t.m.windows[surface.0] == window
            &&& t.m.surface_by_window.contains_key(window)
            &&& t.m.surface_by_window[window] == surface.0
            &&& t.m.decorations.contains_key(window)
            &&& t.m.decorations[window] == (mode != Some(DecorationMode::Client))
            &&& inner_pos is Some ==> t.m.inner_pos.contains_key(window) && t.m.inner_pos[window]
                == inner_pos->0
            &&& t.out == s.out.push(
                ActionModel::Plain(
                    PlainAction::ApplyCursor { surface_id: surface, visible: s.m.cursor_visible },
                ),
            ).push(ActionModel::Plain(PlainAction::SendConfigure { surface_id: surface }))
        }),
{
}

/// The frame of a commit is decoded: from its own bytes, or from those that came last, which are used
/// once. Without bytes nothing is.
pub proof fn frames_of_commits_are_decoded(
    s: Step,
    surface: WlSurfaceId,
    mode: Option<DecorationMode>,
    buffer: BufferModel,
)
    ensures
        ({
            let t = commit_finished(
                s,
                surface,
                Presented::Toplevel(mode),
                Some(Some(buffer)),
            );
            let bytes = if buffer.data is Some {
                buffer.data
            } else {
                s.m.cache
            };
            &&& t.out == (match bytes {
                Some(filtered) => s.out.push(
                    ActionModel::Decode {
                        surface_id: surface,
                        metadata: buffer.metadata,
                        filtered,
                    },
                ),
                None => s.out,
            })
            &&& buffer.data is None ==> t.m.cache is None
            &&& buffer.data is Some ==> t.m.cache == s.m.cache
        }),
        commit_finished(s, surface, Presented::Toplevel(mode), None) == s,
{
}

/// In a window without decorations the cursor shows what a click would do: at an edge that the window
/// is resized there, elsewhere that it is moved, while Alt is held, and otherwise what it was before.
#[verifier::rlimit(40)]
pub proof fn cursors_show_what_clicks_do(
    s: Step,
    window: u64,
    physical: Point<F64>,
    in_window: Point<F64>,
    remote: Point<F64>,
    edge: Option<ResizeDirection>,
)
    requires
        s.m.surface_by_window.contains_key(window),
        s.m.windows.contains_key(s.m.surface_by_window[window]),
        s.m.decorations.contains_key(window),
        !s.m.decorations[window],
        s.m.inside.contains(window),
        !s.m.cursor_dirty,
    ensures
        ({
            let surface_id = WlSurfaceId(s.m.surface_by_window[window]);
            let t = after_event(
                s,
                window,
                WindowEvent::CursorMoved { physical, window: in_window, remote, edge },
            );
            let first = t.out[s.out.len() as int];
            &&& edge matches Some(direction) ==> first == ActionModel::Plain(
                PlainAction::ShowResizeCursor { surface_id, direction },
            ) && t.m.overridden.contains(window)
            &&& edge is None && s.m.modifiers.alt ==> first == ActionModel::Plain(
                PlainAction::ShowMoveCursor { surface_id },
            ) && t.m.overridden.contains(window)
            &&& edge is None && !s.m.modifiers.alt && s.m.overridden.contains(window) ==> first
                == ActionModel::Plain(
                PlainAction::ApplyCursor { surface_id, visible: s.m.cursor_visible },
            ) && !t.m.overridden.contains(window)
            &&& edge is None && !s.m.modifiers.alt && !s.m.overridden.contains(window) ==> t.out.len()
                == s.out.len() + 1
        }),
{
}

/// A window that moves is where it was moved to, and its popup moves along.
#[verifier::rlimit(40)]
pub proof fn popups_move_along(s: Step, window: u64, pos: Point<i32>, popup: u64)
    requires
        s.m.surface_by_window.contains_key(window),
        s.m.windows.contains_key(s.m.surface_by_window[window]),
        s.m.windows[s.m.surface_by_window[window]] == window,
        s.m.popups.dom() == seq![popup].to_set(),
        s.m.popups[popup].parent_surface_id.0 == s.m.surface_by_window[window],
        s.m.windows.contains_key(popup),
        has_offset(s.m.popups[popup]),
    ensures
        ({
            let t = after_event(s, window, WindowEvent::Moved { inner_pos: Some(pos) });
            &&& t.m.inner_pos.contains_key(window)
            &&& t.m.inner_pos[window] == pos
            &&& t.out.len() == s.out.len() + 1
            &&& t.out.last() matches ActionModel::Plain(PlainAction::PlacePopup(place))
            &&& place.popup == WlSurfaceId(popup)
            &&& place.parent_pos == Some(pos)
            &&& place.dx == s.m.popups[popup].positioner.anchor_rect.loc.x
                + s.m.popups[popup].positioner.offset.x
            &&& place.dy == s.m.popups[popup].positioner.anchor_rect.loc.y
                + s.m.popups[popup].positioner.offset.y
        }),
{
    lemma_in_order(seq![popup]);
    reveal_with_fuel(placed_popups, 2);
}

/// A new popup goes to its place, and is not told to the server as toplevels are.
pub proof fn new_popups_are_placed(
    s: Step,
    surface: WlSurfaceId,
    popup: XdgPopupState,
    window: u64,
    inner_pos: Option<Point<i32>>,
)
    requires
        s.m.windows.contains_key(popup.parent_surface_id.0),
        popup.parent_surface_id != surface,
    ensures
        ({
            let t = window_added(s, surface, Presented::Popup(popup), window, inner_pos);
            &&& t.m.windows.contains_key(surface.0) && t.m.windows[surface.0] == window
            &&& t.m.decorations == s.m.decorations
            &&& t.out.len() == s.out.len() + 2
            &&& t.out.last() matches ActionModel::Plain(PlainAction::PlacePopup(place))
            &&& place.popup == surface
            &&& place.parent == popup.parent_surface_id
        }),
{
}

/// Toplevels and popups have a window, once. Cursors and surfaces without a role have none.
pub proof fn windows_are_wanted_once(m: AppModel, surface: u64, state: SurfaceModel)
    ensures
        wants_window(m, surface, state) <==> !m.windows.contains_key(surface) && (state.role matches
            Some(role) && (role is XdgToplevel || role is XdgPopup)),
{
}

/// A popup that commits again goes to its place again, before its frame is decoded.
pub proof fn popups_keep_their_place(s: Step, surface: WlSurfaceId, popup: XdgPopupState)
    requires
        s.m.windows.contains_key(surface.0),
        s.m.windows.contains_key(popup.parent_surface_id.0),
    ensures
        ({
            let t = commit_finished(s, surface, Presented::Popup(popup), None);
            &&& t.out.len() == s.out.len() + 1
            &&& t.out.last() matches ActionModel::Plain(PlainAction::PlacePopup(place))
            &&& place.popup == surface
            &&& t.m == s.m
        }),
{
}

/// The image of a cursor is forgotten with its surface.
pub proof fn cursor_images_go_with_their_surface(s: Step, surface: u64, client: u64, other: u64)
    requires
        s.m.cursor_clients.contains_key(surface),
        s.m.cursor_clients[surface].0 == client,
        other != surface,
    ensures
        ({
            let t = surface_destroyed(s, surface);
            &&& !t.m.cursor_frames.contains_key((client, surface))
            &&& t.m.cursor_frames.contains_key((client, other)) == s.m.cursor_frames.contains_key(
                (client, other),
            )
            &&& !t.m.cursor_clients.contains_key(surface)
        }),
{
}

/// At the start nothing has been told, no key is held, and there are no windows. The cursor is shown
/// when there is a place for it.
pub proof fn the_start_is_empty(keyboard_mode: KeyboardMode, now: u64, n: u64, code: u32)
    ensures
        ({
            let m = initial(keyboard_mode, now);
            &&& m.keyboard_mode == keyboard_mode
            &&& m.last_refresh == now
            &&& !m.outputs_sent && !m.keymap_sent
            &&& m.cache is None && m.display_config is None
            &&& !m.windows.contains_key(n) && !m.surface_by_window.contains_key(n)
            &&& !m.popups.contains_key(n) && !m.inside.contains(n)
            &&& !m.pressed.contains(code)
            &&& m.focused_surface is None && m.focused_window is None
            &&& m.pointer_surface is None
            &&& m.outputs.len() == 0
            &&& m.cursor_visible && m.cursor_dirty
            &&& !m.modifiers.ctrl && !m.modifiers.alt && !m.modifiers.shift && !m.modifiers.logo
        }),
{
}

/// Outputs are looked at every two seconds.
pub proof fn outputs_are_looked_at_regularly()
    ensures
        OUTPUT_REFRESH_MS == 2000,
{
}

/// A popup is placed from its parent's window on, as far as there are numbers for it.
pub proof fn popup_offsets_are_added(a: int, b: int)
    requires
        i32::MIN <= a <= i32::MAX,
    ensures
        i32::MIN <= a + b <= i32::MAX ==> clamped_sum(a, b) == a + b,
        a + b > i32::MAX ==> clamped_sum(a, b) == 0x7FFF_FFFF,
        a + b < i32::MIN ==> clamped_sum(a, b) == -0x8000_0000,
{
}

/// The cursor image of a frame has the frame's colours, with red and blue exchanged.
pub proof fn cursor_images_have_their_colours(frame: DecodedFrame, row: int, column: int)
    requires
        0 < frame.metadata.width <= 65535,
        0 < frame.metadata.height <= 65535,
        frame.metadata.width * 4 <= frame.padded_row_bytes,
        frame.padded_row_bytes * frame.metadata.height <= frame.data@.len(),
        0 <= row < frame.metadata.height,
        0 <= column < frame.metadata.width,
    ensures
        ({
            let image = cursor_frame_of(frame)->0;
            let to = (row * frame.metadata.width + column) * 4;
            let from = row * frame.padded_row_bytes + column * 4;
            &&& cursor_frame_of(frame) is Some
            &&& image.width == frame.metadata.width
            &&& image.height == frame.metadata.height
            &&& image.rgba[to] == frame.data@[from + 2]
            &&& image.rgba[to + 1] == frame.data@[from + 1]
            &&& image.rgba[to + 2] == frame.data@[from]
            &&& image.rgba[to + 3] == frame.data@[from + 3]
        }),
{
    swapped_pixels_keep_their_place(
        frame.data@,
        frame.padded_row_bytes as int,
        frame.metadata.width as nat,
        frame.metadata.height as nat,
        column,
        row,
    );
}

/// The user closes the window that has the focus: the keyboard leaves its surface, after the server
/// was asked to close it. (The keymap has been asked for before.)
pub proof fn closing_takes_the_keyboard(s: Step, window: u64)
    requires
        s.m.surface_by_window.contains_key(window),
        s.m.windows.contains_key(s.m.surface_by_window[window]),
        !s.m.popups.contains_key(s.m.surface_by_window[window]),
        s.m.focused_window == Some(window),
        s.m.focused_surface is Some,
        s.m.keymap_sent,
    ensures
        ({
            let surface_id = WlSurfaceId(s.m.surface_by_window[window]);
            let t = after_event(s, window, WindowEvent::CloseRequested);
            &&& t.out == s.out.push(
                ActionModel::Plain(PlainAction::CloseToplevel { surface_id }),
            ).push(ActionModel::Plain(PlainAction::DropWindow { surface_id })).push(
                ActionModel::Plain(PlainAction::LeaveKeyboard { serial: t.m.serial }),
            )
            &&& t.m.focused_surface is None
            &&& t.m.focused_window is None
        }),
{
}

} // verus!
