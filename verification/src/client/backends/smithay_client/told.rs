//! What the server learns of the user's input, and what surfaces show after a commit.
use crate::client::backends::smithay_client::compositor::{
    after_input, after_removals, after_state, after_states, after_upload, after_window_event,
    is_event, sizes_of, Hit, InputEvent, Message, MessageModel, Step, WindowEvent,
};
use crate::client::backends::smithay_client::surfaces::EntryModel;
use crate::models::surface::{ClientSurface, SurfaceState};
use crate::models::surface_model::SurfaceModel;
use crate::protocols::wprs::geometry::{Point, Size};
use crate::protocols::wprs::types::Event;
use crate::protocols::wprs::wayland::{
    AxisScroll, AxisSource, KeyInner, KeyState, KeyboardEvent, ModifierState, PointerEvent,
    PointerEventKind,
};
use crate::utils::ieee::F64;
use crate::utils::sorted_map::{increasing, lemma_in_order};
use vstd::prelude::*;

verus! {

/// A key goes up or down: while a surface has the keyboard, the server is told so at once, and of
/// nothing else. The keys that are held are those that went down and not up since.
pub proof fn keys_are_told(s: Step, code: u32, pressed: bool, other: u32)
    requires
        other != code,
    ensures
        ({
            let t = after_input(s, InputEvent::Keyboard { code, pressed });
            &&& s.m.focused is None ==> t.out == s.out
            &&& s.m.focused is Some ==> t.out == s.out.push(
                MessageModel::Key(
                    KeyInner {
                        serial: t.m.serial,
                        raw_code: code,
                        state: if pressed {
                            KeyState::Pressed
                        } else {
                            KeyState::Released
                        },
                    },
                ),
            ) && t.m.serial != s.m.serial && t.m.serial != 0
            &&& t.m.pressed.contains(code) == pressed
            &&& t.m.pressed.contains(other) == s.m.pressed.contains(other)
        }),
{
}

/// The pointer moves within the surface that it is over.
pub proof fn motion_is_told(s: Step, at: Point<F64>, hit: Hit, left: Point<F64>)
    requires
        s.m.hovered == Some(hit.surface_id),
    ensures
        ({
            let t = after_input(s, InputEvent::PointerMotion { at, hit: Some(hit), left });
            &&& t.out == s.out.push(
                MessageModel::Pointer(
                    PointerEvent {
                        surface_id: hit.surface_id,
                        position: hit.position,
                        kind: PointerEventKind::Motion,
                    },
                ),
            )
            &&& t.m.cursor == at
            &&& t.m.hovered == Some(hit.surface_id)
        }),
{
}

/// The pointer moves from one surface to another, or from or to no surface: it leaves the one where
/// it was last seen in it, enters the other, and moves there, in this order.
#[verifier::rlimit(40)]
pub proof fn crossings_are_told(s: Step, at: Point<F64>, hit: Option<Hit>, left: Point<F64>)
    requires
        s.m.hovered != (match hit {
            Some(hit) => Some(hit.surface_id),
            None => None,
        }),
    ensures
        ({
            let t = after_input(s, InputEvent::PointerMotion { at, hit, left });
            let n = s.out.len() as int;
            let leaves = if s.m.hovered is Some {
                1int
            } else {
                0int
            };
            &&& t.out.len() == n + leaves + (if hit is Some {
                2int
            } else {
                0int
            })
            &&& t.out.subrange(0, n) == s.out
            &&& s.m.hovered is Some ==> (t.out[n] matches MessageModel::Pointer(e) && e.kind is Leave
                && e.surface_id == s.m.hovered->0 && e.position == left)
            &&& hit matches Some(hit) ==> {
                &&& t.out[n + leaves] matches MessageModel::Pointer(e)
                &&& e == (PointerEvent {
                    surface_id: hit.surface_id,
                    position: hit.position,
                    kind: PointerEventKind::Enter { serial: t.m.serial },
                })
            }
            &&& hit matches Some(hit) ==> {
                &&& t.out[n + leaves + 1] matches MessageModel::Pointer(e)
                &&& e == (PointerEvent {
                    surface_id: hit.surface_id,
                    position: hit.position,
                    kind: PointerEventKind::Motion,
                })
            }
            &&& t.m.cursor == at
            &&& t.m.hovered == (match hit {
                Some(hit) => Some(hit.surface_id),
                None => None,
            })
        }),
{
    let t = after_input(s, InputEvent::PointerMotion { at, hit, left });
    assert(t.out.subrange(0, s.out.len() as int) =~= s.out);
}

/// A button that goes down or up over a surface is told as it is; over no surface it is not told.
pub proof fn buttons_are_told(s: Step, button: u32, pressed: bool, hit: Hit)
    ensures
        ({
            let t = after_input(s, InputEvent::PointerButton { button, pressed, hit: Some(hit) });
            &&& t.out.last() == MessageModel::Pointer(
                PointerEvent {
                    surface_id: hit.surface_id,
                    position: hit.position,
                    kind: if pressed {
                        PointerEventKind::Press { button, serial: t.m.serial }
                    } else {
                        PointerEventKind::Release { button, serial: t.m.serial }
                    },
                },
            )
            &&& pressed ==> t.m.focused == Some(hit.surface_id)
            &&& !pressed ==> t.m.focused == s.m.focused && t.out.len() == s.out.len() + 1
        }),
        after_input(s, InputEvent::PointerButton { button, pressed, hit: None }) == s,
{
}

/// A press over a surface that has not the keyboard moves the keyboard there, with the keys that are
/// held. (The keymap has been asked for before.)
#[verifier::rlimit(40)]
pub proof fn presses_move_the_keyboard(s: Step, button: u32, hit: Hit, held: Seq<u32>)
    requires
        s.m.keymap_sent,
        s.m.focused != Some(hit.surface_id),
        increasing(held),
        s.m.pressed == held.to_set(),
    ensures
        ({
            let t = after_input(
                s,
                InputEvent::PointerButton { button, pressed: true, hit: Some(hit) },
            );
            let n = s.out.len() as int;
            let leaves = if s.m.focused is Some {
                1int
            } else {
                0int
            };
            &&& t.out.len() == n + leaves + 2
            &&& s.m.focused is Some ==> t.out[n] is LeaveKeyboard
            &&& t.out[n + leaves] matches MessageModel::EnterKeyboard {
                serial,
                surface_id,
                keycodes,
            }
            &&& surface_id == hit.surface_id
            &&& keycodes == held
        }),
{
    lemma_in_order(held);
}

/// Scrolling and modifiers are told as they are.
pub proof fn scrolling_and_modifiers_are_told(
    s: Step,
    horizontal: AxisScroll,
    vertical: AxisScroll,
    source: Option<AxisSource>,
    hit: Hit,
    modifiers: ModifierState,
)
    ensures
        after_input(
            s,
            InputEvent::PointerAxis { horizontal, vertical, source, hit: Some(hit) },
        ) == (Step {
            out: s.out.push(
                MessageModel::Pointer(
                    PointerEvent {
                        surface_id: hit.surface_id,
                        position: hit.position,
                        kind: PointerEventKind::Axis { horizontal, vertical, source },
                    },
                ),
            ),
            ..s
        }),
        after_input(s, InputEvent::PointerAxis { horizontal, vertical, source, hit: None }) == s,
        after_input(s, InputEvent::Modifiers(modifiers)) == (Step {
            out: s.out.push(MessageModel::Modifiers(modifiers)),
            ..s
        }),
        after_input(s, InputEvent::Other) == s,
{
}

/// The compositor window takes the keyboard away when it loses the focus, and keeps its new size.
pub proof fn window_events_are_noted(s: Step, size: Size<i32>)
    requires
        s.m.keymap_sent,
    ensures
        ({
            let lost = after_window_event(s, WindowEvent::Focus(false));
            let resized = after_window_event(s, WindowEvent::Resized(size));
            &&& lost.m.focused is None
            &&& lost.out == (if s.m.focused is Some {
                s.out.push(MessageModel::LeaveKeyboard { serial: lost.m.serial })
            } else {
                s.out
            })
            &&& after_window_event(s, WindowEvent::Focus(true)) == s
            &&& resized.m.window_size == size
            &&& resized.out == s.out
        }),
{
}

/// Each message says to the server what it is.
pub proof fn messages_say_what_they_mean(message: Message, event: Option<Event>)
    requires
        is_event(message, event),
    ensures
        match message {
            Message::Pointer(e) => event matches Some(Event::PointerFrame(frame)) && frame@.len()
                == 1 && frame@[0] == e,
            Message::EnterKeyboard { serial, surface_id, keycodes } => event matches Some(
                Event::KeyboardEvent(
                    KeyboardEvent::Enter { serial: n, surface_id: target, keycodes: held, .. },
                ),
            ) && n == serial && target == surface_id && held@ == keycodes@,
            Message::LeaveKeyboard { serial } => event == Some(
                Event::KeyboardEvent(KeyboardEvent::Leave { serial }),
            ),
            Message::Key(key) => event == Some(Event::KeyboardEvent(KeyboardEvent::Key(key))),
            Message::Modifiers(held) => event matches Some(
                Event::KeyboardEvent(KeyboardEvent::Modifiers { modifier_state, layout_index }),
            ) && modifier_state == held && layout_index == 0,
            Message::Keymap => event is None,
        },
{
}

/// A commit with a bitmap shows this bitmap, one that takes it away shows nothing, and one without
/// any news of it leaves it as it is. Other surfaces keep theirs.
pub proof fn commits_are_shown(surfaces: Map<u64, EntryModel>, state: SurfaceModel, other: u64)
    requires
        state.bitmap_update is None,
        other != state.id.0,
    ensures
        ({
            let after = after_state(surfaces, state);
            &&& match state.bitmap {
                Some(Some(bitmap)) => {
                    &&& after.contains_key(state.id.0)
                    &&& after[state.id.0].id == state.id
                    &&& after[state.id.0].metadata == bitmap.metadata
                    &&& after[state.id.0].data == bitmap.data
                    &&& after[state.id.0].dirty
                },
                Some(None) => !after.contains_key(state.id.0),
                None => after == surfaces,
            }
            &&& after.contains_key(other) == surfaces.contains_key(other)
            &&& surfaces.contains_key(other) ==> after[other] == surfaces[other]
        }),
{
}

/// A patch changes the pixels of a surface only, and has them drawn again. A surface without pixels
/// has none to change.
pub proof fn patches_are_drawn(surfaces: Map<u64, EntryModel>, state: SurfaceModel, other: u64)
    requires
        state.bitmap is None,
        state.bitmap_update is Some,
        other != state.id.0,
    ensures
        ({
            let after = after_state(surfaces, state);
            &&& !surfaces.contains_key(state.id.0) ==> after == surfaces
            &&& surfaces.contains_key(state.id.0) ==> after.contains_key(state.id.0)
                && after[state.id.0].dirty && after[state.id.0].metadata
                == surfaces[state.id.0].metadata && after[state.id.0].id == surfaces[state.id.0].id
            &&& after.contains_key(other) == surfaces.contains_key(other)
            &&& surfaces.contains_key(other) ==> after[other] == surfaces[other]
        }),
{
}

/// Commits take effect in the order in which they come, and surfaces that are gone show nothing.
#[verifier::rlimit(40)]
pub proof fn updates_take_effect_in_order(
    surfaces: Map<u64, EntryModel>,
    updated: Seq<SurfaceState>,
    last: SurfaceState,
    removed: Seq<ClientSurface>,
    i: int,
    other: u64,
)
    ensures
        after_states(surfaces, Seq::empty()) == surfaces,
        after_states(surfaces, updated.push(last)) == after_state(
            after_states(surfaces, updated),
            last@,
        ),
        0 <= i < removed.len() ==> !after_removals(surfaces, removed).contains_key(
            removed[i].surface.0,
        ),
        (forall|j: int| 0 <= j < removed.len() ==> (#[trigger] removed[j]).surface.0 != other) ==> (
        after_removals(surfaces, removed).contains_key(other) == surfaces.contains_key(other) && (
        surfaces.contains_key(other) ==> after_removals(surfaces, removed)[other]
            == surfaces[other])),
    decreases removed.len(),
{
    assert(updated.push(last).drop_last() =~= updated);
    if removed.len() > 0 {
        let before = removed.drop_last();
        updates_take_effect_in_order(surfaces, updated, last, before, i, other);
        assert forall|j: int| 0 <= j < before.len() implies (#[trigger] before[j])
            == removed[j] by {}
        if (forall|j: int| 0 <= j < removed.len() ==> (#[trigger] removed[j]).surface.0 != other) {
            assert(removed.last() == removed[removed.len() - 1]);
        }
    }
}

/// Pixels that have been drawn need not be again.
pub proof fn drawn_pixels_are_clean(surfaces: Map<u64, EntryModel>, surface: u64, other: u64)
    requires
        surfaces.contains_key(surface),
        other != surface,
    ensures
        ({
            let after = after_upload(surfaces, surface);
            &&& after.contains_key(surface)
            &&& !after[surface].dirty
            &&& after[surface].data == surfaces[surface].data
            &&& after[surface].metadata == surfaces[surface].metadata
            &&& after.contains_key(other) == surfaces.contains_key(other)
            &&& surfaces.contains_key(other) ==> after[other] == surfaces[other]
        }),
{
}

/// Every surface is laid out with its size, by its number.
pub proof fn all_sizes_are_told(surfaces: Map<u64, EntryModel>, keys: Seq<u64>, i: int)
    requires
        increasing(keys),
        surfaces.dom() == keys.to_set(),
        0 <= i < keys.len(),
    ensures
        sizes_of(surfaces).len() == keys.len(),
        sizes_of(surfaces)[i].id == surfaces[keys[i]].id,
        sizes_of(surfaces)[i].width == surfaces[keys[i]].metadata.width,
        sizes_of(surfaces)[i].height == surfaces[keys[i]].metadata.height,
{
    lemma_in_order(keys);
}

} // verus!
