//! The keymap that the server is told of: it is asked for once, and told if there is one.
use crate::client::backends::winit_wgpu::app::{
    after_resume, cursor_changed, focus_moved, keymap_told,
};
use crate::client::backends::winit_wgpu::events::{
    after_event, before_popups, focus_target, WindowEvent,
};
use crate::client::backends::winit_wgpu::model::{ActionModel, AppModel, PlainAction, Step};
use crate::client::backends::winit_wgpu::popups::placed_popups;
use crate::client::backends::winit_wgpu::surfaces::{
    commit_finished, surface_destroyed, window_added, Presented,
};
use crate::models::surface::WlSurfaceId;
use crate::models::surface_model::BufferModel;
use crate::protocols::wprs::geometry::Point;
use crate::protocols::wprs::types::Event;
use crate::protocols::wprs::wayland::KeyboardEvent;
use crate::utils::sorted_map::in_order;
use vstd::prelude::*;

verus! {

/// What the server is told once the keymap was asked for: the keymap, unless it could not be had.
pub fn keymap_message(loaded: Option<String>) -> (r: Option<Event>)
    ensures
        match loaded {
            Some(keymap) => r == Some(Event::KeyboardEvent(KeyboardEvent::Keymap(keymap))),
            None => r is None,
        },
{
    match loaded {
        Some(keymap) => Some(Event::KeyboardEvent(KeyboardEvent::Keymap(keymap))),
        None => None,
    }
}

/// The keymaps that the server is told of where each request for one gives `loaded`.
pub open spec fn keymaps_told(out: Seq<ActionModel>, loaded: Option<Seq<char>>) -> Seq<Seq<char>>
    decreases out.len(),
{
    if out.len() == 0 {
        Seq::empty()
    } else {
        let before = keymaps_told(out.drop_last(), loaded);
        match loaded {
            Some(keymap) if out.last() == ActionModel::Plain(PlainAction::LoadKeymap) => before.push(
                keymap,
            ),
            _ => before,
        }
    }
}

/// The first time round the server is told of the keymap, if it is to have one and one could be
/// had, and of nothing otherwise. After that there is nothing more to tell.
pub proof fn keymap_is_told_once(s: Step, loaded: Option<Seq<char>>)
    requires
        !s.m.keymap_sent,
    ensures
        keymaps_told(keymap_told(s).out, loaded) == (match loaded {
            Some(keymap) if s.m.keyboard_mode is Keymap => keymaps_told(s.out, loaded).push(keymap),
            _ => keymaps_told(s.out, loaded),
        }),
        keymap_told(keymap_told(s)) == keymap_told(s),
{
    assert(s.out.push(ActionModel::Plain(PlainAction::LoadKeymap)).drop_last() =~= s.out);
}

/// The keymap was asked for, and nothing asks for it again from one step to another.
pub open spec fn asks_no_more(s: Step, t: Step) -> bool {
    &&& t.m.keymap_sent
    &&& s.out.len() <= t.out.len()
    &&& s.out == t.out.subrange(0, s.out.len() as int)
    &&& forall|i: int|
        s.out.len() <= i < t.out.len() ==> #[trigger] t.out[i] != ActionModel::Plain(
            PlainAction::LoadKeymap,
        )
}

proof fn lemma_placed_popups(s: Step, parent: u64, keys: Seq<u64>)
    requires
        s.m.keymap_sent,
    ensures
        placed_popups(s, parent, keys).m == s.m,
        asks_no_more(s, placed_popups(s, parent, keys)),
    decreases keys.len(),
{
    if keys.len() > 0 {
        lemma_placed_popups(s, parent, keys.drop_last());
    }
    assert(s.out =~= placed_popups(s, parent, keys).out.subrange(0, s.out.len() as int));
}

pub open spec fn moves_popups(event: WindowEvent) -> bool {
    event is Resized || event is ScaleFactorChanged || event is Moved
}

proof fn lemma_popups_follow(s: Step, window: u64, event: WindowEvent)
    requires
        s.m.keymap_sent,
        moves_popups(event),
    ensures
        asks_no_more(s, after_event(s, window, event)),
{
    let t = after_event(s, window, event);
    if s.m.surface_by_window.contains_key(window) {
        let surface = s.m.surface_by_window[window];
        let keys = in_order(s.m.popups.dom());
        let start = match event {
            WindowEvent::Moved { inner_pos: Some(pos) } => Step {
                m: AppModel { inner_pos: s.m.inner_pos.insert(window, pos), ..s.m },
                ..s
            },
            WindowEvent::Moved { .. } => s,
            _ => before_popups(s, WlSurfaceId(surface)),
        };
        lemma_placed_popups(start, surface, keys);
        if s.m.windows.contains_key(surface) {
            assert(t == placed_popups(start, surface, keys));
            assert(forall|i: int|
                0 <= i < start.out.len() ==> t.out.subrange(0, start.out.len() as int)[i]
                    == #[trigger] t.out[i]);
        }
    }
    assert(s.out =~= t.out.subrange(0, s.out.len() as int));
}

proof fn lemma_motion(s: Step, window: u64, event: WindowEvent)
    requires
        s.m.keymap_sent,
        event is CursorMoved,
    ensures
        asks_no_more(s, after_event(s, window, event)),
{
    let t = after_event(s, window, event);
    assert(s.out =~= t.out.subrange(0, s.out.len() as int));
}

proof fn lemma_pointer(s: Step, window: u64, event: WindowEvent)
    requires
        s.m.keymap_sent,
        event is CursorEntered || event is CursorLeft || event is MouseWheel,
    ensures
        asks_no_more(s, after_event(s, window, event)),
{
    let t = after_event(s, window, event);
    assert(s.out =~= t.out.subrange(0, s.out.len() as int));
}

proof fn lemma_buttons(s: Step, window: u64, event: WindowEvent)
    requires
        s.m.keymap_sent,
        event is MouseInput,
    ensures
        asks_no_more(s, after_event(s, window, event)),
{
    let t = after_event(s, window, event);
    assert(s.out =~= t.out.subrange(0, s.out.len() as int));
}

proof fn lemma_pinch(s: Step, window: u64, event: WindowEvent)
    requires
        s.m.keymap_sent,
        event is PinchGesture,
    ensures
        asks_no_more(s, after_event(s, window, event)),
{
    let t = after_event(s, window, event);
    assert(s.out =~= t.out.subrange(0, s.out.len() as int));
}

proof fn lemma_rotation(s: Step, window: u64, event: WindowEvent)
    requires
        s.m.keymap_sent,
        event is RotationGesture,
    ensures
        asks_no_more(s, after_event(s, window, event)),
{
    let t = after_event(s, window, event);
    assert(s.out =~= t.out.subrange(0, s.out.len() as int));
}

proof fn lemma_focus_moved(s: Step, target: Option<WlSurfaceId>)
    requires
        s.m.keymap_sent,
    ensures
        asks_no_more(s, focus_moved(s, target)),
{
    assert(s.out =~= focus_moved(s, target).out.subrange(0, s.out.len() as int));
}

proof fn lemma_focused(s: Step, window: u64, gained: bool)
    requires
        s.m.keymap_sent,
    ensures
        asks_no_more(s, after_event(s, window, WindowEvent::Focused(gained))),
{
    if s.m.surface_by_window.contains_key(window) {
        let focused_window = if gained {
            Some(window)
        } else {
            None
        };
        let target = if gained {
            Some(focus_target(s.m, s.m.surface_by_window[window]))
        } else {
            None
        };
        lemma_focus_moved(Step { m: AppModel { focused_window, ..s.m }, ..s }, target);
    }
    let t = after_event(s, window, WindowEvent::Focused(gained));
    assert(s.out =~= t.out.subrange(0, s.out.len() as int));
}

proof fn lemma_closed(s: Step, window: u64, event: WindowEvent)
    requires
        s.m.keymap_sent,
        event is CloseRequested,
    ensures
        asks_no_more(s, after_event(s, window, event)),
{
    let t = after_event(s, window, event);
    assert(s.out =~= t.out.subrange(0, s.out.len() as int));
}

proof fn lemma_keys(s: Step, window: u64, event: WindowEvent)
    requires
        s.m.keymap_sent,
        event is KeyboardInput || event is ModifiersChanged,
    ensures
        asks_no_more(s, after_event(s, window, event)),
{
    let t = after_event(s, window, event);
    assert(s.out =~= t.out.subrange(0, s.out.len() as int));
}

proof fn lemma_other_events(s: Step, window: u64, event: WindowEvent)
    requires
        s.m.keymap_sent,
        event is RedrawRequested || event is Other,
    ensures
        asks_no_more(s, after_event(s, window, event)),
{
    let t = after_event(s, window, event);
    assert(s.out =~= t.out.subrange(0, s.out.len() as int));
}

/// Once the keymap was asked for, no event in a window asks for it again, nor does the program
/// when it comes to the fore.
pub proof fn keymap_is_not_asked_for_again(s: Step, window: u64, event: WindowEvent, now: u64)
    requires
        s.m.keymap_sent,
    ensures
        asks_no_more(s, after_event(s, window, event)),
        asks_no_more(s, after_resume(s, now)),
{
    match event {
        WindowEvent::CursorMoved { .. } => lemma_motion(s, window, event),
        WindowEvent::MouseInput { .. } => lemma_buttons(s, window, event),
        WindowEvent::PinchGesture { .. } => lemma_pinch(s, window, event),
        WindowEvent::RotationGesture { .. } => lemma_rotation(s, window, event),
        WindowEvent::CursorEntered
        | WindowEvent::CursorLeft
        | WindowEvent::MouseWheel { .. } => lemma_pointer(s, window, event),
        WindowEvent::Resized
        | WindowEvent::ScaleFactorChanged
        | WindowEvent::Moved { .. } => lemma_popups_follow(s, window, event),
        WindowEvent::Focused(gained) => lemma_focused(s, window, gained),
        WindowEvent::CloseRequested => lemma_closed(s, window, event),
        WindowEvent::KeyboardInput { .. }
        | WindowEvent::ModifiersChanged(_) => lemma_keys(s, window, event),
        _ => lemma_other_events(s, window, event),
    }
    let resumed = after_resume(s, now);
    assert(s.out =~= resumed.out.subrange(0, s.out.len() as int));
}

/// Once the keymap was asked for, nothing else that happens to windows and cursors asks for it
/// again.
pub proof fn other_steps_leave_the_keymap_alone(
    s: Step,
    surface: WlSurfaceId,
    presented: Presented,
    window: u64,
    inner_pos: Option<Point<i32>>,
    buffer: Option<Option<BufferModel>>,
    visible: bool,
)
    requires
        s.m.keymap_sent,
    ensures
        asks_no_more(s, cursor_changed(s, visible)),
        asks_no_more(s, surface_destroyed(s, surface.0)),
        asks_no_more(s, window_added(s, surface, presented, window, inner_pos)),
        asks_no_more(s, commit_finished(s, surface, presented, buffer)),
{
    let n = s.out.len() as int;
    assert(s.out =~= cursor_changed(s, visible).out.subrange(0, n));
    assert(s.out =~= surface_destroyed(s, surface.0).out.subrange(0, n));
    assert(s.out =~= window_added(s, surface, presented, window, inner_pos).out.subrange(0, n));
    assert(s.out =~= commit_finished(s, surface, presented, buffer).out.subrange(0, n));
}

} // verus!
