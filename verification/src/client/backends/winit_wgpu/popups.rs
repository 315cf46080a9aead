//! Popups: where they go, and which surface has the keyboard while they are shown.
use crate::client::backends::winit_wgpu::model::{
    plus_plain, AppModel, PlainAction, PopupPlacement, Step,
};
use crate::models::surface::WlSurfaceId;
use crate::protocols::wprs::geometry::Point;
use crate::protocols::wprs::xdg_shell::XdgPopupState;
use crate::utils::sorted_map::{in_order, lemma_entries, SortedMap};
use vstd::prelude::*;

verus! {

/// The surface reached from `surface` by going from popup to parent `n` times, or as often as there
/// is a parent to go to.
pub open spec fn ancestor(popups: Map<u64, XdgPopupState>, surface: u64, n: nat) -> u64
    decreases n,
{
    if n == 0 {
        surface
    } else {
        let below = ancestor(popups, surface, (n - 1) as nat);
        if popups.contains_key(below) {
            popups[below].parent_surface_id.0
        } else {
            below
        }
    }
}

/// Whether going from popup to parent reaches a surface that is no popup.
pub open spec fn has_root(popups: Map<u64, XdgPopupState>, surface: u64) -> bool {
    exists|n: nat| !popups.contains_key(#[trigger] ancestor(popups, surface, n))
}

/// The surface at the root of a popup: the first one on the way that is no popup.
pub open spec fn root(popups: Map<u64, XdgPopupState>, surface: u64) -> u64 {
    ancestor(
        popups,
        surface,
        choose|n: nat| !popups.contains_key(#[trigger] ancestor(popups, surface, n)),
    )
}

proof fn lemma_ancestor_stays(popups: Map<u64, XdgPopupState>, surface: u64, n: nat, k: nat)
    requires
        !popups.contains_key(ancestor(popups, surface, n)),
        n <= k,
    ensures
        ancestor(popups, surface, k) == ancestor(popups, surface, n),
    decreases k,
{
    if n < k {
        lemma_ancestor_stays(popups, surface, n, (k - 1) as nat);
    }
}

/// Any surface on the way that is no popup is the root.
pub proof fn lemma_root(popups: Map<u64, XdgPopupState>, surface: u64, n: nat)
    requires
        !popups.contains_key(ancestor(popups, surface, n)),
    ensures
        has_root(popups, surface),
        root(popups, surface) == ancestor(popups, surface, n),
{
    let k = choose|k: nat| !popups.contains_key(#[trigger] ancestor(popups, surface, k));
    if n <= k {
        lemma_ancestor_stays(popups, surface, n, k);
    } else {
        lemma_ancestor_stays(popups, surface, k, n);
    }
}

/// The root of a surface is never a popup.
pub proof fn root_is_no_popup(popups: Map<u64, XdgPopupState>, surface: u64)
    requires
        has_root(popups, surface),
    ensures
        !popups.contains_key(root(popups, surface)),
{
    let n = choose|n: nat| !popups.contains_key(#[trigger] ancestor(popups, surface, n));
}

proof fn lemma_cycle(popups: Map<u64, XdgPopupState>, surface: u64, i: nat, k: nat, n: nat)
    requires
        i < k,
        ancestor(popups, surface, i) == ancestor(popups, surface, k),
        forall|j: nat| j < k ==> popups.contains_key(#[trigger] ancestor(popups, surface, j)),
    ensures
        popups.contains_key(ancestor(popups, surface, n)),
        n >= k ==> ancestor(popups, surface, n) == ancestor(popups, surface, (n - (k - i)) as nat),
    decreases n,
{
    if n >= k {
        if n > k {
            lemma_cycle(popups, surface, i, k, (n - 1) as nat);
        }
        lemma_cycle(popups, surface, i, k, (n - (k - i)) as nat);
    }
}

/// Whether the keyboard has somewhere to go when a surface is focused.
pub fn has_focus_target(popups: &SortedMap<u64, XdgPopupState>, surface: WlSurfaceId) -> (r: bool)
    requires
        popups.wf(),
    ensures
        r == has_root(popups@, surface.0),
{
    let mut visited: SortedMap<u64, ()> = SortedMap::new();
    let mut target: u64 = surface.0;
    let ghost mut k: nat = 0;
    proof {
        lemma_entries(popups.entries@);
        lemma_entries(visited.entries@);
    }
    loop
        invariant
            popups.wf(),
            visited.wf(),
            popups@.dom().finite(),
            visited@.dom().finite(),
            visited@.dom().subset_of(popups@.dom()),
            target == ancestor(popups@, surface.0, k),
            forall|j: nat| j < k ==> popups@.contains_key(#[trigger] ancestor(popups@, surface.0, j)),
            forall|s: u64| #[trigger]
                visited@.contains_key(s) ==> exists|j: nat|
                    j < k && #[trigger] ancestor(popups@, surface.0, j) == s,
        decreases popups@.dom().len() - visited@.dom().len(),
    {
        let parent: u64 = match popups.get(target) {
            Some(popup) => popup.parent_surface_id.0,
            None => {
                proof {
                    lemma_root(popups@, surface.0, k);
                }
                return true;
            },
        };
        if visited.contains(target) {
            proof {
                let i = choose|j: nat| j < k && #[trigger] ancestor(popups@, surface.0, j) == target;
                assert forall|n: nat| popups@.contains_key(#[trigger] ancestor(popups@, surface.0, n)) by {
                    lemma_cycle(popups@, surface.0, i, k, n);
                }
            }
            return false;
        }
        let ghost before = visited@;
        visited.insert(target, ());
        proof {
            assert(visited@.dom() =~= before.dom().insert(target));
            vstd::set_lib::lemma_len_subset(visited@.dom(), popups@.dom());
            assert(visited@.dom().len() == before.dom().len() + 1);
            assert(popups@[target].parent_surface_id.0 == parent);
            assert(ancestor(popups@, surface.0, k + 1) == parent);
            assert forall|s: u64| #[trigger] visited@.contains_key(s) implies exists|j: nat|
                j < k + 1 && #[trigger] ancestor(popups@, surface.0, j) == s by {
                if before.contains_key(s) {
                    let j = choose|j: nat| j < k && #[trigger] ancestor(popups@, surface.0, j) == s;
                    assert(j < k + 1 && ancestor(popups@, surface.0, j) == s);
                } else {
                    assert(ancestor(popups@, surface.0, k) == s);
                }
            }
            k = k + 1;
        }
        target = parent;
    }
}

/// The surface that gets the keyboard when a popup or toplevel is focused: the toplevel, since
/// popups are not given the keyboard.
pub fn keyboard_focus_target_for(
    popups: &SortedMap<u64, XdgPopupState>,
    surface_id: WlSurfaceId,
) -> (r: WlSurfaceId)
    requires
        popups.wf(),
        has_root(popups@, surface_id.0),
    ensures
        r.0 == root(popups@, surface_id.0),
        !popups@.contains_key(r.0),
{
    let ghost end: nat = choose|n: nat|
        !popups@.contains_key(#[trigger] ancestor(popups@, surface_id.0, n));
    let ghost mut k: nat = 0;
    let mut target: u64 = surface_id.0;
    loop
        invariant
            popups.wf(),
            target == ancestor(popups@, surface_id.0, k),
            k <= end,
            !popups@.contains_key(ancestor(popups@, surface_id.0, end)),
        decreases end - k,
    {
        match popups.get(target) {
            Some(popup) => {
                target = popup.parent_surface_id.0;
                proof {
                    assert(ancestor(popups@, surface_id.0, k + 1) == target);
                    k = k + 1;
                }
            },
            None => {
                proof {
                    lemma_root(popups@, surface_id.0, k);
                }
                return WlSurfaceId(target);
            },
        }
    }
}

/// Whether the offsets of a popup add up.
pub open spec fn has_offset(popup: XdgPopupState) -> bool {
    let at = popup.positioner.anchor_rect.loc;
    let by = popup.positioner.offset;
    &&& i32::MIN <= at.x + by.x <= i32::MAX
    &&& i32::MIN <= at.y + by.y <= i32::MAX
}

/// Where a popup goes, if its parent has a window.
pub open spec fn placement(m: AppModel, surface: u64, popup: XdgPopupState) -> Option<
    PopupPlacement,
> {
    let parent = popup.parent_surface_id.0;
    if m.windows.contains_key(parent) {
        let window = m.windows[parent];
        Some(
            PopupPlacement {
                popup: WlSurfaceId(surface),
                parent: popup.parent_surface_id,
                parent_pos: if m.inner_pos.contains_key(window) {
                    Some(m.inner_pos[window])
                } else {
                    None
                },
                server_scale: if m.scales.contains_key(parent) {
                    m.scales[parent]
                } else {
                    1
                },
                dx: (popup.positioner.anchor_rect.loc.x + popup.positioner.offset.x) as i32,
                dy: (popup.positioner.anchor_rect.loc.y + popup.positioner.offset.y) as i32,
            },
        )
    } else {
        None
    }
}

/// Moves a popup to its place, if it and its parent have windows.
pub open spec fn placed(s: Step, surface: u64, popup: XdgPopupState) -> Step {
    if s.m.windows.contains_key(surface) {
        match placement(s.m, surface, popup) {
            Some(p) => plus_plain(s, PlainAction::PlacePopup(p)),
            None => s,
        }
    } else {
        s
    }
}

/// Moves those of the popups in `keys` whose parent is `parent`.
pub open spec fn placed_popups(s: Step, parent: u64, keys: Seq<u64>) -> Step
    decreases keys.len(),
{
    if keys.len() == 0 {
        s
    } else {
        let before = placed_popups(s, parent, keys.drop_last());
        let key = keys.last();
        if s.m.popups[key].parent_surface_id.0 == parent {
            placed(before, key, s.m.popups[key])
        } else {
            before
        }
    }
}

/// Moves all popups of a parent.
pub open spec fn popups_follow(s: Step, parent: u64) -> Step {
    placed_popups(s, parent, in_order(s.m.popups.dom()))
}

/// Where a popup's window goes, given its offset in pixels of the screen.
pub fn popup_position(parent_pos: Point<i32>, dx: i32, dy: i32) -> (r: Point<i32>)
    ensures
        r.x == clamped_sum(parent_pos.x as int, dx as int),
        r.y == clamped_sum(parent_pos.y as int, dy as int),
{
    Point { x: saturating(parent_pos.x, dx), y: saturating(parent_pos.y, dy) }
}

pub open spec fn clamped_sum(a: int, b: int) -> int {
    if a + b > i32::MAX {
        i32::MAX as int
    } else if a + b < i32::MIN {
        i32::MIN as int
    } else {
        a + b
    }
}

fn saturating(a: i32, b: i32) -> (r: i32)
    ensures
        r == clamped_sum(a as int, b as int),
{
    let sum: i64 = a as i64 + b as i64;
    if sum > i32::MAX as i64 {
        i32::MAX
    } else if sum < i32::MIN as i64 {
        i32::MIN
    } else {
        sum as i32
    }
}

} // verus!
