//! The list of windows that surface updates amount to.
use crate::models::surface::{BitmapAssignment, ClientSurface, Role, SurfaceState, WlSurfaceId};
use crate::models::surface_model::{
    clone_text, same_text, text_view, RoleModel, SurfaceModel, ToplevelModel,
};
use std::collections::HashMap;
use vstd::prelude::*;

verus! {

broadcast use vstd::std_specs::hash::group_hash_axioms;

#[derive(Debug)]
pub struct WindowInfo {
    pub id: WlSurfaceId,
    pub title: Option<String>,
    pub app_id: Option<String>,
    pub size: Option<(u32, u32)>,
}

#[verifier::ext_equal]
pub struct InfoModel {
    pub id: WlSurfaceId,
    pub title: Option<Seq<char>>,
    pub app_id: Option<Seq<char>>,
    pub size: Option<(u32, u32)>,
}

impl View for WindowInfo {
    type V = InfoModel;

    open spec fn view(&self) -> InfoModel {
        InfoModel {
            id: self.id,
            title: text_view(self.title),
            app_id: text_view(self.app_id),
            size: self.size,
        }
    }
}

/// The title of a window, or else the name of its application.
pub open spec fn shown_title(info: InfoModel) -> Option<Seq<char>> {
    match info.title {
        Some(title) => Some(title),
        None => info.app_id,
    }
}

impl WindowInfo {
    pub fn display_title(&self) -> (r: Option<&str>)
        ensures
            match r {
                Some(title) => shown_title(self@) == Some(title@),
                None => shown_title(self@) is None,
            },
    {
        match &self.title {
            Some(title) => Some(title.as_str()),
            None => match &self.app_id {
                Some(app_id) => Some(app_id.as_str()),
                None => None,
            },
        }
    }

    fn same(&self, other: &WindowInfo) -> (r: bool)
        ensures
            r == (self@ == other@),
    {
        self.id == other.id && same_text(&self.title, &other.title) && same_text(
            &self.app_id,
            &other.app_id,
        ) && self.size == other.size
    }
}

impl Clone for WindowInfo {
    fn clone(&self) -> (r: Self)
        ensures
            r@ == self@,
    {
        WindowInfo {
            id: self.id,
            title: clone_text(&self.title),
            app_id: clone_text(&self.app_id),
            size: self.size,
        }
    }
}

/// What changed in the list of windows.
pub struct WindowDelta {
    pub upserts: Vec<WindowInfo>,
    pub removed: Vec<WlSurfaceId>,
}

/// The window of a surface state: only toplevels have one. A window has a size where a bitmap is
/// assigned whose width and height are not negative.
pub open spec fn window_of(state: SurfaceModel) -> Option<InfoModel> {
    match state.role {
        Some(RoleModel::XdgToplevel(toplevel)) => Some(
            InfoModel {
                id: state.id,
                title: toplevel.title,
                app_id: toplevel.app_id,
                size: match state.bitmap {
                    Some(Some(bitmap)) => if bitmap.metadata.width >= 0 && bitmap.metadata.height
                        >= 0 {
                        Some((bitmap.metadata.width as u32, bitmap.metadata.height as u32))
                    } else {
                        None
                    },
                    _ => None,
                },
            },
        ),
        _ => None,
    }
}

/// The windows by surface, and what has been reported of them.
#[verifier::ext_equal]
pub struct ListModel {
    pub windows: Map<u64, InfoModel>,
    pub upserts: Seq<InfoModel>,
    pub removed: Seq<WlSurfaceId>,
}

pub open spec fn after_removal(list: ListModel, id: WlSurfaceId) -> ListModel {
    if list.windows.contains_key(id.0) {
        ListModel {
            windows: list.windows.remove(id.0),
            removed: list.removed.push(id),
            ..list
        }
    } else {
        list
    }
}

pub open spec fn after_update(list: ListModel, state: SurfaceModel) -> ListModel {
    match window_of(state) {
        None => after_removal(list, state.id),
        Some(info) => if list.windows.contains_key(state.id.0) && list.windows[state.id.0] == info {
            list
        } else {
            ListModel {
                windows: list.windows.insert(state.id.0, info),
                upserts: list.upserts.push(info),
                ..list
            }
        },
    }
}

pub open spec fn after_updates(list: ListModel, states: Seq<SurfaceModel>) -> ListModel
    decreases states.len(),
{
    if states.len() == 0 {
        list
    } else {
        after_update(after_updates(list, states.drop_last()), states.last())
    }
}

pub open spec fn after_removals(list: ListModel, gone: Seq<ClientSurface>) -> ListModel
    decreases gone.len(),
{
    if gone.len() == 0 {
        list
    } else {
        after_removal(after_removals(list, gone.drop_last()), gone.last().surface)
    }
}

/// A list of which nothing has been reported yet.
pub open spec fn unreported(windows: Map<u64, InfoModel>) -> ListModel {
    ListModel { windows, upserts: Seq::empty(), removed: Seq::empty() }
}

pub open spec fn surface_models(states: Seq<SurfaceState>) -> Seq<SurfaceModel> {
    Seq::new(states.len(), |i: int| states[i]@)
}

pub open spec fn info_models(infos: Seq<WindowInfo>) -> Seq<InfoModel> {
    Seq::new(infos.len(), |i: int| infos[i]@)
}

pub struct WindowManager {
    pub windows: HashMap<u64, WindowInfo>,
}

impl View for WindowManager {
    type V = Map<u64, InfoModel>;

    open spec fn view(&self) -> Map<u64, InfoModel> {
        self.windows@.map_values(|info: WindowInfo| info@)
    }
}

impl WindowManager {
    pub fn new() -> (r: Self)
        ensures
            r@ == Map::<u64, InfoModel>::empty(),
    {
        let r = WindowManager { windows: HashMap::new() };
        assert(r@ =~= Map::<u64, InfoModel>::empty());
        r
    }

    fn window_info_from_state(state: &SurfaceState) -> (r: Option<WindowInfo>)
        ensures
            match r {
                Some(info) => window_of(state@) == Some(info@),
                None => window_of(state@) is None,
            },
    {
        let toplevel = match &state.role {
            Some(Role::XdgToplevel(toplevel)) => toplevel,
            _ => {
                return None;
            },
        };
        let size = match &state.bitmap {
            Some(BitmapAssignment::New(bitmap)) => if bitmap.metadata.width >= 0
                && bitmap.metadata.height >= 0 {
                Some((bitmap.metadata.width as u32, bitmap.metadata.height as u32))
            } else {
                None
            },
            _ => None,
        };
        Some(
            WindowInfo {
                id: state.id,
                title: clone_text(&toplevel.title),
                app_id: clone_text(&toplevel.app_id),
                size,
            },
        )
    }

    fn remove_window(&mut self, id: WlSurfaceId, delta: &mut WindowDelta)
        ensures
            list_of(*final(self), *final(delta)) == after_removal(
                list_of(*old(self), *old(delta)),
                id,
            ),
    {
        let ghost before = self.windows@;
        if self.windows.remove(&id.0).is_some() {
            delta.removed.push(id);
        }
        proof {
            assert(before.remove(id.0).map_values(|info: WindowInfo| info@) =~= before.map_values(
                |info: WindowInfo| info@,
            ).remove(id.0));
            assert(before.remove(id.0) =~= before || before.contains_key(id.0));
        }
    }

    fn update_window(&mut self, state: &SurfaceState, delta: &mut WindowDelta)
        ensures
            list_of(*final(self), *final(delta)) == after_update(
                list_of(*old(self), *old(delta)),
                state@,
            ),
    {
        let ghost list = list_of(*self, *delta);
        match Self::window_info_from_state(state) {
            None => {
                self.remove_window(state.id, delta);
            },
            Some(info) => {
                let is_changed = match self.windows.get(&state.id.0) {
                    Some(existing) => !existing.same(&info),
                    None => true,
                };
                if is_changed {
                    let copy = info.clone();
                    let ghost before = self.windows@;
                    let ghost kept = info_models(delta.upserts@);
                    let _ = self.windows.insert(state.id.0, copy);
                    delta.upserts.push(info);
                    proof {
                        assert(before.insert(state.id.0, copy).map_values(|info: WindowInfo| info@)
                            =~= before.map_values(|info: WindowInfo| info@).insert(
                            state.id.0,
                            copy@,
                        ));
                        assert(info_models(delta.upserts@) =~= kept.push(info@));
                    }
                }
            },
        }
        assert(list_of(*self, *delta) =~= after_update(list, state@));
    }

    /// Brings the windows up to date and says what changed, oldest change first.
    pub fn apply_surface_updates(
        &mut self,
        updated: &[SurfaceState],
        removed: &[ClientSurface],
    ) -> (delta: WindowDelta)
        ensures
            list_of(*final(self), delta) == after_removals(
                after_updates(unreported(old(self)@), surface_models(updated@)),
                removed@,
            ),
    {
        let mut delta = WindowDelta { upserts: Vec::new(), removed: Vec::new() };
        let ghost start = unreported(self@);
        assert(list_of(*self, delta) =~= start);
        let ghost states = surface_models(updated@);
        assert(states.subrange(0, 0) =~= Seq::empty());
        let mut i: usize = 0;
        while i < updated.len()
            invariant
                i <= updated@.len(),
                states == surface_models(updated@),
                list_of(*self, delta) == after_updates(start, states.subrange(0, i as int)),
            decreases updated@.len() - i,
        {
            self.update_window(&updated[i], &mut delta);
            i = i + 1;
            assert(states.subrange(0, i as int).drop_last() =~= states.subrange(0, i - 1));
        }
        assert(states.subrange(0, i as int) =~= states);
        let ghost middle = after_updates(start, states);
        assert(removed@.subrange(0, 0) =~= Seq::empty());
        let mut i: usize = 0;
        while i < removed.len()
            invariant
                i <= removed@.len(),
                list_of(*self, delta) == after_removals(middle, removed@.subrange(0, i as int)),
            decreases removed@.len() - i,
        {
            self.remove_window(removed[i].surface, &mut delta);
            i = i + 1;
            assert(removed@.subrange(0, i as int).drop_last() =~= removed@.subrange(0, i - 1));
        }
        assert(removed@.subrange(0, i as int) =~= removed@);
        delta
    }
}

pub open spec fn list_of(manager: WindowManager, delta: WindowDelta) -> ListModel {
    ListModel {
        windows: manager@,
        upserts: info_models(delta.upserts@),
        removed: delta.removed@,
    }
}

/// Whether the windows already are what `state` makes of them.
pub open spec fn settled(windows: Map<u64, InfoModel>, state: SurfaceModel) -> bool {
    match window_of(state) {
        None => !windows.contains_key(state.id.0),
        Some(info) => windows.contains_key(state.id.0) && windows[state.id.0] == info,
    }
}

/// Whether states of the same surface make the same of its window.
pub open spec fn agree(states: Seq<SurfaceModel>) -> bool {
    forall|i: int, j: int|
        #![trigger states[i], states[j]]
        0 <= i < j < states.len() && states[i].id.0 == states[j].id.0 ==> window_of(states[i])
            == window_of(states[j])
}

proof fn lemma_all_settled(list: ListModel, states: Seq<SurfaceModel>)
    requires
        agree(states),
    ensures
        forall|i: int|
            0 <= i < states.len() ==> settled(
                after_updates(list, states).windows,
                #[trigger] states[i],
            ),
    decreases states.len(),
{
    if states.len() > 0 {
        let init = states.drop_last();
        lemma_all_settled(list, init);
        assert forall|i: int| 0 <= i < states.len() implies settled(
            after_updates(list, states).windows,
            #[trigger] states[i],
        ) by {
            if i < init.len() {
                assert(init[i] == states[i]);
                assert(states[i].id.0 != states[states.len() - 1].id.0 || window_of(states[i])
                    == window_of(states[states.len() - 1]));
            }
        }
    }
}

proof fn lemma_settled_updates_do_nothing(list: ListModel, states: Seq<SurfaceModel>)
    requires
        forall|i: int| 0 <= i < states.len() ==> settled(list.windows, #[trigger] states[i]),
    ensures
        after_updates(list, states) == list,
    decreases states.len(),
{
    if states.len() > 0 {
        let init = states.drop_last();
        assert forall|i: int| 0 <= i < init.len() implies settled(list.windows, #[trigger] init[i]) by {
            assert(init[i] == states[i]);
        }
        lemma_settled_updates_do_nothing(list, init);
        assert(settled(list.windows, states[states.len() - 1]));
    }
}

/// Applying the same updates a second time reports nothing, where updates of the same surface agree
/// on its window.
pub proof fn repeated_updates_report_nothing(
    windows: Map<u64, InfoModel>,
    states: Seq<SurfaceModel>,
)
    requires
        agree(states),
    ensures
        after_updates(unreported(after_updates(unreported(windows), states).windows), states)
            == unreported(after_updates(unreported(windows), states).windows),
{
    lemma_all_settled(unreported(windows), states);
    lemma_settled_updates_do_nothing(
        unreported(after_updates(unreported(windows), states).windows),
        states,
    );
}

proof fn lemma_removals_keep_others(list: ListModel, gone: Seq<ClientSurface>, id: u64)
    requires
        forall|i: int| 0 <= i < gone.len() ==> (#[trigger] gone[i]).surface.0 != id,
    ensures
        after_removals(list, gone).windows.contains_key(id) == list.windows.contains_key(id),
        list.windows.contains_key(id) ==> after_removals(list, gone).windows[id]
            == list.windows[id],
    decreases gone.len(),
{
    if gone.len() > 0 {
        let init = gone.drop_last();
        assert forall|i: int| 0 <= i < init.len() implies (#[trigger] init[i]).surface.0 != id by {
            assert(init[i] == gone[i]);
        }
        lemma_removals_keep_others(list, init, id);
        assert(gone[gone.len() - 1].surface.0 != id);
    }
}

proof fn lemma_removals_add_nothing(list: ListModel, gone: Seq<ClientSurface>, id: u64)
    ensures
        after_removals(list, gone).windows.contains_key(id) ==> list.windows.contains_key(id),
    decreases gone.len(),
{
    if gone.len() > 0 {
        lemma_removals_add_nothing(list, gone.drop_last(), id);
    }
}

proof fn lemma_absent_removals_do_nothing(list: ListModel, gone: Seq<ClientSurface>)
    requires
        forall|i: int|
            0 <= i < gone.len() ==> !list.windows.contains_key((#[trigger] gone[i]).surface.0),
    ensures
        after_removals(list, gone) == list,
    decreases gone.len(),
{
    if gone.len() > 0 {
        let init = gone.drop_last();
        assert forall|i: int| 0 <= i < init.len() implies !list.windows.contains_key(
            (#[trigger] init[i]).surface.0,
        ) by {
            assert(init[i] == gone[i]);
        }
        lemma_absent_removals_do_nothing(list, init);
        assert(!list.windows.contains_key(gone[gone.len() - 1].surface.0));
    }
}

/// Applying the same updates and removals a second time reports nothing, where updates of the same
/// surface agree on its window, and no surface that gets a window is among those removed.
pub proof fn repeated_changes_report_nothing(
    windows: Map<u64, InfoModel>,
    states: Seq<SurfaceModel>,
    gone: Seq<ClientSurface>,
)
    requires
        agree(states),
        forall|i: int, j: int|
            #![trigger states[i], gone[j]]
            0 <= i < states.len() && 0 <= j < gone.len() && window_of(states[i]) is Some
                ==> states[i].id.0 != gone[j].surface.0,
    ensures
        ({
            let once = after_removals(after_updates(unreported(windows), states), gone);
            after_removals(after_updates(unreported(once.windows), states), gone) == unreported(
                once.windows,
            )
        }),
{
    let updated = after_updates(unreported(windows), states);
    let once = after_removals(updated, gone);
    lemma_all_settled(unreported(windows), states);
    assert forall|i: int| 0 <= i < states.len() implies settled(
        once.windows,
        #[trigger] states[i],
    ) by {
        assert(settled(updated.windows, states[i]));
        if window_of(states[i]) is Some {
            lemma_removals_keep_others(updated, gone, states[i].id.0);
        } else {
            lemma_removals_add_nothing(updated, gone, states[i].id.0);
        }
    }
    lemma_settled_updates_do_nothing(unreported(once.windows), states);
    assert forall|i: int| 0 <= i < gone.len() implies !once.windows.contains_key(
        (#[trigger] gone[i]).surface.0,
    ) by {
        removed_surface_has_no_window(updated, gone, i);
    }
    lemma_absent_removals_do_nothing(unreported(once.windows), gone);
}

/// A surface that was removed last has no window.
pub proof fn removed_surface_has_no_window(list: ListModel, gone: Seq<ClientSurface>, i: int)
    requires
        0 <= i < gone.len(),
    ensures
        !after_removals(list, gone).windows.contains_key(gone[i].surface.0),
    decreases gone.len(),
{
    if i < gone.len() - 1 {
        assert(gone.drop_last()[i] == gone[i]);
        removed_surface_has_no_window(list, gone.drop_last(), i);
    }
}

/// Whatever changes of the window of a toplevel is reported as it now is, behind what was reported
/// before: its title, the name of its application, or its size. An update that changes none of them
/// reports nothing.
pub proof fn window_changes_are_reported(
    list: ListModel,
    state: SurfaceModel,
    toplevel: ToplevelModel,
)
    requires
        state.role == Some(RoleModel::XdgToplevel(toplevel)),
    ensures
        ({
            let after = after_update(list, state);
            let size = match state.bitmap {
                Some(Some(b)) if b.metadata.width >= 0 && b.metadata.height >= 0 => Some(
                    (b.metadata.width as u32, b.metadata.height as u32),
                ),
                _ => None,
            };
            let known = list.windows.contains_key(state.id.0) && ({
                let window = list.windows[state.id.0];
                &&& window.id == state.id
                &&& window.title == toplevel.title
                &&& window.app_id == toplevel.app_id
                &&& window.size == size
            });
            &&& after.windows.contains_key(state.id.0)
            &&& after.windows[state.id.0].id == state.id
            &&& after.windows[state.id.0].title == toplevel.title
            &&& after.windows[state.id.0].app_id == toplevel.app_id
            &&& after.windows[state.id.0].size == size
            &&& known ==> after == list
            &&& !known ==> after.upserts == list.upserts.push(after.windows[state.id.0])
            &&& after.removed == list.removed
        }),
{
}

/// A surface that is no toplevel, or no longer one, has no window: one that it had is reported as
/// gone.
pub proof fn other_surfaces_have_no_window(list: ListModel, state: SurfaceModel)
    requires
        !(state.role matches Some(RoleModel::XdgToplevel(_))),
    ensures
        ({
            let after = after_update(list, state);
            &&& !after.windows.contains_key(state.id.0)
            &&& after.upserts == list.upserts
            &&& after.removed == (if list.windows.contains_key(state.id.0) {
                list.removed.push(state.id)
            } else {
                list.removed
            })
        }),
{
}

/// A window that goes is reported once, and one that is not there is not. Other windows stay as they
/// are.
pub proof fn gone_windows_are_reported(list: ListModel, id: WlSurfaceId, state: SurfaceModel, other: u64)
    requires
        other != id.0,
        state.id == id,
    ensures
        !after_removal(list, id).windows.contains_key(id.0),
        after_removal(list, id).removed == (if list.windows.contains_key(id.0) {
            list.removed.push(id)
        } else {
            list.removed
        }),
        after_removal(list, id).upserts == list.upserts,
        after_removal(list, id).windows.contains_key(other) == list.windows.contains_key(other),
        list.windows.contains_key(other) ==> after_removal(list, id).windows[other]
            == list.windows[other],
        after_update(list, state).windows.contains_key(other) == list.windows.contains_key(other),
        list.windows.contains_key(other) ==> after_update(list, state).windows[other]
            == list.windows[other],
{
}

/// A window is shown by its title, and without one by the name of its application.
pub proof fn titles_come_first(info: InfoModel)
    ensures
        info.title is Some ==> shown_title(info) == info.title,
        info.title is None ==> shown_title(info) == info.app_id,
{
}

/// Updates and removals are taken into account one after the other, in order, the removals last.
pub proof fn changes_come_in_order(
    list: ListModel,
    states: Seq<SurfaceModel>,
    state: SurfaceModel,
    gone: Seq<ClientSurface>,
    last: ClientSurface,
)
    ensures
        after_updates(list, Seq::empty()) == list,
        after_updates(list, states.push(state)) == after_update(after_updates(list, states), state),
        after_removals(list, Seq::empty()) == list,
        after_removals(list, gone.push(last)) == after_removal(
            after_removals(list, gone),
            last.surface,
        ),
{
    assert(states.push(state).drop_last() =~= states);
    assert(gone.push(last).drop_last() =~= gone);
}

} // verus!
