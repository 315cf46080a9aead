//! Surfaces that come, change and go, and the windows that follow.
use crate::client::backends::winit_wgpu::app::{cursor_applied, step_of, App};
use crate::client::backends::winit_wgpu::frames::CursorFrame;
use crate::client::backends::winit_wgpu::model::{
    emit, plus, plus_plain, Action, ActionModel, AppModel, PlainAction, PopupPlacement, Step,
};
use crate::client::backends::winit_wgpu::popups::{has_offset, placed, placement};
use crate::models::surface::{BufferAssignment, BufferData, Role, SurfaceState, WlSurfaceId};
use crate::models::surface_model::{buffer_view, BufferModel, RoleModel, SurfaceModel};
use crate::protocols::wprs::geometry::Point;
use crate::protocols::wprs::wayland::{SurfaceRequest, SurfaceRequestPayload};
use crate::protocols::wprs::xdg_shell::{DecorationMode, XdgPopupState};
use crate::utils::text::owned;
use vstd::prelude::*;

verus! {

broadcast use vstd::std_specs::hash::group_hash_axioms;

/// The size a new window starts with, before the user's scale.
#[derive(Debug, Clone, Copy, PartialEq, Eq, Structural)]
pub enum StartSize {
    /// That of a buffer, in pixels, to be divided by its scale.
    Buffer { width: u32, height: u32, scale: i32 },
    /// That of a popup, in logical points.
    Popup { width: i32, height: i32 },
    Unknown,
}

/// A window that has to be created.
#[derive(Debug)]
pub struct WindowSpec {
    /// The title; a popup has none.
    pub title: Option<String>,
    pub decorations: bool,
    pub resizable: bool,
    pub always_on_top: bool,
    pub size: StartSize,
    /// Where a popup without a buffer starts.
    pub position: Option<PopupPlacement>,
}

#[verifier::ext_equal]
pub struct WindowSpecModel {
    pub title: Option<Seq<char>>,
    pub decorations: bool,
    pub resizable: bool,
    pub always_on_top: bool,
    pub size: StartSize,
    pub position: Option<PopupPlacement>,
}

impl View for WindowSpec {
    type V = WindowSpecModel;

    open spec fn view(&self) -> WindowSpecModel {
        WindowSpecModel {
            title: match self.title {
                Some(title) => Some(title@),
                None => None,
            },
            decorations: self.decorations,
            resizable: self.resizable,
            always_on_top: self.always_on_top,
            size: self.size,
            position: self.position,
        }
    }
}

/// What the commit of a presented surface asks for: a toplevel with its decoration mode, a popup,
/// or a cursor.
#[derive(Debug, Clone, Copy, PartialEq, Eq, Structural)]
pub enum Presented {
    Toplevel(Option<DecorationMode>),
    Popup(XdgPopupState),
    Cursor,
}

/// A commit that has been taken note of. Where a window is wanted, it has to be created before the
/// commit is finished.
#[derive(Debug)]
pub struct PendingCommit {
    pub surface_id: WlSurfaceId,
    pub presented: Presented,
    pub window: Option<WindowSpec>,
    pub buffer: Option<BufferAssignment>,
}

pub open spec fn presented_as(role: Option<RoleModel>) -> Option<Presented> {
    match role {
        Some(RoleModel::XdgToplevel(t)) => Some(Presented::Toplevel(t.decoration_mode)),
        Some(RoleModel::XdgPopup(p)) => Some(Presented::Popup(p)),
        Some(RoleModel::Cursor(_)) => Some(Presented::Cursor),
        _ => None,
    }
}

pub open spec fn at_least_one(n: i32) -> i32 {
    if n < 1 {
        1
    } else {
        n
    }
}

pub open spec fn start_size(state: SurfaceModel, presented: Presented) -> StartSize {
    match state.buffer {
        Some(Some(buffer)) => StartSize::Buffer {
            width: at_least_one(buffer.metadata.width) as u32,
            height: at_least_one(buffer.metadata.height) as u32,
            scale: at_least_one(state.buffer_scale),
        },
        _ => match presented {
            Presented::Popup(popup) => StartSize::Popup {
                width: at_least_one(popup.positioner.width),
                height: at_least_one(popup.positioner.height),
            },
            _ => StartSize::Unknown,
        },
    }
}

/// The window for a surface. Where windows are `borderless`, toplevels have neither decorations nor
/// a title of the window system; elsewhere they have both, unless the client draws decorations.
pub open spec fn window_for(
    m: AppModel,
    surface: u64,
    state: SurfaceModel,
    borderless: bool,
) -> WindowSpecModel {
    let presented = presented_as(state.role)->0;
    let size = start_size(state, presented);
    match state.role {
        Some(RoleModel::XdgToplevel(toplevel)) => WindowSpecModel {
            title: Some(
                if borderless {
                    Seq::empty()
                } else {
                    match toplevel.title {
                        Some(title) => title,
                        None => "wprs"@,
                    }
                },
            ),
            decorations: !borderless && toplevel.decoration_mode != Some(DecorationMode::Client),
            resizable: true,
            always_on_top: false,
            size,
            position: None,
        },
        _ => WindowSpecModel {
            title: None,
            decorations: false,
            resizable: false,
            always_on_top: true,
            size,
            position: match presented {
                Presented::Popup(popup) => if size is Popup {
                    placement(m, surface, popup)
                } else {
                    None
                },
                _ => None,
            },
        },
    }
}

pub open spec fn surface_destroyed(s: Step, surface: u64) -> Step {
    let m = s.m;
    let s = if m.windows.contains_key(surface) {
        plus_plain(
            Step {
                m: AppModel {
                    windows: m.windows.remove(surface),
                    surface_by_window: m.surface_by_window.remove(m.windows[surface]),
                    ..m
                },
                ..s
            },
            PlainAction::DropWindow { surface_id: WlSurfaceId(surface) },
        )
    } else {
        s
    };
    let m = AppModel { popups: s.m.popups.remove(surface), ..s.m };
    let m = if m.cursor_clients.contains_key(surface) {
        AppModel {
            cursor_frames: m.cursor_frames.remove((m.cursor_clients[surface].0, surface)),
            cursor_clients: m.cursor_clients.remove(surface),
            ..m
        }
    } else {
        m
    };
    Step { m, ..s }
}

/// What is known after a commit.
pub open spec fn commit_noted(m: AppModel, surface: u64, state: SurfaceModel) -> AppModel {
    let m = AppModel { scales: m.scales.insert(surface, at_least_one(state.buffer_scale)), ..m };
    match presented_as(state.role) {
        None => m,
        Some(presented) => {
            let m = if presented is Cursor {
                AppModel { cursor_clients: m.cursor_clients.insert(surface, state.client), ..m }
            } else {
                m
            };
            match presented {
                Presented::Popup(popup) => AppModel { popups: m.popups.insert(surface, popup), ..m },
                _ => AppModel { popups: m.popups.remove(surface), ..m },
            }
        },
    }
}

/// Whether a commit calls for a window that is not there yet.
pub open spec fn wants_window(m: AppModel, surface: u64, state: SurfaceModel) -> bool {
    presented_as(state.role) is Some && !(presented_as(state.role)->0 is Cursor)
        && !m.windows.contains_key(surface)
}

/// Whether `pending` is what is left to do of a commit.
pub open spec fn is_pending(
    m: AppModel,
    surface: WlSurfaceId,
    state: SurfaceModel,
    borderless: bool,
    pending: Option<PendingCommit>,
) -> bool {
    match presented_as(state.role) {
        None => pending is None,
        Some(presented) => pending matches Some(p) && p.surface_id == surface && p.presented
            == presented && buffer_view(p.buffer) == state.buffer && (match p.window {
            Some(window) => wants_window(m, surface.0, state) && window@ == window_for(
                m,
                surface.0,
                state,
                borderless,
            ),
            None => !wants_window(m, surface.0, state),
        }),
    }
}

/// The popup of a commit has to have a place.
pub open spec fn popup_fits(request: SurfaceRequest) -> bool {
    request.payload matches SurfaceRequestPayload::Commit(state) ==> (state.role matches Some(
        Role::XdgPopup(popup),
    ) ==> has_offset(popup))
}

/// A window has been created for a surface.
pub open spec fn window_added(
    s: Step,
    surface: WlSurfaceId,
    presented: Presented,
    window: u64,
    inner_pos: Option<Point<i32>>,
) -> Step {
    let m = AppModel {
        surface_by_window: s.m.surface_by_window.insert(window, surface.0),
        decorations: match presented {
            Presented::Toplevel(mode) => s.m.decorations.insert(
                window,
                mode != Some(DecorationMode::Client),
            ),
            _ => s.m.decorations,
        },
        inner_pos: match inner_pos {
            Some(pos) => s.m.inner_pos.insert(window, pos),
            None => s.m.inner_pos,
        },
        windows: s.m.windows.insert(surface.0, window),
        ..s.m
    };
    let s = cursor_applied(Step { m, ..s }, surface);
    let s = Step { m: AppModel { cursor_dirty: false, ..s.m }, ..s };
    match presented {
        Presented::Popup(popup) => match placement(s.m, surface.0, popup) {
            Some(p) => plus_plain(s, PlainAction::PlacePopup(p)),
            None => s,
        },
        Presented::Toplevel(_) => plus_plain(s, PlainAction::SendConfigure { surface_id: surface }),
        Presented::Cursor => s,
    }
}

/// The rest of a commit: a popup goes to its place, and a frame is decoded. The bytes of a frame
/// that travels separately are those that came last; without them there is no frame.
pub open spec fn commit_finished(
    s: Step,
    surface: WlSurfaceId,
    presented: Presented,
    buffer: Option<Option<BufferModel>>,
) -> Step {
    let s = match presented {
        Presented::Popup(popup) => placed(s, surface.0, popup),
        _ => s,
    };
    match buffer {
        Some(Some(b)) => match b.data {
            Some(filtered) => plus(
                s,
                ActionModel::Decode { surface_id: surface, metadata: b.metadata, filtered },
            ),
            None => match s.m.cache {
                Some(filtered) => plus(
                    Step { m: AppModel { cache: None, ..s.m }, ..s },
                    ActionModel::Decode { surface_id: surface, metadata: b.metadata, filtered },
                ),
                None => s,
            },
        },
        _ => s,
    }
}

fn not_below_one(n: i32) -> (r: i32)
    ensures
        r == at_least_one(n),
        r >= 1,
{
    if n < 1 {
        1
    } else {
        n
    }
}

impl App {
    fn destroy_surface(&mut self, surface_id: WlSurfaceId, out: &mut Vec<Action>)
        requires
            old(self).wf(),
        ensures
            final(self).wf(),
            step_of(*final(self), final(out)@) == surface_destroyed(
                step_of(*old(self), old(out)@),
                surface_id.0,
            ),
    {
        let ghost start = step_of(*self, out@);
        let surface: u64 = surface_id.0;
        let ghost before = self.windows@;
        if let Some(window) = self.windows.remove(&surface) {
            let _ = self.surface_by_window.remove(&window);
            emit(out, Action::Plain(PlainAction::DropWindow { surface_id }));
        } else {
            assert(self.windows@ =~= before);
        }
        let _ = self.popup_state_by_surface.remove(surface);
        let ghost clients = self.cursor_surface_clients@;
        let ghost frames = self.cursor_frames@;
        if let Some(client) = self.cursor_surface_clients.remove(&surface) {
            let _ = self.cursor_frames.remove((client.0, surface));
            proof {
                assert(frames.remove((client.0, surface)).map_values(|f: CursorFrame| f@)
                    =~= frames.map_values(|f: CursorFrame| f@).remove((client.0, surface)));
            }
        } else {
            assert(self.cursor_surface_clients@ =~= clients);
        }
        assert(step_of(*self, out@) =~= surface_destroyed(start, surface));
    }

    /// The window for a surface that has none.
    fn window_spec(&self, surface_id: WlSurfaceId, state: &SurfaceState, borderless: bool) -> (r:
        WindowSpec)
        requires
            presented_as(state@.role) is Some,
            state.role matches Some(Role::XdgPopup(popup)) ==> has_offset(popup),
        ensures
            r@ == window_for(self@, surface_id.0, state@, borderless),
    {
        let popup = match &state.role {
            Some(Role::XdgPopup(popup)) => Some(*popup),
            _ => None,
        };
        let size = match &state.buffer {
            Some(BufferAssignment::New(buffer)) => StartSize::Buffer {
                width: not_below_one(buffer.metadata.width) as u32,
                height: not_below_one(buffer.metadata.height) as u32,
                scale: not_below_one(state.buffer_scale),
            },
            _ => match popup {
                Some(popup) => StartSize::Popup {
                    width: not_below_one(popup.positioner.width),
                    height: not_below_one(popup.positioner.height),
                },
                None => StartSize::Unknown,
            },
        };
        match &state.role {
            Some(Role::XdgToplevel(toplevel)) => {
                let title = if borderless {
                    String::new()
                } else {
                    match &toplevel.title {
                        Some(title) => title.clone(),
                        None => owned("wprs"),
                    }
                };
                let client_side = match toplevel.decoration_mode {
                    Some(mode) => mode == DecorationMode::Client,
                    None => false,
                };
                WindowSpec {
                    title: Some(title),
                    decorations: !borderless && !client_side,
                    resizable: true,
                    always_on_top: false,
                    size,
                    position: None,
                }
            },
            _ => {
                let position = match popup {
                    Some(popup) => match size {
                        StartSize::Popup { .. } => self.compute_popup_position(
                            surface_id.0,
                            &popup,
                        ),
                        _ => None,
                    },
                    None => None,
                };
                WindowSpec {
                    title: None,
                    decorations: false,
                    resizable: false,
                    always_on_top: true,
                    size,
                    position,
                }
            },
        }
    }

    fn commit_surface(&mut self, surface_id: WlSurfaceId, state: SurfaceState, borderless: bool) -> (r:
        Option<PendingCommit>)
        requires
            old(self).wf(),
            state.role matches Some(Role::XdgPopup(popup)) ==> has_offset(popup),
        ensures
            final(self).wf(),
            final(self)@ == commit_noted(old(self)@, surface_id.0, state@),
            is_pending(final(self)@, surface_id, state@, borderless, r),
    {
        let ghost before = self@;
        let surface: u64 = surface_id.0;
        let _ = self.surface_scale_factor.insert(surface, not_below_one(state.buffer_scale));
        let presented = match &state.role {
            Some(Role::XdgToplevel(toplevel)) => Presented::Toplevel(toplevel.decoration_mode),
            Some(Role::XdgPopup(popup)) => Presented::Popup(*popup),
            Some(Role::Cursor(_)) => Presented::Cursor,
            _ => {
                return None;
            },
        };
        let is_cursor = match presented {
            Presented::Cursor => true,
            _ => false,
        };
        if is_cursor {
            let _ = self.cursor_surface_clients.insert(surface, state.client);
        }
        match presented {
            Presented::Popup(popup) => {
                self.popup_state_by_surface.insert(surface, popup);
            },
            _ => {
                let _ = self.popup_state_by_surface.remove(surface);
            },
        }
        assert(self@ =~= commit_noted(before, surface, state@));
        let window = if !is_cursor && !self.windows.contains_key(&surface) {
            Some(self.window_spec(surface_id, &state, borderless))
        } else {
            None
        };
        Some(PendingCommit { surface_id, presented, window, buffer: state.buffer })
    }

    /// Takes note of what a client did to a surface. What is returned has to be finished, after its
    /// window has been created where it wants one.
    pub fn begin_surface(
        &mut self,
        request: SurfaceRequest,
        borderless: bool,
        out: &mut Vec<Action>,
    ) -> (r: Option<PendingCommit>)
        requires
            old(self).wf(),
            popup_fits(request),
        ensures
            final(self).wf(),
            match request.payload {
                SurfaceRequestPayload::Destroyed => r is None && step_of(
                    *final(self),
                    final(out)@,
                ) == surface_destroyed(step_of(*old(self), old(out)@), request.surface.0),
                SurfaceRequestPayload::Commit(state) => final(self)@ == commit_noted(
                    old(self)@,
                    request.surface.0,
                    state@,
                ) && final(out)@ == old(out)@ && is_pending(
                    final(self)@,
                    request.surface,
                    state@,
                    borderless,
                    r,
                ),
            },
    {
        match request.payload {
            SurfaceRequestPayload::Destroyed => {
                self.destroy_surface(request.surface, out);
                None
            },
            SurfaceRequestPayload::Commit(state) => self.commit_surface(
                request.surface,
                state,
                borderless,
            ),
        }
    }

    /// Takes a new window in. `inner_pos` is where it is, if the window system tells.
    pub fn window_created(
        &mut self,
        surface_id: WlSurfaceId,
        presented: Presented,
        window: u64,
        inner_pos: Option<Point<i32>>,
        out: &mut Vec<Action>,
    )
        requires
            old(self).wf(),
            presented matches Presented::Popup(popup) ==> has_offset(popup),
        ensures
            final(self).wf(),
            step_of(*final(self), final(out)@) == window_added(
                step_of(*old(self), old(out)@),
                surface_id,
                presented,
                window,
                inner_pos,
            ),
    {
        let _ = self.surface_by_window.insert(window, surface_id.0);
        if let Presented::Toplevel(mode) = presented {
            let client_side = match mode {
                Some(mode) => mode == DecorationMode::Client,
                None => false,
            };
            let _ = self.window_has_decorations.insert(window, !client_side);
        }
        if let Some(pos) = inner_pos {
            let _ = self.last_window_inner_pos.insert(window, pos);
        }
        let _ = self.windows.insert(surface_id.0, window);
        self.apply_cursor_for_surface(surface_id, out);
        self.cursor_dirty = false;
        match presented {
            Presented::Popup(popup) => {
                if let Some(p) = self.compute_popup_position(surface_id.0, &popup) {
                    emit(out, Action::Plain(PlainAction::PlacePopup(p)));
                }
            },
            Presented::Toplevel(_) => {
                emit(out, Action::Plain(PlainAction::SendConfigure { surface_id }));
            },
            Presented::Cursor => {},
        }
    }

    /// Does what is left of a commit.
    pub fn finish_surface(&mut self, pending: PendingCommit, out: &mut Vec<Action>)
        requires
            old(self).wf(),
            pending.presented matches Presented::Popup(popup) ==> has_offset(popup),
        ensures
            final(self).wf(),
            step_of(*final(self), final(out)@) == commit_finished(
                step_of(*old(self), old(out)@),
                pending.surface_id,
                pending.presented,
                buffer_view(pending.buffer),
            ),
    {
        let surface_id = pending.surface_id;
        if let Presented::Popup(popup) = pending.presented {
            self.update_popup_position(surface_id.0, &popup, out);
        }
        if let Some(BufferAssignment::New(buffer)) = pending.buffer {
            let metadata = buffer.metadata;
            match buffer.data {
                BufferData::Uncompressed(filtered) => {
                    emit(out, Action::Decode { surface_id, metadata, filtered });
                },
                BufferData::External => {
                    if let Some(filtered) = self.buffer_cache.take() {
                        emit(out, Action::Decode { surface_id, metadata, filtered });
                    }
                },
            }
        }
    }
}

/// Once a surface is destroyed, nothing of it is left but the scale it had.
pub proof fn destroyed_surface_has_no_window(s: Step, surface: u64)
    ensures
        !surface_destroyed(s, surface).m.windows.contains_key(surface),
        !surface_destroyed(s, surface).m.popups.contains_key(surface),
        !surface_destroyed(s, surface).m.cursor_clients.contains_key(surface),
{
}

/// A surface that got its window does not want another.
pub proof fn created_window_is_found(
    s: Step,
    surface: WlSurfaceId,
    presented: Presented,
    window: u64,
    inner_pos: Option<Point<i32>>,
    state: SurfaceModel,
)
    ensures
        !wants_window(
            window_added(s, surface, presented, window, inner_pos).m,
            surface.0,
            state,
        ),
        window_added(s, surface, presented, window, inner_pos).m.surface_by_window[window]
            == surface.0,
{
}

/// Whether the popup of a commit has a place.
pub fn request_fits(request: &SurfaceRequest) -> (r: bool)
    ensures
        r == popup_fits(*request),
{
    match &request.payload {
        SurfaceRequestPayload::Commit(state) => match &state.role {
            Some(Role::XdgPopup(popup)) => {
                let at = popup.positioner.anchor_rect.loc;
                let by = popup.positioner.offset;
                at.x.checked_add(by.x).is_some() && at.y.checked_add(by.y).is_some()
            },
            _ => true,
        },
        SurfaceRequestPayload::Destroyed => true,
    }
}

} // verus!
