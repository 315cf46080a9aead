//! The windows a client currently manages, for periodic logging.
use crate::models::surface::{BitmapAssignment, ClientSurface, Role, SurfaceState};
use crate::models::surface_model::{clone_text, text_view, RoleModel, SurfaceModel};
use crate::protocols::wprs::wayland::{SurfaceRequest, SurfaceRequestPayload};
use crate::utils::ordered_key::pair_before;
use crate::utils::sorted_map::SortedMap;
use crate::utils::text::{
    debug_text, decimal, owned, push_decimal, push_signed_decimal, quoted, signed_decimal,
};
use vstd::prelude::*;

verus! {

/// What is logged of one window. Times are seconds of a clock of the caller's choice.
#[derive(Debug)]
pub struct WindowEntry {
    pub title: Option<String>,
    pub app_id: Option<String>,
    pub size: Option<(i32, i32)>,
    pub last_updated: u64,
}

#[verifier::ext_equal]
pub struct EntryModel {
    pub title: Option<Seq<char>>,
    pub app_id: Option<Seq<char>>,
    pub size: Option<(i32, i32)>,
    pub last_updated: u64,
}

impl View for WindowEntry {
    type V = EntryModel;

    open spec fn view(&self) -> EntryModel {
        EntryModel {
            title: text_view(self.title),
            app_id: text_view(self.app_id),
            size: self.size,
            last_updated: self.last_updated,
        }
    }
}

/// The entry of a state: only toplevels have one.
pub open spec fn entry_of(state: SurfaceModel, now: u64) -> Option<EntryModel> {
    match state.role {
        Some(RoleModel::XdgToplevel(toplevel)) => Some(
            EntryModel {
                title: toplevel.title,
                app_id: toplevel.app_id,
                size: match state.bitmap {
                    Some(Some(bitmap)) => Some((bitmap.metadata.width, bitmap.metadata.height)),
                    _ => None,
                },
                last_updated: now,
            },
        ),
        _ => None,
    }
}

impl WindowEntry {
    pub fn from_state(state: &SurfaceState, now: u64) -> (r: Option<Self>)
        ensures
            match r {
                Some(entry) => entry_of(state@, now) == Some(entry@),
                None => entry_of(state@, now) is None,
            },
    {
        let toplevel = match &state.role {
            Some(Role::XdgToplevel(toplevel)) => toplevel,
            _ => {
                return None;
            },
        };
        let size = match &state.bitmap {
            Some(BitmapAssignment::New(bitmap)) => Some(
                (bitmap.metadata.width, bitmap.metadata.height),
            ),
            _ => None,
        };
        Some(
            WindowEntry {
                title: clone_text(&toplevel.title),
                app_id: clone_text(&toplevel.app_id),
                size,
                last_updated: now,
            },
        )
    }
}

impl Clone for WindowEntry {
    fn clone(&self) -> (r: Self)
        ensures
            r@ == self@,
    {
        WindowEntry {
            title: clone_text(&self.title),
            app_id: clone_text(&self.app_id),
            size: self.size,
            last_updated: self.last_updated,
        }
    }
}

pub struct SurfaceRegistry {
    pub entries: SortedMap<(u64, u64), WindowEntry>,
}

impl View for SurfaceRegistry {
    type V = Map<(u64, u64), EntryModel>;

    open spec fn view(&self) -> Map<(u64, u64), EntryModel> {
        self.entries@.map_values(|entry: WindowEntry| entry@)
    }
}

/// The registry after a surface request: a destroyed surface leaves, a committed toplevel is
/// entered anew, and any other commit changes nothing.
pub open spec fn recorded(
    entries: Map<(u64, u64), EntryModel>,
    surface: SurfaceRequest,
    now: u64,
) -> Map<(u64, u64), EntryModel> {
    let key = (surface.client.0, surface.surface.0);
    match surface.payload {
        SurfaceRequestPayload::Destroyed => entries.remove(key),
        SurfaceRequestPayload::Commit(state) => match entry_of(state@, now) {
            Some(entry) => entries.insert(key, entry),
            None => entries,
        },
    }
}

impl SurfaceRegistry {
    pub open spec fn wf(&self) -> bool {
        self.entries.wf()
    }

    pub fn new() -> (r: Self)
        ensures
            r.wf(),
            r@ == Map::<(u64, u64), EntryModel>::empty(),
    {
        let r = SurfaceRegistry { entries: SortedMap::new() };
        assert(r@ =~= Map::<(u64, u64), EntryModel>::empty());
        r
    }

    pub fn record_surface(&mut self, surface: &SurfaceRequest, now: u64)
        requires
            old(self).wf(),
        ensures
            final(self).wf(),
            final(self)@ == recorded(old(self)@, *surface, now),
    {
        let key: (u64, u64) = (surface.client.0, surface.surface.0);
        match &surface.payload {
            SurfaceRequestPayload::Destroyed => {
                let ghost before = self.entries@;
                let _ = self.entries.remove(key);
                assert(before.remove(key).map_values(|entry: WindowEntry| entry@)
                    =~= before.map_values(|entry: WindowEntry| entry@).remove(key));
            },
            SurfaceRequestPayload::Commit(state) => {
                if let Some(entry) = WindowEntry::from_state(state, now) {
                    let ghost before = self.entries@;
                    let ghost e = entry;
                    self.entries.insert(key, entry);
                    assert(before.insert(key, e).map_values(|entry: WindowEntry| entry@)
                        =~= before.map_values(|entry: WindowEntry| entry@).insert(key, e@));
                }
            },
        }
    }

    /// All entries, ordered by client and surface.
    pub fn snapshot(&self) -> (r: Vec<(ClientSurface, WindowEntry)>)
        requires
            self.wf(),
        ensures
            r@.len() == self@.dom().len(),
            self@.dom().finite(),
            forall|i: int, j: int|
                #![trigger r@[i], r@[j]]
                0 <= i < j < r@.len() ==> pair_before(surface_key(r@[i].0), surface_key(r@[j].0)),
            forall|i: int|
                0 <= i < r@.len() ==> self@.contains_pair(
                    surface_key((#[trigger] r@[i]).0),
                    r@[i].1@,
                ),
            forall|key: (u64, u64)|
                #[trigger] self@.contains_key(key) ==> exists|i: int|
                    0 <= i < r@.len() && surface_key((#[trigger] r@[i]).0) == key,
    {
        let mut out: Vec<(ClientSurface, WindowEntry)> = Vec::new();
        let mut i: usize = 0;
        let ghost entries = self.entries.entries@;
        while i < self.entries.entries.len()
            invariant
                self.wf(),
                entries == self.entries.entries@,
                i <= entries.len(),
                out@.len() == i,
                forall|j: int|
                    0 <= j < i ==> surface_key((#[trigger] out@[j]).0) == entries[j].key
                        && out@[j].1@ == entries[j].value@,
            decreases entries.len() - i,
        {
            let entry = &self.entries.entries[i];
            let key = ClientSurface {
                client: crate::protocols::wprs::types::ClientId(entry.key.0),
                surface: crate::models::surface::WlSurfaceId(entry.key.1),
            };
            out.push((key, entry.value.clone()));
            i = i + 1;
        }
        proof {
            crate::utils::sorted_map::lemma_entries(entries);
            assert forall|j: int| 0 <= j < out@.len() implies self@.contains_pair(
                surface_key((#[trigger] out@[j]).0),
                out@[j].1@,
            ) by {
                assert(self.entries@.contains_key(entries[j].key));
            }
            assert forall|key: (u64, u64)| #[trigger] self@.contains_key(key) implies exists|j: int|
                0 <= j < out@.len() && surface_key((#[trigger] out@[j]).0) == key by {
                let j = crate::utils::sorted_map::position(entries, key);
                assert(entries[j].key == key);
                assert(surface_key(out@[j].0) == key);
            }
            assert(self@.dom() =~= self.entries@.dom());
            assert forall|a: int, b: int| #![trigger out@[a], out@[b]]
                0 <= a < b < out@.len() implies pair_before(surface_key(out@[a].0), surface_key(out@[b].0)) by {
                assert(pair_before(entries[a].key, entries[b].key));
            }
        }
        out
    }
}

pub open spec fn surface_key(surface: ClientSurface) -> (u64, u64) {
    (surface.client.0, surface.surface.0)
}

/// Records what a surface request does to the managed windows.
pub fn record_surface(registry: &mut SurfaceRegistry, surface: &SurfaceRequest, now: u64)
    requires
        old(registry).wf(),
    ensures
        final(registry).wf(),
        final(registry)@ == recorded(old(registry)@, *surface, now),
{
    registry.record_surface(surface, now);
}

/// What is logged of one window.
pub open spec fn window_line(surface: ClientSurface, entry: EntryModel, now: u64) -> Seq<char> {
    let title = match entry.title {
        Some(title) => title,
        None => "<untitled>"@,
    };
    let app_id = match entry.app_id {
        Some(app_id) => app_id,
        None => "<unknown>"@,
    };
    let size = match entry.size {
        Some((w, h)) => signed_decimal(w as int) + "x"@ + signed_decimal(h as int),
        None => "unknown"@,
    };
    let age = if now < entry.last_updated {
        0
    } else {
        now - entry.last_updated
    };
    "client="@ + decimal(surface.client.0 as nat) + " surface="@ + decimal(surface.surface.0 as nat)
        + " title="@ + debug_text(title) + " app_id="@ + debug_text(app_id) + " size="@ + size
        + " age="@ + decimal(age as nat) + "s"@
}

/// The lines of the first `n` windows.
pub open spec fn window_lines(
    snapshot: Seq<(ClientSurface, WindowEntry)>,
    now: u64,
    n: int,
) -> Seq<char>
    decreases n,
{
    if n <= 0 {
        Seq::empty()
    } else {
        let line = window_line(snapshot[n - 1].0, snapshot[n - 1].1@, now);
        if n == 1 {
            line
        } else {
            window_lines(snapshot, now, n - 1) + " | "@ + line
        }
    }
}

/// What is logged of all windows.
pub open spec fn report_text(snapshot: Seq<(ClientSurface, WindowEntry)>, now: u64) -> Seq<char> {
    if snapshot.len() == 0 {
        "managed windows: (none)"@
    } else {
        "managed windows ("@ + decimal(snapshot.len()) + "): "@ + window_lines(
            snapshot,
            now,
            snapshot.len() as int,
        )
    }
}

fn push_size(out: &mut String, size: Option<(i32, i32)>)
    ensures
        final(out)@ == old(out)@ + (match size {
            Some((w, h)) => signed_decimal(w as int) + "x"@ + signed_decimal(h as int),
            None => "unknown"@,
        }),
{
    let ghost before = out@;
    match size {
        Some((w, h)) => {
            push_signed_decimal(out, w as i64);
            out.append("x");
            push_signed_decimal(out, h as i64);
            assert(out@ =~= before + (signed_decimal(w as int) + "x"@ + signed_decimal(
                h as int,
            )));
        },
        None => out.append("unknown"),
    }
}

fn write_line(surface: ClientSurface, entry: &WindowEntry, now: u64) -> (r: String)
    ensures
        r@ == window_line(surface, entry@, now),
{
    let title = match &entry.title {
        Some(title) => owned(title.as_str()),
        None => owned("<untitled>"),
    };
    let app_id = match &entry.app_id {
        Some(app_id) => owned(app_id.as_str()),
        None => owned("<unknown>"),
    };
    let age: u64 = if now < entry.last_updated {
        0
    } else {
        now - entry.last_updated
    };
    let mut line = owned("client=");
    push_decimal(&mut line, surface.client.0);
    line.append(" surface=");
    push_decimal(&mut line, surface.surface.0);
    line.append(" title=");
    line.append(quoted(title.as_str()).as_str());
    line.append(" app_id=");
    line.append(quoted(app_id.as_str()).as_str());
    line.append(" size=");
    push_size(&mut line, entry.size);
    line.append(" age=");
    push_decimal(&mut line, age);
    line.append("s");
    line
}

/// What to log of all windows, given the time.
pub fn report(snapshot: &Vec<(ClientSurface, WindowEntry)>, now: u64) -> (r: String)
    ensures
        r@ == report_text(snapshot@, now),
{
    if snapshot.len() == 0 {
        return owned("managed windows: (none)");
    }
    let mut out = owned("managed windows (");
    push_decimal(&mut out, snapshot.len() as u64);
    out.append("): ");
    let ghost front = out@;
    let mut i: usize = 0;
    assert(out@ =~= front + window_lines(snapshot@, now, 0));
    while i < snapshot.len()
        invariant
            i <= snapshot@.len(),
            out@ == front + window_lines(snapshot@, now, i as int),
        decreases snapshot@.len() - i,
    {
        if i > 0 {
            out.append(" | ");
        }
        out.append(write_line(snapshot[i].0, &snapshot[i].1, now).as_str());
        i = i + 1;
        assert(out@ =~= front + window_lines(snapshot@, now, i as int));
    }
    out
}

/// A toplevel that commits is entered with its title, its application and the size of its bitmap, as
/// of now. A surface that goes leaves the registry; nothing else changes it.
pub proof fn registry_follows_the_toplevels(
    entries: Map<(u64, u64), EntryModel>,
    surface: SurfaceRequest,
    now: u64,
    other: (u64, u64),
)
    requires
        other != (surface.client.0, surface.surface.0),
    ensures
        ({
            let after = recorded(entries, surface, now);
            let key = (surface.client.0, surface.surface.0);
            &&& after.contains_key(other) == entries.contains_key(other)
            &&& entries.contains_key(other) ==> after[other] == entries[other]
            &&& match surface.payload {
                SurfaceRequestPayload::Destroyed => !after.contains_key(key),
                SurfaceRequestPayload::Commit(state) => match state@.role {
                    Some(RoleModel::XdgToplevel(toplevel)) => {
                        &&& after.contains_key(key)
                        &&& after[key].title == toplevel.title
                        &&& after[key].app_id == toplevel.app_id
                        &&& after[key].last_updated == now
                        &&& after[key].size == (match state@.bitmap {
                            Some(Some(b)) => Some((b.metadata.width, b.metadata.height)),
                            _ => None,
                        })
                    },
                    _ => after == entries,
                },
            }
        }),
{
}

/// What is logged of a window has its numbers, its title and application, its size and its age.
pub proof fn window_lines_tell_all(surface: ClientSurface, entry: EntryModel, now: u64)
    ensures
        window_line(surface, entry, now) == "client="@ + decimal(surface.client.0 as nat)
            + " surface="@ + decimal(surface.surface.0 as nat) + " title="@ + debug_text(
            if entry.title is Some {
                entry.title->0
            } else {
                "<untitled>"@
            },
        ) + " app_id="@ + debug_text(
            if entry.app_id is Some {
                entry.app_id->0
            } else {
                "<unknown>"@
            },
        ) + " size="@ + (match entry.size {
            Some((w, h)) => signed_decimal(w as int) + "x"@ + signed_decimal(h as int),
            None => "unknown"@,
        }) + " age="@ + decimal(
            if now >= entry.last_updated {
                (now - entry.last_updated) as nat
            } else {
                0
            },
        ) + "s"@,
{
}

/// All windows are logged, in order, one behind the other.
pub proof fn reports_tell_of_all_windows(
    snapshot: Seq<(ClientSurface, WindowEntry)>,
    now: u64,
    n: int,
)
    requires
        1 < n <= snapshot.len(),
    ensures
        window_lines(snapshot, now, 1) == window_line(snapshot[0].0, snapshot[0].1@, now),
        window_lines(snapshot, now, n) == window_lines(snapshot, now, n - 1) + " | "@ + window_line(
            snapshot[n - 1].0,
            snapshot[n - 1].1@,
            now,
        ),
        report_text(snapshot, now) == "managed windows ("@ + decimal(snapshot.len()) + "): "@
            + window_lines(snapshot, now, snapshot.len() as int),
        report_text(Seq::empty(), now) == "managed windows: (none)"@,
{
}

} // verus!
