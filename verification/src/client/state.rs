//! What the client knows of the server's surfaces, and what has changed since it was last asked.
use crate::client::surface_registry::{recorded, surface_key, SurfaceRegistry};
use crate::error::Error;
use crate::models::surface::{ClientSurface, SurfaceState, WlSurfaceId};
use crate::models::surface_model::{surface_eq, SurfaceModel};
use crate::protocols::wprs::transport::{
    default_config, TransportConfig, TransportRequest, TransportScope,
};
use crate::protocols::wprs::types::{Capabilities, ClientId, DisplayConfig, Request};
use crate::protocols::wprs::wayland::{
    CursorImage, DataRequest, SurfaceRequest, SurfaceRequestPayload,
};
use crate::protocols::wprs::xdg_shell::{PopupRequest, ToplevelRequest};
use crate::utils::ordered_key::{pair_before, OrderedKey};
use crate::utils::sorted_map::{lemma_entries, position, SortedMap};
use std::collections::HashMap;
use vstd::prelude::*;

verus! {

broadcast use vstd::std_specs::hash::group_hash_axioms;

/// Something that happened which backends may want to act on, surface contents apart.
#[derive(Debug)]
pub enum ClientEvent {
    Capabilities(Capabilities),
    DisplayConfig(DisplayConfig),
    TransportConfig(TransportConfig),
    TransportConfigScoped { surface: WlSurfaceId, config: TransportConfig },
    CursorImage(CursorImage),
    Toplevel(ToplevelRequest),
    Popup(PopupRequest),
    Data(DataRequest),
    ClientDisconnected(ClientId),
}

pub struct ClientState {
    pub surfaces: SortedMap<(u64, u64), SurfaceState>,
    pub surface_updates: SortedMap<(u64, u64), SurfaceState>,
    pub surface_removals: SortedMap<(u64, u64), ()>,
    pub events: Vec<ClientEvent>,
    pub display_config: Option<DisplayConfig>,
    pub capabilities: Option<Capabilities>,
    pub transport_config: TransportConfig,
    pub transport_config_by_surface: HashMap<u64, TransportConfig>,
}

/// Surfaces are keyed by the numbers of their client and of themselves.
#[verifier::ext_equal]
pub struct StateModel {
    pub surfaces: Map<(u64, u64), SurfaceModel>,
    pub updates: Map<(u64, u64), SurfaceModel>,
    pub removals: Set<(u64, u64)>,
    pub events: Seq<ClientEvent>,
    pub display_config: Option<DisplayConfig>,
    pub capabilities: Option<Capabilities>,
    pub transport_config: TransportConfig,
    pub transport_config_by_surface: Map<u64, TransportConfig>,
}

pub open spec fn models(m: Map<(u64, u64), SurfaceState>) -> Map<(u64, u64), SurfaceModel> {
    m.map_values(|s: SurfaceState| s@)
}

impl View for ClientState {
    type V = StateModel;

    open spec fn view(&self) -> StateModel {
        StateModel {
            surfaces: models(self.surfaces@),
            updates: models(self.surface_updates@),
            removals: self.surface_removals@.dom(),
            events: self.events@,
            display_config: self.display_config,
            capabilities: self.capabilities,
            transport_config: self.transport_config,
            transport_config_by_surface: self.transport_config_by_surface@,
        }
    }
}

/// Whether the stored state of `key` differs from `state`, or there is none.
pub open spec fn is_change(m: StateModel, key: (u64, u64), state: SurfaceModel) -> bool {
    !m.surfaces.contains_key(key) || !surface_eq(m.surfaces[key], state)
}

pub open spec fn committed(m: StateModel, key: (u64, u64), state: SurfaceModel) -> StateModel {
    if is_change(m, key, state) {
        StateModel {
            surfaces: m.surfaces.insert(key, state),
            updates: m.updates.insert(key, state),
            removals: m.removals.remove(key),
            ..m
        }
    } else {
        StateModel { surfaces: m.surfaces.insert(key, state), ..m }
    }
}

pub open spec fn destroyed(m: StateModel, key: (u64, u64)) -> StateModel {
    StateModel {
        surfaces: m.surfaces.remove(key),
        updates: m.updates.remove(key),
        removals: m.removals.insert(key),
        ..m
    }
}

pub open spec fn with_event(m: StateModel, event: ClientEvent) -> StateModel {
    StateModel { events: m.events.push(event), ..m }
}

pub open spec fn configured(m: StateModel, request: TransportRequest) -> StateModel {
    match request {
        TransportRequest::Config(config)
        | TransportRequest::ConfigScoped { scope: TransportScope::Global, config } => with_event(
            StateModel { transport_config: config, ..m },
            ClientEvent::TransportConfig(config),
        ),
        TransportRequest::ConfigScoped { scope: TransportScope::Surface(surface), config } =>
        with_event(
            StateModel {
                transport_config_by_surface: m.transport_config_by_surface.insert(
                    surface.0,
                    config,
                ),
                ..m
            },
            ClientEvent::TransportConfigScoped { surface, config },
        ),
        TransportRequest::Pong(_) => m,
    }
}

/// The state after a request from the server.
pub open spec fn applied(m: StateModel, request: Request) -> StateModel {
    match request {
        Request::Surface(surface) => {
            let key = (surface.client.0, surface.surface.0);
            match surface.payload {
                SurfaceRequestPayload::Commit(state) => committed(m, key, state@),
                SurfaceRequestPayload::Destroyed => destroyed(m, key),
            }
        },
        Request::Capabilities(caps) => with_event(
            StateModel { capabilities: Some(caps), ..m },
            ClientEvent::Capabilities(caps),
        ),
        Request::DisplayConfig(config) => with_event(
            StateModel { display_config: Some(config), ..m },
            ClientEvent::DisplayConfig(config),
        ),
        Request::Transport(request) => configured(m, request),
        Request::CursorImage(cursor) => with_event(m, ClientEvent::CursorImage(cursor)),
        Request::Toplevel(request) => with_event(m, ClientEvent::Toplevel(request)),
        Request::Popup(request) => with_event(m, ClientEvent::Popup(request)),
        Request::Data(request) => with_event(m, ClientEvent::Data(request)),
        Request::ClientDisconnected(client) => with_event(
            m,
            ClientEvent::ClientDisconnected(client),
        ),
    }
}

/// A pending update is of a surface that is there, and says what that surface says; a surface
/// whose removal is pending is not there.
pub open spec fn consistent(m: StateModel) -> bool {
    &&& forall|key: (u64, u64)| #[trigger]
        m.updates.contains_key(key) ==> m.surfaces.contains_key(key) && (m.updates[key]
            == m.surfaces[key] || surface_eq(m.updates[key], m.surfaces[key]))
    &&& forall|key: (u64, u64)| #[trigger]
        m.removals.contains(key) ==> !m.surfaces.contains_key(key)
}

/// The key by which a list of states is ordered.
pub open spec fn state_key(state: SurfaceModel) -> (u64, u64) {
    (state.client.0, state.id.0)
}

pub open spec fn in_order(states: Seq<SurfaceState>) -> bool {
    forall|i: int, j: int|
        #![trigger states[i], states[j]]
        0 <= i < j < states.len() ==> !pair_before(state_key(states[j]@), state_key(states[i]@))
}

/// Whether `states` holds the state of each key of `m`, each once, as `keys` lists them.
pub open spec fn lists_as(
    states: Seq<SurfaceState>,
    keys: Seq<(u64, u64)>,
    m: Map<(u64, u64), SurfaceModel>,
) -> bool {
    &&& keys.len() == states.len()
    &&& keys.no_duplicates()
    &&& keys.to_set() == m.dom()
    &&& forall|i: int| 0 <= i < states.len() ==> (#[trigger] states[i])@ == m[keys[i]]
}

/// Whether `states` holds the state of each key of `m`, each once, by client and surface.
pub open spec fn lists(states: Seq<SurfaceState>, m: Map<(u64, u64), SurfaceModel>) -> bool {
    in_order(states) && exists|keys: Seq<(u64, u64)>| lists_as(states, keys, m)
}

pub open spec fn lists_keys(removed: Seq<ClientSurface>, keys: Set<(u64, u64)>) -> bool {
    &&& forall|i: int, j: int|
        #![trigger removed[i], removed[j]]
        0 <= i < j < removed.len() ==> pair_before(surface_key(removed[i]), surface_key(removed[j]))
    &&& forall|i: int| 0 <= i < removed.len() ==> keys.contains(surface_key(#[trigger] removed[i]))
    &&& forall|key: (u64, u64)| #[trigger]
        keys.contains(key) ==> exists|i: int|
            0 <= i < removed.len() && surface_key(#[trigger] removed[i]) == key
}

/// Puts a state behind all that do not come after it.
fn insert_in_order(states: &mut Vec<SurfaceState>, state: SurfaceState) -> (at: usize)
    requires
        in_order(old(states)@),
    ensures
        at <= old(states)@.len(),
        final(states)@ == old(states)@.insert(at as int, state),
        in_order(final(states)@),
{
    let key: (u64, u64) = (state.client.0, state.id.0);
    let mut at: usize = states.len();
    while at > 0 && key.is_before(&(states[at - 1].client.0, states[at - 1].id.0))
        invariant
            at <= states@.len(),
            key == state_key(state@),
            forall|i: int| at <= i < states@.len() ==> pair_before(key, state_key((#[trigger] states@[i])@)),
        decreases at,
    {
        at = at - 1;
    }
    let ghost before = states@;
    states.insert(at, state);
    proof {
        assert forall|i: int, j: int| #![trigger states@[i], states@[j]]
            0 <= i < j < states@.len() implies !pair_before(state_key(states@[j]@), state_key(states@[i]@)) by {
            if j == at {
                if i < at - 1 {
                    assert(!pair_before(state_key(before[at - 1]@), state_key(before[i]@)));
                }
            } else if i == at {
                assert(before[j - 1] == states@[j]);
            } else {
                let a = if i < at { i } else { i - 1 };
                let b = if j < at { j } else { j - 1 };
                assert(before[a] == states@[i]);
                assert(before[b] == states@[j]);
            }
        }
    }
    at
}

proof fn lemma_key_inserted(keys: Seq<(u64, u64)>, at: int, key: (u64, u64))
    requires
        keys.no_duplicates(),
        !keys.contains(key),
        0 <= at <= keys.len(),
    ensures
        keys.insert(at, key).no_duplicates(),
        keys.insert(at, key).to_set() == keys.to_set().insert(key),
{
    let new = keys.insert(at, key);
    assert forall|i: int, j: int| 0 <= i < new.len() && 0 <= j < new.len() && i != j implies new[i]
        != new[j] by {
        let a = if i < at { i } else { i - 1 };
        let b = if j < at { j } else { j - 1 };
        if i != at {
            assert(keys[a] == new[i]);
        }
        if j != at {
            assert(keys[b] == new[j]);
        }
    }
    assert forall|k: (u64, u64)| new.to_set().contains(k) == keys.to_set().insert(key).contains(k) by {
        if new.contains(k) && k != key {
            let i = choose|i: int| 0 <= i < new.len() && new[i] == k;
            let a = if i < at { i } else { i - 1 };
            assert(keys[a] == k);
        }
        if keys.contains(k) {
            let a = choose|i: int| 0 <= i < keys.len() && keys[i] == k;
            let i = if a < at { a } else { a + 1 };
            assert(new[i] == k);
        }
        assert(new[at] == key);
    }
    assert(new.to_set() =~= keys.to_set().insert(key));
}

/// The values of a map in order of client and surface.
fn values_in_order(map: &SortedMap<(u64, u64), SurfaceState>) -> (r: Vec<SurfaceState>)
    requires
        map.wf(),
    ensures
        lists(r@, models(map@)),
{
    let mut out: Vec<SurfaceState> = Vec::new();
    let mut i: usize = 0;
    let ghost mut keys: Seq<(u64, u64)> = Seq::empty();
    let ghost entries = map.entries@;
    let ghost seen = Set::<(u64, u64)>::empty();
    proof {
        assert(keys.to_set() =~= Set::empty());
    }
    while i < map.entries.len()
        invariant
            map.wf(),
            entries == map.entries@,
            i <= entries.len(),
            in_order(out@),
            keys.len() == out@.len(),
            keys.no_duplicates(),
            forall|j: int| 0 <= j < i ==> keys.to_set().contains((#[trigger] entries[j]).key),
            forall|k: int|
                0 <= k < keys.len() ==> exists|j: int|
                    0 <= j < i && (#[trigger] entries[j]).key == #[trigger] keys[k] && entries[j].value@
                        == out@[k]@,
        decreases entries.len() - i,
    {
        let ghost before = out@;
        let ghost old_keys = keys;
        let at: usize = insert_in_order(&mut out, map.entries[i].value.clone());
        proof {
            let key = entries[i as int].key;
            if old_keys.contains(key) {
                let k = choose|k: int| 0 <= k < old_keys.len() && old_keys[k] == key;
                let j = choose|j: int|
                    0 <= j < i && (#[trigger] entries[j]).key == old_keys[k] && entries[j].value@
                        == before[k]@;
                assert(pair_before(entries[j].key, entries[i as int].key));
            }
            lemma_key_inserted(old_keys, at as int, key);
            keys = old_keys.insert(at as int, key);
            assert forall|k: int| 0 <= k < keys.len() implies exists|j: int|
                0 <= j < i + 1 && (#[trigger] entries[j]).key == #[trigger] keys[k] && entries[j].value@
                    == out@[k]@ by {
                if k == at {
                    assert(entries[i as int].key == keys[k]);
                } else {
                    let o = if k < at { k } else { k - 1 };
                    assert(old_keys[o] == keys[k]);
                    let j = choose|j: int|
                        0 <= j < i && (#[trigger] entries[j]).key == old_keys[o] && entries[j].value@
                            == before[o]@;
                    assert(entries[j].key == keys[k]);
                }
            }
        }
        i = i + 1;
    }
    proof {
        lemma_entries(entries);
        let m = models(map@);
        assert(keys.to_set() =~= m.dom()) by {
            assert forall|key: (u64, u64)| m.dom().contains(key) implies keys.to_set().contains(key) by {
                let j = position(entries, key);
                assert(entries[j].key == key);
            }
            assert forall|key: (u64, u64)| keys.to_set().contains(key) implies m.dom().contains(key) by {
                let k = choose|k: int| 0 <= k < keys.len() && keys[k] == key;
                let j = choose|j: int|
                    0 <= j < i && (#[trigger] entries[j]).key == keys[k] && entries[j].value@
                        == out@[k]@;
                assert(entries[j].key == key);
            }
        }
        assert forall|k: int| 0 <= k < out@.len() implies (#[trigger] out@[k])@ == m[keys[k]] by {
            let j = choose|j: int|
                0 <= j < i && (#[trigger] entries[j]).key == keys[k] && entries[j].value@ == out@[k]@;
            assert(map@.contains_pair(entries[j].key, entries[j].value));
        }
        assert(lists_as(out@, keys, m));
    }
    out
}

/// The keys of a map in order.
fn keys_in_order(map: &SortedMap<(u64, u64), ()>) -> (r: Vec<ClientSurface>)
    requires
        map.wf(),
    ensures
        lists_keys(r@, map@.dom()),
{
    let mut out: Vec<ClientSurface> = Vec::new();
    let mut i: usize = 0;
    let ghost entries = map.entries@;
    while i < map.entries.len()
        invariant
            map.wf(),
            entries == map.entries@,
            i <= entries.len(),
            out@.len() == i,
            forall|j: int| 0 <= j < i ==> surface_key(#[trigger] out@[j]) == entries[j].key,
        decreases entries.len() - i,
    {
        let key: (u64, u64) = map.entries[i].key;
        out.push(ClientSurface { client: ClientId(key.0), surface: WlSurfaceId(key.1) });
        i = i + 1;
    }
    proof {
        lemma_entries(entries);
        assert forall|key: (u64, u64)| #[trigger] map@.dom().contains(key) implies exists|j: int|
            0 <= j < out@.len() && surface_key(#[trigger] out@[j]) == key by {
            let j = position(entries, key);
            assert(entries[j].key == key);
            assert(surface_key(out@[j]) == key);
        }
        assert forall|a: int, b: int| #![trigger out@[a], out@[b]]
            0 <= a < b < out@.len() implies pair_before(surface_key(out@[a]), surface_key(out@[b])) by {
            assert(pair_before(entries[a].key, entries[b].key));
        }
        assert forall|j: int| 0 <= j < out@.len() implies map@.dom().contains(
            surface_key(#[trigger] out@[j]),
        ) by {
            assert(map@.contains_pair(entries[j].key, entries[j].value));
        }
    }
    out
}

proof fn lemma_models_insert(m: Map<(u64, u64), SurfaceState>, key: (u64, u64), s: SurfaceState)
    ensures
        models(m.insert(key, s)) == models(m).insert(key, s@),
{
    assert(models(m.insert(key, s)) =~= models(m).insert(key, s@));
}

proof fn lemma_models_remove(m: Map<(u64, u64), SurfaceState>, key: (u64, u64))
    ensures
        models(m.remove(key)) == models(m).remove(key),
{
    assert(models(m.remove(key)) =~= models(m).remove(key));
}

/// What changed since the last time.
pub struct SurfaceDelta {
    pub updated: Vec<SurfaceState>,
    pub removed: Vec<ClientSurface>,
}

pub struct ClientUpdateBatch {
    pub events: Vec<ClientEvent>,
    pub surfaces: SurfaceDelta,
}

pub open spec fn empty_state() -> StateModel {
    StateModel {
        surfaces: Map::empty(),
        updates: Map::empty(),
        removals: Set::empty(),
        events: Seq::empty(),
        display_config: None,
        capabilities: None,
        transport_config: default_config(),
        transport_config_by_surface: Map::empty(),
    }
}

impl ClientState {
    pub open spec fn wf(&self) -> bool {
        &&& self.surfaces.wf()
        &&& self.surface_updates.wf()
        &&& self.surface_removals.wf()
        &&& consistent(self@)
    }

    pub fn new() -> (r: Self)
        ensures
            r.wf(),
            r@ == empty_state(),
    {
        let r = ClientState {
            surfaces: SortedMap::new(),
            surface_updates: SortedMap::new(),
            surface_removals: SortedMap::new(),
            events: Vec::new(),
            display_config: None,
            capabilities: None,
            transport_config: TransportConfig::default(),
            transport_config_by_surface: HashMap::new(),
        };
        assert(r@ =~= empty_state());
        r
    }

    fn commit(&mut self, key: (u64, u64), state: SurfaceState)
        requires
            old(self).wf(),
        ensures
            final(self).wf(),
            final(self)@ == committed(old(self)@, key, state@),
    {
        let ghost before = self@;
        let changed = match self.surfaces.get(key) {
            Some(prev) => !prev.same(&state),
            None => true,
        };
        proof {
            lemma_models_insert(self.surfaces@, key, state);
            lemma_committed_is_consistent(self@, key, state@);
        }
        if changed {
            let update = state.clone();
            proof {
                lemma_models_insert(self.surface_updates@, key, update);
            }
            self.surfaces.insert(key, state);
            self.surface_updates.insert(key, update);
            let _ = self.surface_removals.remove(key);
        } else {
            self.surfaces.insert(key, state);
        }
        assert(self@ =~= committed(before, key, state@));
    }

    fn destroy(&mut self, key: (u64, u64))
        requires
            old(self).wf(),
        ensures
            final(self).wf(),
            final(self)@ == destroyed(old(self)@, key),
    {
        let ghost before = self@;
        proof {
            lemma_models_remove(self.surfaces@, key);
            lemma_models_remove(self.surface_updates@, key);
        }
        let _ = self.surfaces.remove(key);
        let _ = self.surface_updates.remove(key);
        self.surface_removals.insert(key, ());
        assert(self@ =~= destroyed(before, key));
    }

    fn configure(&mut self, request: TransportRequest)
        requires
            old(self).wf(),
        ensures
            final(self).wf(),
            final(self)@ == configured(old(self)@, request),
    {
        let ghost before = self@;
        match request {
            TransportRequest::Config(config) => {
                self.transport_config = config;
                self.events.push(ClientEvent::TransportConfig(config));
            },
            TransportRequest::ConfigScoped { scope, config } => match scope {
                TransportScope::Global => {
                    self.transport_config = config;
                    self.events.push(ClientEvent::TransportConfig(config));
                },
                TransportScope::Surface(surface) => {
                    let _ = self.transport_config_by_surface.insert(surface.0, config);
                    self.events.push(ClientEvent::TransportConfigScoped { surface, config });
                },
            },
            TransportRequest::Pong(_) => {},
        }
        assert(self@ =~= configured(before, request));
    }

    /// Takes a request of the server into account. Every request is.
    pub fn apply_request(&mut self, request: Request) -> (r: bool)
        requires
            old(self).wf(),
        ensures
            r,
            final(self).wf(),
            final(self)@ == applied(old(self)@, request),
    {
        let ghost before = self@;
        match request {
            Request::Surface(surface) => {
                let key: (u64, u64) = (surface.client.0, surface.surface.0);
                match surface.payload {
                    SurfaceRequestPayload::Commit(state) => {
                        self.commit(key, state);
                    },
                    SurfaceRequestPayload::Destroyed => {
                        self.destroy(key);
                    },
                }
            },
            Request::Capabilities(caps) => {
                self.capabilities = Some(caps);
                self.events.push(ClientEvent::Capabilities(caps));
            },
            Request::DisplayConfig(config) => {
                self.display_config = Some(config);
                self.events.push(ClientEvent::DisplayConfig(config));
            },
            Request::Transport(request) => {
                self.configure(request);
            },
            Request::CursorImage(cursor) => {
                self.events.push(ClientEvent::CursorImage(cursor));
            },
            Request::Toplevel(request) => {
                self.events.push(ClientEvent::Toplevel(request));
            },
            Request::Popup(request) => {
                self.events.push(ClientEvent::Popup(request));
            },
            Request::Data(request) => {
                self.events.push(ClientEvent::Data(request));
            },
            Request::ClientDisconnected(client) => {
                self.events.push(ClientEvent::ClientDisconnected(client));
            },
        }
        assert(self@ =~= applied(before, request));
        true
    }

    /// As `apply_request`, after entering the request in the registry of managed windows.
    pub fn record_and_apply_request(
        &mut self,
        registry: &mut SurfaceRegistry,
        request: Request,
        now: u64,
    ) -> (r: bool)
        requires
            old(self).wf(),
            old(registry).wf(),
        ensures
            r,
            final(self).wf(),
            final(self)@ == applied(old(self)@, request),
            final(registry).wf(),
            final(registry)@ == (match request {
                Request::Surface(surface) => recorded(old(registry)@, surface, now),
                _ => old(registry)@,
            }),
    {
        if let Request::Surface(surface) = &request {
            registry.record_surface(surface, now);
        }
        self.apply_request(request)
    }

    /// All surfaces, ordered by client and surface.
    pub fn snapshot_surfaces(&self) -> (r: Vec<SurfaceState>)
        requires
            self.wf(),
        ensures
            lists(r@, self@.surfaces),
    {
        values_in_order(&self.surfaces)
    }

    /// The surfaces that changed or went since the last call, each ordered by client and surface.
    pub fn drain_surface_updates(&mut self) -> (r: SurfaceDelta)
        requires
            old(self).wf(),
        ensures
            final(self).wf(),
            final(self)@ == (StateModel { updates: Map::empty(), removals: Set::empty(), ..old(self)@ }),
            lists(r.updated@, old(self)@.updates),
            lists_keys(r.removed@, old(self)@.removals),
    {
        let ghost before = self@;
        let updated = values_in_order(&self.surface_updates);
        let removed = keys_in_order(&self.surface_removals);
        self.surface_updates = SortedMap::new();
        self.surface_removals = SortedMap::new();
        assert(models(Map::<(u64, u64), SurfaceState>::empty()) =~= Map::<
            (u64, u64),
            SurfaceModel,
        >::empty());
        assert(self@ =~= StateModel { updates: Map::empty(), removals: Set::empty(), ..before });
        SurfaceDelta { updated, removed }
    }

    /// The events since the last call, oldest first.
    pub fn drain_events(&mut self) -> (r: Vec<ClientEvent>)
        requires
            old(self).wf(),
        ensures
            final(self).wf(),
            r@ == old(self)@.events,
            final(self)@ == (StateModel { events: Seq::empty(), ..old(self)@ }),
    {
        let ghost before = self@;
        let mut drained: Vec<ClientEvent> = Vec::new();
        drained.append(&mut self.events);
        assert(drained@ =~= before.events);
        assert(self@ =~= StateModel { events: Seq::empty(), ..before });
        drained
    }

    pub fn transport_config(&self) -> (r: TransportConfig)
        ensures
            r == self@.transport_config,
    {
        self.transport_config
    }

    pub fn transport_config_for_surface(&self, surface: WlSurfaceId) -> (r: Option<TransportConfig>)
        ensures
            r == (if self@.transport_config_by_surface.contains_key(surface.0) {
                Some(self@.transport_config_by_surface[surface.0])
            } else {
                None
            }),
    {
        match self.transport_config_by_surface.get(&surface.0) {
            Some(config) => Some(*config),
            None => None,
        }
    }
}

/// All that happened since the last call, unless no notification came in between. `pending` counts
/// the notifications that came, and all of them are used up.
pub fn drain_client_updates(pending: &mut usize, state: &mut ClientState) -> (r: Result<
    Option<ClientUpdateBatch>,
    Error,
>)
    requires
        old(state).wf(),
    ensures
        final(state).wf(),
        *final(pending) == 0,
        r is Ok,
        r matches Ok(None) <==> *old(pending) == 0,
        *old(pending) == 0 ==> final(state)@ == old(state)@,
        r matches Ok(Some(batch)) ==> {
            &&& batch.events@ == old(state)@.events
            &&& lists(batch.surfaces.updated@, old(state)@.updates)
            &&& lists_keys(batch.surfaces.removed@, old(state)@.removals)
            &&& final(state)@ == StateModel {
                events: Seq::empty(),
                updates: Map::empty(),
                removals: Set::empty(),
                ..old(state)@
            }
        },
{
    if *pending == 0 {
        return Ok(None);
    }
    *pending = 0;
    let events = state.drain_events();
    let surfaces = state.drain_surface_updates();
    Ok(Some(ClientUpdateBatch { events, surfaces }))
}

proof fn lemma_surface_eq_transitive(a: SurfaceModel, b: SurfaceModel, c: SurfaceModel)
    requires
        surface_eq(a, b),
        surface_eq(b, c),
    ensures
        surface_eq(a, c),
{
}

proof fn lemma_committed_is_consistent(m: StateModel, key: (u64, u64), state: SurfaceModel)
    requires
        consistent(m),
    ensures
        consistent(committed(m, key, state)),
{
    let new = committed(m, key, state);
    assert forall|k: (u64, u64)| #[trigger] new.updates.contains_key(k) implies new.surfaces.contains_key(k)
        && (new.updates[k] == new.surfaces[k] || surface_eq(new.updates[k], new.surfaces[k])) by {
        if !is_change(m, key, state) && k == key {
            if surface_eq(m.updates[key], m.surfaces[key]) {
                lemma_surface_eq_transitive(m.updates[key], m.surfaces[key], state);
            }
        } else if k != key {
            assert(m.updates.contains_key(k));
        }
    }
}

/// No surface is reported as both changed and gone.
pub proof fn updates_and_removals_are_disjoint(state: ClientState)
    requires
        state.wf(),
    ensures
        state@.updates.dom().disjoint(state@.removals),
{
}

/// Committing again what is stored already reports nothing new.
pub proof fn unchanged_commit_reports_nothing(m: StateModel, key: (u64, u64), state: SurfaceModel)
    requires
        m.surfaces.contains_key(key),
        surface_eq(m.surfaces[key], state),
    ensures
        committed(m, key, state).updates == m.updates,
        committed(m, key, state).removals == m.removals,
        committed(m, key, state).events == m.events,
{
}

/// Destroying a surface undoes a commit of it: what remains is the removal.
pub proof fn destroy_after_commit(m: StateModel, key: (u64, u64), state: SurfaceModel)
    ensures
        destroyed(committed(m, key, state), key) == destroyed(m, key),
{
    assert(destroyed(committed(m, key, state), key) =~= destroyed(m, key));
}

/// A commit that changes a surface, or is its first, is reported, whatever was reported before: the
/// next to ask gets the surface as it was committed, and not its removal.
pub proof fn changes_are_reported(m: StateModel, key: (u64, u64), state: SurfaceModel)
    requires
        !m.surfaces.contains_key(key) || !surface_eq(m.surfaces[key], state),
    ensures
        ({
            let after = committed(m, key, state);
            &&& after.updates.contains_key(key)
            &&& after.updates[key] == state
            &&& !after.removals.contains(key)
        }),
{
}

/// After a commit, the surface is known as it was committed, and nothing else changed.
pub proof fn commits_are_kept(m: StateModel, key: (u64, u64), state: SurfaceModel, other: (u64, u64))
    requires
        other != key,
    ensures
        ({
            let after = committed(m, key, state);
            &&& after.surfaces.contains_key(key)
            &&& after.surfaces[key] == state
            &&& after.surfaces.contains_key(other) == m.surfaces.contains_key(other)
            &&& m.surfaces.contains_key(other) ==> after.surfaces[other] == m.surfaces[other]
            &&& after.updates.contains_key(other) == m.updates.contains_key(other)
            &&& m.updates.contains_key(other) ==> after.updates[other] == m.updates[other]
            &&& after.removals.contains(other) == m.removals.contains(other)
            &&& after.events == m.events
            &&& after.display_config == m.display_config
            &&& after.capabilities == m.capabilities
            &&& after.transport_config == m.transport_config
            &&& after.transport_config_by_surface == m.transport_config_by_surface
        }),
{
}

/// A destroyed surface is no longer known, and is reported as gone and not as changed. Nothing else
/// changed.
pub proof fn removals_are_reported(m: StateModel, key: (u64, u64), other: (u64, u64))
    requires
        other != key,
    ensures
        ({
            let after = destroyed(m, key);
            &&& !after.surfaces.contains_key(key)
            &&& !after.updates.contains_key(key)
            &&& after.removals.contains(key)
            &&& after.surfaces.contains_key(other) == m.surfaces.contains_key(other)
            &&& m.surfaces.contains_key(other) ==> after.surfaces[other] == m.surfaces[other]
            &&& after.updates.contains_key(other) == m.updates.contains_key(other)
            &&& m.updates.contains_key(other) ==> after.updates[other] == m.updates[other]
            &&& after.removals.contains(other) == m.removals.contains(other)
            &&& after.events == m.events
        }),
{
}

/// Requests about surfaces go to the surface that they name, by client and number.
pub proof fn surface_requests_reach_their_surface(m: StateModel, request: SurfaceRequest)
    ensures
        ({
            let after = applied(m, Request::Surface(request));
            let key = (request.client.0, request.surface.0);
            match request.payload {
                SurfaceRequestPayload::Commit(state) => after.surfaces.contains_key(key)
                    && after.surfaces[key] == state@ && (!m.surfaces.contains_key(key)
                    || !surface_eq(m.surfaces[key], state@) ==> after.updates.contains_key(key)
                    && after.updates[key] == state@),
                SurfaceRequestPayload::Destroyed => !after.surfaces.contains_key(key)
                    && after.removals.contains(key),
            }
        }),
{
}

/// Everything else that the server says is handed on as an event, behind those that wait, and
/// changes no surface; an answer to a ping is not.
pub proof fn other_requests_become_events(m: StateModel, request: Request)
    requires
        !(request is Surface),
    ensures
        ({
            let after = applied(m, request);
            &&& after.surfaces == m.surfaces
            &&& after.updates == m.updates
            &&& after.removals == m.removals
            &&& after.events == (match request {
                Request::Capabilities(caps) => m.events.push(ClientEvent::Capabilities(caps)),
                Request::DisplayConfig(config) => m.events.push(ClientEvent::DisplayConfig(config)),
                Request::CursorImage(cursor) => m.events.push(ClientEvent::CursorImage(cursor)),
                Request::Toplevel(request) => m.events.push(ClientEvent::Toplevel(request)),
                Request::Popup(request) => m.events.push(ClientEvent::Popup(request)),
                Request::Data(request) => m.events.push(ClientEvent::Data(request)),
                Request::ClientDisconnected(client) => m.events.push(
                    ClientEvent::ClientDisconnected(client),
                ),
                Request::Transport(TransportRequest::Config(config)) => m.events.push(
                    ClientEvent::TransportConfig(config),
                ),
                Request::Transport(
                    TransportRequest::ConfigScoped { scope: TransportScope::Global, config },
                ) => m.events.push(ClientEvent::TransportConfig(config)),
                Request::Transport(
                    TransportRequest::ConfigScoped {
                        scope: TransportScope::Surface(surface),
                        config,
                    },
                ) => m.events.push(ClientEvent::TransportConfigScoped { surface, config }),
                _ => m.events,
            })
        }),
{
}

/// What the server said last of its abilities, its display and its transport is what is known. A
/// configuration of one surface leaves that of all others as it was.
pub proof fn settings_are_kept(m: StateModel, request: Request, other: u64)
    ensures
        ({
            let after = applied(m, request);
            &&& after.capabilities == (match request {
                Request::Capabilities(caps) => Some(caps),
                _ => m.capabilities,
            })
            &&& after.display_config == (match request {
                Request::DisplayConfig(config) => Some(config),
                _ => m.display_config,
            })
            &&& match request {
                Request::Transport(TransportRequest::Config(config)) => after.transport_config
                    == config && after.transport_config_by_surface
                    == m.transport_config_by_surface,
                Request::Transport(TransportRequest::ConfigScoped { scope, config }) => match scope {
                    TransportScope::Global => after.transport_config == config
                        && after.transport_config_by_surface == m.transport_config_by_surface,
                    TransportScope::Surface(surface) => {
                        &&& after.transport_config == m.transport_config
                        &&& after.transport_config_by_surface.contains_key(surface.0)
                        &&& after.transport_config_by_surface[surface.0] == config
                        &&& other != surface.0 ==> after.transport_config_by_surface.contains_key(
                            other,
                        ) == m.transport_config_by_surface.contains_key(other)
                        &&& other != surface.0 && m.transport_config_by_surface.contains_key(other)
                            ==> after.transport_config_by_surface[other]
                            == m.transport_config_by_surface[other]
                    },
                },
                _ => after.transport_config == m.transport_config
                    && after.transport_config_by_surface == m.transport_config_by_surface,
            }
        }),
{
}

/// A list of surfaces holds each that is there, and no other.
pub proof fn lists_are_complete(
    states: Seq<SurfaceState>,
    m: Map<(u64, u64), SurfaceModel>,
    key: (u64, u64),
    at: int,
)
    requires
        lists(states, m),
        0 <= at < states.len(),
    ensures
        m.contains_key(key) ==> exists|i: int|
            0 <= i < states.len() && (#[trigger] states[i])@ == m[key],
        exists|k: (u64, u64)| #[trigger] m.contains_key(k) && m[k] == states[at]@,
        forall|i: int, j: int|
            #![trigger states[i], states[j]]
            0 <= i < j < states.len() ==> states[i]@.client.0 < states[j]@.client.0 || (
            states[i]@.client.0 == states[j]@.client.0 && states[i]@.id.0 <= states[j]@.id.0),
{
    let keys = choose|keys: Seq<(u64, u64)>| lists_as(states, keys, m);
    assert(keys.to_set().contains(keys[at]));
    assert(m.contains_key(keys[at]));
    if m.contains_key(key) {
        assert(keys.to_set().contains(key));
        let i = choose|i: int| 0 <= i < keys.len() && keys[i] == key;
        assert(states[i]@ == m[key]);
    }
}

} // verus!
