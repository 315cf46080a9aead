//! What a client knows once a server has told it everything.
use crate::client::state::{applied, committed, empty_state, StateModel};
use crate::models::surface::SurfaceState;
use crate::protocols::wprs::handshake::{commit_of, commits, greeting};
use crate::protocols::wprs::serializer::SendType;
use crate::protocols::wprs::types::{Capabilities, DisplayConfig, Request};
use vstd::prelude::*;

verus! {

/// The state after messages of the server, in order. Frames alone change nothing.
pub open spec fn told(m: StateModel, messages: Seq<SendType<Request>>) -> StateModel
    decreases messages.len(),
{
    if messages.len() == 0 {
        m
    } else {
        let before = told(m, messages.drop_last());
        match messages.last() {
            SendType::Object(request) => applied(before, request),
            SendType::RawBuffer(_) => before,
        }
    }
}

pub open spec fn key_of(state: SurfaceState) -> (u64, u64) {
    (state.client.0, state.id.0)
}

/// Whether no surface is told of twice.
pub open spec fn are_distinct(surfaces: Seq<SurfaceState>) -> bool {
    forall|i: int, j: int|
        #![trigger surfaces[i], surfaces[j]]
        0 <= i < j < surfaces.len() ==> key_of(surfaces[i]) != key_of(surfaces[j])
}

/// Whether a surface is among those that are told of.
pub open spec fn is_among(surfaces: Seq<SurfaceState>, key: (u64, u64)) -> bool {
    exists|i: int| 0 <= i < surfaces.len() && key_of(#[trigger] surfaces[i]) == key
}

/// A surface request that comes twice does the same as once.
pub proof fn surface_requests_are_idempotent(m: StateModel, request: Request)
    requires
        request is Surface,
    ensures
        applied(applied(m, request), request) == applied(m, request),
{
    let once = applied(m, request);
    assert(applied(once, request) =~= once);
}

proof fn lemma_told_commits(m: StateModel, first: Seq<SendType<Request>>, surfaces: Seq<SurfaceState>)
    requires
        are_distinct(surfaces),
    ensures
        ({
            let before = told(m, first);
            let after = told(m, first + commits(surfaces));
            &&& forall|i: int|
                0 <= i < surfaces.len() ==> after.surfaces.contains_pair(
                    key_of(#[trigger] surfaces[i]),
                    surfaces[i]@,
                )
            &&& forall|key: (u64, u64)|
                !is_among(surfaces, key) ==> (#[trigger] after.surfaces.contains_key(key)
                    == before.surfaces.contains_key(key)) && (before.surfaces.contains_key(key)
                    ==> after.surfaces[key] == before.surfaces[key])
            &&& after.capabilities == before.capabilities
            &&& after.display_config == before.display_config
        }),
    decreases surfaces.len(),
{
    let messages = first + commits(surfaces);
    if surfaces.len() == 0 {
        assert(messages =~= first);
    } else {
        let fewer = surfaces.drop_last();
        let last = surfaces.last();
        assert(are_distinct(fewer)) by {
            assert forall|i: int, j: int|
                #![trigger fewer[i], fewer[j]]
                0 <= i < j < fewer.len() implies key_of(fewer[i]) != key_of(fewer[j]) by {
                assert(fewer[i] == surfaces[i] && fewer[j] == surfaces[j]);
            }
        }
        lemma_told_commits(m, first, fewer);
        assert(messages.drop_last() =~= first + commits(fewer));
        assert(messages.last() == SendType::Object(Request::Surface(commit_of(last))));
        let before = told(m, first);
        let middle = told(m, first + commits(fewer));
        let after = told(m, messages);
        assert(after == committed(middle, key_of(last), last@));
        assert forall|i: int| 0 <= i < surfaces.len() implies after.surfaces.contains_pair(
            key_of(#[trigger] surfaces[i]),
            surfaces[i]@,
        ) by {
            if i < surfaces.len() - 1 {
                assert(fewer[i] == surfaces[i]);
                assert(middle.surfaces.contains_pair(key_of(fewer[i]), fewer[i]@));
                assert(key_of(surfaces[i]) != key_of(surfaces[surfaces.len() - 1]));
            }
        }
        assert forall|key: (u64, u64)| !is_among(surfaces, key) implies (
        #[trigger] after.surfaces.contains_key(key) == before.surfaces.contains_key(key)) && (
        before.surfaces.contains_key(key) ==> after.surfaces[key] == before.surfaces[key]) by {
            assert(!is_among(fewer, key)) by {
                if is_among(fewer, key) {
                    let i = choose|i: int|
                        0 <= i < fewer.len() && key_of(#[trigger] fewer[i]) == key;
                    assert(key_of(surfaces[i]) == key);
                }
            }
            assert(key_of(surfaces[surfaces.len() - 1]) != key);
            assert(middle.surfaces.contains_key(key) == before.surfaces.contains_key(key));
        }
    }
}

/// A client that connects learns everything: what the server can do, its display, and every
/// surface as it is, whatever the client knew before.
pub proof fn greetings_tell_everything(
    m: StateModel,
    capabilities: Capabilities,
    display_config: DisplayConfig,
    surfaces: Seq<SurfaceState>,
)
    requires
        are_distinct(surfaces),
    ensures
        ({
            let after = told(m, greeting(capabilities, display_config, surfaces));
            &&& after.capabilities == Some(capabilities)
            &&& after.display_config == Some(display_config)
            &&& forall|i: int|
                0 <= i < surfaces.len() ==> after.surfaces.contains_pair(
                    key_of(#[trigger] surfaces[i]),
                    surfaces[i]@,
                )
            &&& forall|key: (u64, u64)|
                !is_among(surfaces, key) ==> (#[trigger] after.surfaces.contains_key(key)
                    == m.surfaces.contains_key(key))
        }),
{
    let caps = SendType::Object(Request::Capabilities(capabilities));
    let display = SendType::Object(Request::DisplayConfig(display_config));
    let one = seq![caps];
    let two = seq![caps, display];
    assert(one.drop_last() =~= Seq::empty());
    assert(two.drop_last() =~= one);
    assert(told(m, one.drop_last()) == m);
    assert(told(m, one) == applied(m, Request::Capabilities(capabilities)));
    assert(told(m, two) == applied(told(m, one), Request::DisplayConfig(display_config)));
    lemma_told_commits(m, two, surfaces);
}

/// A new client knows the surfaces that it was told of and no others.
pub proof fn new_clients_know_what_they_were_told(
    capabilities: Capabilities,
    display_config: DisplayConfig,
    surfaces: Seq<SurfaceState>,
    key: (u64, u64),
)
    requires
        are_distinct(surfaces),
    ensures
        told(empty_state(), greeting(capabilities, display_config, surfaces)).surfaces.contains_key(
            key,
        ) == is_among(surfaces, key),
{
    greetings_tell_everything(empty_state(), capabilities, display_config, surfaces);
    let after = told(empty_state(), greeting(capabilities, display_config, surfaces));
    if is_among(surfaces, key) {
        let i = choose|i: int| 0 <= i < surfaces.len() && key_of(#[trigger] surfaces[i]) == key;
        assert(after.surfaces.contains_pair(key_of(surfaces[i]), surfaces[i]@));
    } else {
        assert(after.surfaces.contains_key(key) == empty_state().surfaces.contains_key(key));
    }
}

} // verus!
