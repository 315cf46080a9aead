//! What a server sends a client that connects.
use crate::error::Error;
use crate::models::surface::SurfaceState;
use crate::protocols::wprs::serializer::SendType;
use crate::protocols::wprs::types::{Capabilities, DisplayConfig, Request};
use crate::protocols::wprs::wayland::{SurfaceRequest, SurfaceRequestPayload};
use vstd::prelude::*;

verus! {

/// The request that tells of a surface as it is.
pub open spec fn commit_of(state: SurfaceState) -> SurfaceRequest {
    SurfaceRequest {
        client: state.client,
        surface: state.id,
        payload: SurfaceRequestPayload::Commit(state),
    }
}

/// The request that tells of a surface as it is.
pub fn surface_request_from_state(state: SurfaceState) -> (r: SurfaceRequest)
    ensures
        r == commit_of(state),
{
    SurfaceRequest {
        client: state.client,
        surface: state.id,
        payload: SurfaceRequestPayload::Commit(state),
    }
}

/// The messages that tell of surfaces, one for each.
pub open spec fn commits(surfaces: Seq<SurfaceState>) -> Seq<SendType<Request>> {
    Seq::new(
        surfaces.len(),
        |i: int| SendType::Object(Request::Surface(commit_of(surfaces[i]))),
    )
}

/// The messages that tell of a surface.
///
/// Pixels are not among them: frames travel on their own, and the receiver puts them where they
/// belong.
pub fn surface_messages(state: SurfaceState) -> (r: Result<Vec<SendType<Request>>, Error>)
    ensures
        r matches Ok(messages) && messages@ == commits(seq![state]),
{
    let ghost surfaces = seq![state];
    let mut out: Vec<SendType<Request>> = Vec::new();
    out.push(SendType::Object(Request::Surface(surface_request_from_state(state))));
    assert(out@ =~= commits(surfaces));
    Ok(out)
}

/// What a new client is told: what the server can do, the display, and then all surfaces.
pub open spec fn greeting(
    capabilities: Capabilities,
    display_config: DisplayConfig,
    surfaces: Seq<SurfaceState>,
) -> Seq<SendType<Request>> {
    seq![
        SendType::Object(Request::Capabilities(capabilities)),
        SendType::Object(Request::DisplayConfig(display_config)),
    ] + commits(surfaces)
}

/// What a new client is told: what the server can do, the display, and then all surfaces.
pub fn initial_messages(
    capabilities: Capabilities,
    display_config: DisplayConfig,
    surfaces: Vec<SurfaceState>,
) -> (r: Result<Vec<SendType<Request>>, Error>)
    ensures
        r matches Ok(messages) && messages@ == greeting(
            capabilities,
            display_config,
            surfaces@,
        ),
{
    let ghost all = surfaces@;
    let mut out: Vec<SendType<Request>> = Vec::new();
    out.push(SendType::Object(Request::Capabilities(capabilities)));
    out.push(SendType::Object(Request::DisplayConfig(display_config)));
    let ghost front = out@;
    let mut rest = surfaces;
    while rest.len() > 0
        invariant
            rest@.len() <= all.len(),
            rest@ =~= all.subrange(all.len() - rest@.len(), all.len() as int),
            out@ =~= front + commits(all.subrange(0, all.len() - rest@.len())),
        decreases rest@.len(),
    {
        let surface = rest.remove(0);
        let ghost n = all.len() - rest@.len();
        assert(surface == all[n - 1]);
        match surface_messages(surface) {
            Ok(messages) => {
                let mut messages = messages;
                out.append(&mut messages);
            },
            Err(err) => {
                return Err(err);
            },
        }
        assert(all.subrange(0, n) =~= all.subrange(0, n - 1).push(surface));
        assert(commits(all.subrange(0, n)) =~= commits(all.subrange(0, n - 1)) + commits(
            seq![surface],
        ));
    }
    assert(all.subrange(0, all.len() as int) =~= all);
    assert(out@ =~= greeting(capabilities, display_config, all));
    Ok(out)
}

/// A new client is told what the server can do, then of the display, and then of every surface as it
/// is, in order.
pub proof fn new_clients_learn_everything(
    capabilities: Capabilities,
    display_config: DisplayConfig,
    surfaces: Seq<SurfaceState>,
    i: int,
)
    requires
        0 <= i < surfaces.len(),
    ensures
        ({
            let told = greeting(capabilities, display_config, surfaces);
            &&& told.len() == surfaces.len() + 2
            &&& told[0] == SendType::Object(Request::Capabilities(capabilities))
            &&& told[1] == SendType::Object(Request::DisplayConfig(display_config))
            &&& told[i + 2] matches SendType::Object(Request::Surface(request))
            &&& request.client == surfaces[i].client
            &&& request.surface == surfaces[i].id
            &&& request.payload == SurfaceRequestPayload::Commit(surfaces[i])
        }),
{
}

} // verus!
