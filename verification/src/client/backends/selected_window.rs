//! The window that a terminal without room for more shows: the first one that is committed.
use crate::models::surface::{
    BufferAssignment, BufferData, BufferMetadata, Role, SurfaceState, WlSurfaceId,
};
use crate::models::surface_model::{BufferModel, RoleModel, SurfaceModel};
use crate::protocols::image::pixels::swapped;
use crate::protocols::wprs::serializer::RecvType;
use crate::protocols::wprs::types::Request;
use crate::protocols::wprs::wayland::SurfaceRequestPayload;
use crate::utils::filtering::{unfilter_to_buffer, unfiltered_buffer};
use vstd::prelude::*;

verus! {

/// Pixels with their first and third bytes exchanged. Bytes past the last whole pixel stay.
pub open spec fn exchanged(bytes: Seq<u8>) -> Seq<u8> {
    Seq::new(
        bytes.len(),
        |k: int|
            if k / 4 < bytes.len() / 4 {
                bytes[k / 4 * 4 + swapped(k % 4)]
            } else {
                bytes[k]
            },
    )
}

/// Exchanges blue and red.
pub fn bgra_to_rgba_in_place(buf: &mut Vec<u8>)
    ensures
        final(buf)@ == exchanged(old(buf)@),
{
    let ghost before = buf@;
    let len: usize = buf.len();
    let n: usize = len / 4;
    let mut i: usize = 0;
    while i < n
        invariant
            i <= n,
            n == len / 4,
            len == before.len(),
            buf@.len() == before.len(),
            forall|k: int|
                0 <= k < buf@.len() ==> (#[trigger] buf@[k]) == (if k < 4 * i {
                    exchanged(before)[k]
                } else {
                    before[k]
                }),
        decreases n - i,
    {
        let blue: u8 = buf[4 * i];
        let red: u8 = buf[4 * i + 2];
        buf.set(4 * i, red);
        buf.set(4 * i + 2, blue);
        i = i + 1;
    }
    assert(buf@ =~= exchanged(before));
}

/// Exchanging twice changes nothing.
pub proof fn exchanging_twice(bytes: Seq<u8>)
    ensures
        exchanged(exchanged(bytes)) == bytes,
{
    assert forall|k: int| 0 <= k < bytes.len() implies exchanged(exchanged(bytes))[k]
        == bytes[k] by {
        if k / 4 < bytes.len() / 4 {
            let j = k / 4 * 4 + swapped(k % 4);
            assert(j / 4 == k / 4);
            assert(j % 4 == swapped(k % 4));
        }
    }
    assert(exchanged(exchanged(bytes)) =~= bytes);
}

/// The pixels of a window, red first.
#[derive(Debug)]
pub struct WindowPixels {
    pub rgba: Vec<u8>,
    pub metadata: BufferMetadata,
}

/// The window that is shown.
pub struct SelectedWindow {
    pub selected_surface: Option<WlSurfaceId>,
}

/// The window that is shown once a surface is committed.
pub open spec fn selected_after(
    selected: Option<WlSurfaceId>,
    surface: WlSurfaceId,
    state: SurfaceModel,
) -> Option<WlSurfaceId> {
    match (selected, state.role) {
        (None, Some(RoleModel::XdgToplevel(_))) => Some(surface),
        _ => selected,
    }
}

/// The buffer that a commit brings with its data.
pub open spec fn brought(state: SurfaceModel) -> Option<(BufferMetadata, Seq<u8>)> {
    match state.buffer {
        Some(Some(buffer)) => match buffer.data {
            Some(data) => Some((buffer.metadata, data)),
            None => None,
        },
        _ => None,
    }
}

/// Whether the size of the buffer that a commit shows, if it shows one, is a number of bytes.
pub open spec fn commit_has_size(
    selected: Option<WlSurfaceId>,
    surface: WlSurfaceId,
    state: SurfaceModel,
) -> bool {
    selected_after(selected, surface, state) == Some(surface) ==> (brought(state) matches Some(
        (metadata, _),
    ) ==> 0 <= metadata.height * metadata.stride <= i32::MAX)
}

/// Whether the size of the buffer that a message shows, if it shows one, is a number of bytes.
pub open spec fn has_size(selected: Option<WlSurfaceId>, msg: RecvType<Request>) -> bool {
    msg matches RecvType::Object(Request::Surface(request)) ==> (request.payload matches
        SurfaceRequestPayload::Commit(state) ==> commit_has_size(
        selected,
        request.surface,
        state@,
    ))
}

/// What is shown after a commit.
pub open spec fn shown_after(
    selected: Option<WlSurfaceId>,
    surface: WlSurfaceId,
    state: SurfaceModel,
) -> Option<(BufferMetadata, Seq<u8>)> {
    if selected_after(selected, surface, state) == Some(surface) {
        match brought(state) {
            Some((metadata, data)) => Some(
                (metadata, exchanged(unfiltered_buffer(data, metadata.byte_len() as nat))),
            ),
            None => None,
        }
    } else {
        None
    }
}

pub open spec fn pixels_of(pixels: Option<WindowPixels>) -> Option<(BufferMetadata, Seq<u8>)> {
    match pixels {
        Some(pixels) => Some((pixels.metadata, pixels.rgba@)),
        None => None,
    }
}

impl SelectedWindow {
    pub fn new() -> (r: Self)
        ensures
            r.selected_surface is None,
    {
        SelectedWindow { selected_surface: None }
    }

    fn commit(&mut self, surface: WlSurfaceId, state: SurfaceState) -> (r: Option<WindowPixels>)
        requires
            commit_has_size(old(self).selected_surface, surface, state@),
        ensures
            final(self).selected_surface == selected_after(
                old(self).selected_surface,
                surface,
                state@,
            ),
            pixels_of(r) == shown_after(old(self).selected_surface, surface, state@),
    {
        let toplevel = match &state.role {
            Some(Role::XdgToplevel(_)) => true,
            _ => false,
        };
        if self.selected_surface.is_none() && toplevel {
            self.selected_surface = Some(surface);
        }
        if self.selected_surface != Some(surface) {
            return None;
        }
        let buffer = match &state.buffer {
            Some(BufferAssignment::New(buffer)) => buffer,
            _ => {
                return None;
            },
        };
        let filtered = match &buffer.data {
            BufferData::Uncompressed(data) => data.pixels(),
            _ => {
                return None;
            },
        };
        let metadata = buffer.metadata;
        let mut rgba = unfilter_to_buffer(filtered, metadata.len());
        bgra_to_rgba_in_place(&mut rgba);
        Some(WindowPixels { rgba, metadata })
    }

    /// The new pixels of the window that is shown, if a message brings some.
    pub fn handle_message(&mut self, msg: RecvType<Request>) -> (r: Option<WindowPixels>)
        requires
            has_size(old(self).selected_surface, msg),
        ensures
            match msg {
                RecvType::Object(Request::Surface(request)) => match request.payload {
                    SurfaceRequestPayload::Commit(state) => {
                        &&& final(self).selected_surface == selected_after(
                            old(self).selected_surface,
                            request.surface,
                            state@,
                        )
                        &&& pixels_of(r) == shown_after(
                            old(self).selected_surface,
                            request.surface,
                            state@,
                        )
                    },
                    SurfaceRequestPayload::Destroyed => r is None && *final(self) == *old(self),
                },
                _ => r is None && *final(self) == *old(self),
            },
    {
        match msg {
            RecvType::Object(Request::Surface(request)) => match request.payload {
                SurfaceRequestPayload::Commit(state) => self.commit(request.surface, state),
                SurfaceRequestPayload::Destroyed => None,
            },
            _ => None,
        }
    }

    /// Whether the size of the buffer that a message shows, if it shows one, is a number of bytes.
    pub fn message_has_size(&self, msg: &RecvType<Request>) -> (r: bool)
        ensures
            r == has_size(self.selected_surface, *msg),
    {
        let request = match msg {
            RecvType::Object(Request::Surface(request)) => request,
            _ => {
                return true;
            },
        };
        let state = match &request.payload {
            SurfaceRequestPayload::Commit(state) => state,
            SurfaceRequestPayload::Destroyed => {
                return true;
            },
        };
        let toplevel = match &state.role {
            Some(Role::XdgToplevel(_)) => true,
            _ => false,
        };
        let shown = self.selected_surface == Some(request.surface) || (
        self.selected_surface.is_none() && toplevel);
        let buffer = match &state.buffer {
            Some(BufferAssignment::New(buffer)) => buffer,
            _ => {
                return true;
            },
        };
        let there = match &buffer.data {
            BufferData::Uncompressed(_) => true,
            _ => false,
        };
        match buffer.metadata.height.checked_mul(buffer.metadata.stride) {
            Some(len) => !shown || !there || len >= 0,
            None => !shown || !there,
        }
    }
}

/// Other windows are never shown: once there is one, commits of others bring nothing.
pub proof fn other_windows_are_not_shown(
    selected: WlSurfaceId,
    surface: WlSurfaceId,
    state: SurfaceModel,
)
    requires
        selected != surface,
    ensures
        selected_after(Some(selected), surface, state) == Some(selected),
        shown_after(Some(selected), surface, state) is None,
{
}

/// Red, green, blue and alpha of each pixel, in this order, from blue, green, red and alpha.
pub proof fn exchanged_pixels(bytes: Seq<u8>, i: int)
    requires
        0 <= i < bytes.len() as int / 4,
    ensures
        exchanged(bytes).len() == bytes.len(),
        exchanged(bytes)[4 * i] == bytes[4 * i + 2],
        exchanged(bytes)[4 * i + 1] == bytes[4 * i + 1],
        exchanged(bytes)[4 * i + 2] == bytes[4 * i],
        exchanged(bytes)[4 * i + 3] == bytes[4 * i + 3],
{
}

/// The first toplevel to commit is the window that is shown, for good. A commit of it that brings a
/// buffer with its bytes shows them; nothing else shows anything.
pub proof fn first_toplevel_is_the_window(
    selected: Option<WlSurfaceId>,
    surface: WlSurfaceId,
    state: SurfaceModel,
    buffer: BufferModel,
    data: Seq<u8>,
)
    ensures
        selected is Some ==> selected_after(selected, surface, state) == selected,
        selected is None && (state.role matches Some(RoleModel::XdgToplevel(_))) ==> selected_after(
            selected,
            surface,
            state,
        ) == Some(surface),
        selected is None && !(state.role matches Some(RoleModel::XdgToplevel(_)))
            ==> selected_after(selected, surface, state) is None,
        selected == Some(surface) && state.buffer == Some(Some(buffer)) && buffer.data == Some(data)
            ==> (shown_after(selected, surface, state) matches Some((metadata, rgba)) && metadata
            == buffer.metadata && rgba == exchanged(
            unfiltered_buffer(data, buffer.metadata.byte_len() as nat),
        )),
        !(state.buffer matches Some(Some(b)) && b.data is Some) ==> shown_after(
            selected,
            surface,
            state,
        ) is None,
{
}

} // verus!
