//! Pairing of frame contents with the commits they belong to.
use crate::error::Error;
use crate::models::surface::{BitmapAssignment, BufferPoolHandle, SurfaceState, WlSurfaceId};
use crate::models::surface_model::{BitmapModel, SurfaceModel};
use crate::protocols::wprs::frame_codecs::{
    decode_jpeg_to_bgra, decode_png_to_bgra, is_bgra_of_jpeg, jpeg_failure, png_failure, png_pixels,
};
use crate::protocols::wprs::raw_buffer::{RawBufferKind, RawBufferMessage};
use crate::protocols::wprs::serializer::RecvType;
use crate::protocols::wprs::types::Request;
use crate::protocols::wprs::wayland::{SurfaceRequest, SurfaceRequestPayload};
use crate::utils::filtering::{filtered, unfilter_undoes_filter, unfilter, unfiltered};
use crate::utils::vec4u8::Vec4u8s;
use std::collections::{HashMap, HashSet};
use vstd::prelude::*;

verus! {

broadcast use vstd::std_specs::hash::group_hash_axioms;

/// Client-side synchronizer for pairing `RawBuffer` frames with `Surface(Commit)` messages.
///
/// The wire format carries frame bytes as `RawBuffer` messages and may carry empty buffers in
/// surface commits as placeholders. This helper keeps the association logic out of presentation
/// backends.
pub struct ClientSync {
    /// Whether H.264 frames can be decoded.
    pub video_h264: bool,
    pub buffer_cache: HashMap<u64, BufferPoolHandle>,
    pub legacy_last_buffer: Option<BufferPoolHandle>,
    /// The surfaces for which a decoder runs.
    pub h264_decoder: HashSet<u64>,
    pub h264_disabled: HashSet<u64>,
}

#[verifier::ext_equal]
pub struct SyncModel {
    pub video_h264: bool,
    pub cache: Map<u64, Seq<u8>>,
    pub legacy: Option<Seq<u8>>,
    pub decoders: Set<u64>,
    pub disabled: Set<u64>,
}

impl View for ClientSync {
    type V = SyncModel;

    open spec fn view(&self) -> SyncModel {
        SyncModel {
            video_h264: self.video_h264,
            cache: self.buffer_cache@.map_values(|b: BufferPoolHandle| b@),
            legacy: match self.legacy_last_buffer {
                Some(b) => Some(b@),
                None => None,
            },
            decoders: self.h264_decoder@,
            disabled: self.h264_disabled@,
        }
    }
}

/// What has to be done about a message.
#[derive(Debug)]
pub enum SyncStep {
    /// The message goes on to the backend.
    Forward(RecvType<Request>),
    /// Nothing more.
    Consumed,
    /// The bytes have to go through the decoder of the surface, which has to be started where it
    /// does not run yet. `finish_h264` takes the outcome.
    DecodeH264 { surface: WlSurfaceId, start: bool, bytes: Vec<u8> },
}

/// What came of a frame that was handed to a decoder.
#[derive(Debug)]
pub enum H264Outcome {
    NotStarted,
    Failed,
    NoFrame,
    Frame(Vec<u8>),
}

/// Whether these are the pixels of a buffer that needs no video decoder.
pub open spec fn is_buffer_pixels(kind: RawBufferKind, bytes: Seq<u8>, data: Seq<u8>) -> bool {
    match kind {
        RawBufferKind::FilteredBgra => data == unfiltered(bytes),
        RawBufferKind::Png => png_pixels(bytes) matches Some((_, _, bgra)) && data == bgra,
        RawBufferKind::Jpeg => exists|width: u32, height: u32|
            is_bgra_of_jpeg(bytes, width, height, data),
        RawBufferKind::H264 => false,
    }
}

/// Whether `err` can be why a buffer has no pixels.
pub open spec fn buffer_failure(kind: RawBufferKind, bytes: Seq<u8>, err: Error) -> bool {
    match kind {
        RawBufferKind::Png => png_failure(bytes, err) && png_pixels(bytes) is None,
        RawBufferKind::Jpeg => jpeg_failure(bytes, err),
        _ => false,
    }
}

/// Keeps pixels for a surface, or for whichever commit comes next.
pub open spec fn stored(m: SyncModel, surface: Option<WlSurfaceId>, data: Seq<u8>) -> SyncModel {
    match surface {
        Some(surface) => SyncModel { cache: m.cache.insert(surface.0, data), ..m },
        None => SyncModel { legacy: Some(data), ..m },
    }
}

pub open spec fn forgotten(m: SyncModel, surface: WlSurfaceId) -> SyncModel {
    SyncModel {
        cache: m.cache.remove(surface.0),
        decoders: if m.video_h264 {
            m.decoders.remove(surface.0)
        } else {
            m.decoders
        },
        disabled: if m.video_h264 {
            m.disabled.remove(surface.0)
        } else {
            m.disabled
        },
        ..m
    }
}

/// Whether a bitmap is a placeholder: its bytes are not as many as its size says.
pub open spec fn is_placeholder(bitmap: BitmapModel) -> bool {
    bitmap.data.len() != bitmap.metadata.byte_len()
}

/// The bitmap that takes the place of a committed one: a placeholder gets the pixels kept for its
/// surface, or else those kept for no surface. Anything else stays as it is.
pub open spec fn synced_bitmap(
    m: SyncModel,
    surface: WlSurfaceId,
    bitmap: Option<Option<BitmapModel>>,
) -> Option<Option<BitmapModel>> {
    match bitmap {
        Some(Some(b)) => if is_placeholder(b) {
            if m.cache.contains_key(surface.0) {
                Some(Some(BitmapModel { data: m.cache[surface.0], ..b }))
            } else {
                match m.legacy {
                    Some(data) => Some(Some(BitmapModel { data, ..b })),
                    None => Some(Some(b)),
                }
            }
        } else {
            Some(Some(b))
        },
        _ => bitmap,
    }
}

/// What is kept after a commit: pixels are used once.
pub open spec fn after_commit(
    m: SyncModel,
    surface: WlSurfaceId,
    bitmap: Option<Option<BitmapModel>>,
) -> SyncModel {
    match bitmap {
        Some(Some(b)) => if is_placeholder(b) {
            if m.cache.contains_key(surface.0) {
                SyncModel { cache: m.cache.remove(surface.0), ..m }
            } else {
                SyncModel { legacy: None, ..m }
            }
        } else {
            m
        },
        _ => m,
    }
}

/// The message of a commit whose bitmap has been looked after.
pub open spec fn is_synced_commit(
    step: SyncStep,
    m: SyncModel,
    request: SurfaceRequest,
    state: SurfaceModel,
) -> bool {
    step matches SyncStep::Forward(RecvType::Object(Request::Surface(out))) && out.client
        == request.client && out.surface == request.surface && (out.payload matches
        SurfaceRequestPayload::Commit(new) && new@ == (SurfaceModel {
        bitmap: synced_bitmap(m, request.surface, state.bitmap),
        ..state
    }))
}

/// The size of a committed bitmap has to fit the arithmetic of its metadata.
pub open spec fn has_measurable_bitmap(msg: RecvType<Request>) -> bool {
    match msg {
        RecvType::Object(Request::Surface(request)) => match request.payload {
            SurfaceRequestPayload::Commit(state) => match state.bitmap {
                Some(BitmapAssignment::New(b)) => i32::MIN <= b.metadata.height * b.metadata.stride
                    <= i32::MAX,
                _ => true,
            },
            SurfaceRequestPayload::Destroyed => true,
        },
        _ => true,
    }
}

impl ClientSync {
    /// A synchronizer that ignores H.264 frames.
    pub fn new() -> (r: Self)
        ensures
            r@ == (SyncModel {
                video_h264: false,
                cache: Map::empty(),
                legacy: None,
                decoders: Set::empty(),
                disabled: Set::empty(),
            }),
    {
        Self::with_video(false)
    }

    pub fn with_video(video_h264: bool) -> (r: Self)
        ensures
            r@ == (SyncModel {
                video_h264,
                cache: Map::empty(),
                legacy: None,
                decoders: Set::empty(),
                disabled: Set::empty(),
            }),
    {
        let r = ClientSync {
            video_h264,
            buffer_cache: HashMap::new(),
            legacy_last_buffer: None,
            h264_decoder: HashSet::new(),
            h264_disabled: HashSet::new(),
        };
        assert(r@.cache =~= Map::empty());
        r
    }

    fn store(&mut self, surface: Option<WlSurfaceId>, data: Vec<u8>)
        ensures
            final(self)@ == stored(old(self)@, surface, data@),
    {
        let ghost before = self@;
        let ghost bytes = data@;
        let data = BufferPoolHandle::from_bytes(data);
        match surface {
            Some(surface) => {
                let _ = self.buffer_cache.insert(surface.0, data);
            },
            None => {
                self.legacy_last_buffer = Some(data);
            },
        }
        assert(self@ =~= stored(before, surface, bytes));
    }

    fn handle_raw_buffer(&mut self, msg: RawBufferMessage) -> (r: Result<SyncStep, Error>)
        ensures
            raw_buffer_handled(old(self)@, msg, r, final(self)@),
    {
        let surface = msg.header.surface;
        match msg.header.kind {
            RawBufferKind::FilteredBgra => {
                let ghost bytes = msg.bytes@;
                let filtered = Vec4u8s::from_bytes(msg.bytes);
                let total: usize = filtered.bytes.len();
                let n: usize = filtered.len();
                assert(n * 4 <= total);
                let mut bgra: Vec<u8> = vec![0u8;n * 4];
                unfilter(&filtered, &mut bgra);
                assert(bgra@ =~= unfiltered(filtered@));
                assert(is_buffer_pixels(msg.header.kind, bytes, bgra@));
                self.store(surface, bgra);
                Ok(SyncStep::Consumed)
            },
            RawBufferKind::H264 => {
                if !self.video_h264 {
                    return Ok(SyncStep::Consumed);
                }
                let surface = match surface {
                    Some(surface) => surface,
                    None => {
                        return Ok(SyncStep::Consumed);
                    },
                };
                if self.h264_disabled.contains(&surface.0) {
                    return Ok(SyncStep::Consumed);
                }
                let start = !self.h264_decoder.contains(&surface.0);
                Ok(SyncStep::DecodeH264 { surface, start, bytes: msg.bytes })
            },
            RawBufferKind::Png => match decode_png_to_bgra(msg.bytes.as_slice()) {
                Ok((_w, _h, bgra)) => {
                    assert(is_buffer_pixels(msg.header.kind, msg.bytes@, bgra@));
                    self.store(surface, bgra);
                    Ok(SyncStep::Consumed)
                },
                Err(err) => Err(err),
            },
            RawBufferKind::Jpeg => match decode_jpeg_to_bgra(msg.bytes.as_slice()) {
                Ok((_w, _h, bgra)) => {
                    assert(is_buffer_pixels(msg.header.kind, msg.bytes@, bgra@));
                    self.store(surface, bgra);
                    Ok(SyncStep::Consumed)
                },
                Err(err) => Err(err),
            },
        }
    }

    /// Gives a committed placeholder the pixels kept for it.
    fn sync_commit(&mut self, surface: WlSurfaceId, state: SurfaceState) -> (r: SurfaceState)
        requires
            match state.bitmap {
                Some(BitmapAssignment::New(b)) => i32::MIN <= b.metadata.height * b.metadata.stride
                    <= i32::MAX,
                _ => true,
            },
        ensures
            r@ == (SurfaceModel {
                bitmap: synced_bitmap(old(self)@, surface, state@.bitmap),
                ..state@
            }),
            final(self)@ == after_commit(old(self)@, surface, state@.bitmap),
    {
        let ghost before = self@;
        let ghost bitmap = state@.bitmap;
        let mut state = state;
        match state.bitmap.take() {
            Some(BitmapAssignment::New(mut buf)) => {
                if buf.data.len() != buf.metadata.len() {
                    if let Some(cache) = self.buffer_cache.remove(&surface.0) {
                        buf.data = cache;
                    } else if let Some(cache) = self.legacy_last_buffer.take() {
                        buf.data = cache;
                    }
                }
                state.bitmap = Some(BitmapAssignment::New(buf));
            },
            other => {
                state.bitmap = other;
            },
        }
        assert(self@.cache =~= after_commit(before, surface, bitmap).cache);
        assert(self@ =~= after_commit(before, surface, bitmap));
        state
    }

    fn forget(&mut self, surface: WlSurfaceId)
        ensures
            final(self)@ == forgotten(old(self)@, surface),
    {
        let ghost before = self@;
        let _ = self.buffer_cache.remove(&surface.0);
        if self.video_h264 {
            let _ = self.h264_decoder.remove(&surface.0);
            let _ = self.h264_disabled.remove(&surface.0);
        }
        assert(self@.cache =~= forgotten(before, surface).cache);
        assert(self@ =~= forgotten(before, surface));
    }

    /// Transforms incoming server messages:
    /// - Consumes `RecvType::RawBuffer` frames, decoding them into in-memory buffers.
    /// - Rewrites `Surface(Commit)` messages to hold the decoded buffer where they hold a
    ///   placeholder.
    pub fn handle_message(&mut self, msg: RecvType<Request>) -> (r: Result<SyncStep, Error>)
        requires
            has_measurable_bitmap(msg),
        ensures
            match msg {
                RecvType::RawBuffer(buffer) => raw_buffer_handled(
                    old(self)@,
                    buffer,
                    r,
                    final(self)@,
                ),
                RecvType::Object(Request::Surface(request)) => match request.payload {
                    SurfaceRequestPayload::Destroyed => r == Ok::<SyncStep, Error>(
                        SyncStep::Forward(msg),
                    ) && final(self)@ == forgotten(old(self)@, request.surface),
                    SurfaceRequestPayload::Commit(state) => (r matches Ok(step)
                        && is_synced_commit(step, old(self)@, request, state@)) && final(self)@
                        == after_commit(old(self)@, request.surface, state@.bitmap),
                },
                RecvType::Object(_) => r == Ok::<SyncStep, Error>(SyncStep::Forward(msg))
                    && final(self)@ == old(self)@,
            },
    {
        match msg {
            RecvType::RawBuffer(buffer) => self.handle_raw_buffer(buffer),
            RecvType::Object(Request::Surface(request)) => {
                let SurfaceRequest { client, surface, payload } = request;
                match payload {
                    SurfaceRequestPayload::Destroyed => {
                        self.forget(surface);
                        Ok(
                            SyncStep::Forward(
                                RecvType::Object(
                                    Request::Surface(
                                        SurfaceRequest {
                                            client,
                                            surface,
                                            payload: SurfaceRequestPayload::Destroyed,
                                        },
                                    ),
                                ),
                            ),
                        )
                    },
                    SurfaceRequestPayload::Commit(state) => {
                        let state = self.sync_commit(surface, state);
                        Ok(
                            SyncStep::Forward(
                                RecvType::Object(
                                    Request::Surface(
                                        SurfaceRequest {
                                            client,
                                            surface,
                                            payload: SurfaceRequestPayload::Commit(state),
                                        },
                                    ),
                                ),
                            ),
                        )
                    },
                }
            },
            RecvType::Object(other) => Ok(SyncStep::Forward(RecvType::Object(other))),
        }
    }

    /// Takes what came of a frame that was handed to the decoder of a surface. A surface whose
    /// decoder fails gets no further frames that way.
    pub fn finish_h264(&mut self, surface: WlSurfaceId, outcome: H264Outcome)
        ensures
            final(self)@ == after_h264(old(self)@, surface, outcome),
    {
        let ghost before = self@;
        match outcome {
            H264Outcome::NotStarted => {
                let _ = self.h264_disabled.insert(surface.0);
            },
            H264Outcome::Failed => {
                let _ = self.h264_decoder.remove(&surface.0);
                let _ = self.h264_disabled.insert(surface.0);
            },
            H264Outcome::NoFrame => {
                let _ = self.h264_decoder.insert(surface.0);
            },
            H264Outcome::Frame(bgra) => {
                let _ = self.h264_decoder.insert(surface.0);
                self.store(Some(surface), bgra);
            },
        }
        assert(self@ =~= after_h264(before, surface, outcome));
    }
}

pub open spec fn after_h264(m: SyncModel, surface: WlSurfaceId, outcome: H264Outcome) -> SyncModel {
    match outcome {
        H264Outcome::NotStarted => SyncModel { disabled: m.disabled.insert(surface.0), ..m },
        H264Outcome::Failed => SyncModel {
            decoders: m.decoders.remove(surface.0),
            disabled: m.disabled.insert(surface.0),
            ..m
        },
        H264Outcome::NoFrame => SyncModel { decoders: m.decoders.insert(surface.0), ..m },
        H264Outcome::Frame(bgra) => stored(
            SyncModel { decoders: m.decoders.insert(surface.0), ..m },
            Some(surface),
            bgra@,
        ),
    }
}

/// What becomes of a raw buffer.
pub open spec fn raw_buffer_handled(
    m: SyncModel,
    msg: RawBufferMessage,
    r: Result<SyncStep, Error>,
    after: SyncModel,
) -> bool {
    if msg.header.kind is H264 {
        &&& after == m
        &&& match msg.header.surface {
            Some(surface) => if m.video_h264 && !m.disabled.contains(surface.0) {
                r == Ok::<SyncStep, Error>(
                    SyncStep::DecodeH264 {
                        surface,
                        start: !m.decoders.contains(surface.0),
                        bytes: msg.bytes,
                    },
                )
            } else {
                r == Ok::<SyncStep, Error>(SyncStep::Consumed)
            },
            None => r == Ok::<SyncStep, Error>(SyncStep::Consumed),
        }
    } else {
        match r {
            Ok(step) => step is Consumed && exists|data: Seq<u8>| #[trigger]
                is_buffer_pixels(msg.header.kind, msg.bytes@, data) && after == stored(
                    m,
                    msg.header.surface,
                    data,
                ),
            Err(err) => buffer_failure(msg.header.kind, msg.bytes@, err) && after == m,
        }
    }
}

/// A placeholder committed after a buffer for its surface gets the pixels of that buffer.
pub proof fn commit_gets_the_buffer(
    m: SyncModel,
    surface: WlSurfaceId,
    data: Seq<u8>,
    bitmap: BitmapModel,
)
    requires
        is_placeholder(bitmap),
    ensures
        synced_bitmap(stored(m, Some(surface), data), surface, Some(Some(bitmap))) == Some(
            Some(BitmapModel { data, ..bitmap }),
        ),
        !after_commit(stored(m, Some(surface), data), surface, Some(Some(bitmap))).cache.contains_key(
            surface.0,
        ),
{
}

/// A commit passes unchanged, and what is kept stays, unless its bitmap is a placeholder: a removed
/// bitmap stays removed.
pub proof fn only_placeholders_are_rewritten(
    m: SyncModel,
    surface: WlSurfaceId,
    bitmap: Option<Option<BitmapModel>>,
)
    requires
        !(bitmap matches Some(Some(b)) && is_placeholder(b)),
    ensures
        synced_bitmap(m, surface, bitmap) == bitmap,
        after_commit(m, surface, bitmap) == m,
{
}

/// What is kept for one surface does not reach another, unless it is kept for none.
pub proof fn buffers_stay_with_their_surface(
    m: SyncModel,
    surface: WlSurfaceId,
    other: WlSurfaceId,
    data: Seq<u8>,
    bitmap: Option<Option<BitmapModel>>,
)
    requires
        surface != other,
    ensures
        synced_bitmap(stored(m, Some(surface), data), other, bitmap) == synced_bitmap(
            m,
            other,
            bitmap,
        ),
{
}

/// A destroyed surface is forgotten: nothing kept for it outlives it.
pub proof fn destroyed_surface_is_forgotten(m: SyncModel, surface: WlSurfaceId)
    ensures
        !forgotten(m, surface).cache.contains_key(surface.0),
        m.video_h264 ==> !forgotten(m, surface).decoders.contains(surface.0) && !forgotten(
            m,
            surface,
        ).disabled.contains(surface.0),
{
}

/// What a server filtered, the client shows: the pixels of a frame and of the commit behind it are
/// those that the server had.
pub proof fn filtered_frames_arrive_unchanged(
    m: SyncModel,
    surface: WlSurfaceId,
    bgra: Seq<u8>,
    bitmap: BitmapModel,
)
    requires
        bgra.len() % 4 == 0,
        is_placeholder(bitmap),
    ensures
        is_buffer_pixels(RawBufferKind::FilteredBgra, filtered(bgra), bgra),
        synced_bitmap(stored(m, Some(surface), bgra), surface, Some(Some(bitmap))) == Some(
            Some(BitmapModel { data: bgra, ..bitmap }),
        ),
{
    unfilter_undoes_filter(bgra);
    commit_gets_the_buffer(m, surface, bgra, bitmap);
}

/// A decoded video frame reaches the next placeholder that its surface commits, and is used once.
/// Nothing else comes of it but that the decoder runs.
pub proof fn decoded_video_reaches_its_commit(
    m: SyncModel,
    surface: WlSurfaceId,
    bgra: Vec<u8>,
    bitmap: BitmapModel,
)
    requires
        is_placeholder(bitmap),
    ensures
        ({
            let decoded = after_h264(m, surface, H264Outcome::Frame(bgra));
            let committed = after_commit(decoded, surface, Some(Some(bitmap)));
            &&& synced_bitmap(decoded, surface, Some(Some(bitmap))) == Some(
                Some(BitmapModel { metadata: bitmap.metadata, data: bgra@ }),
            )
            &&& decoded.decoders.contains(surface.0)
            &&& decoded.legacy == m.legacy
            &&& decoded.disabled == m.disabled
            &&& !committed.cache.contains_key(surface.0)
            &&& committed.legacy == m.legacy
        }),
{
}

/// A decoder that failed, or could not be started, is not tried again, and what is kept stays. One
/// that runs is not started again.
pub proof fn failed_decoders_are_left_alone(
    m: SyncModel,
    surface: WlSurfaceId,
    outcome: H264Outcome,
    msg: RawBufferMessage,
    r: Result<SyncStep, Error>,
    after: SyncModel,
)
    requires
        m.video_h264,
        msg.header.kind is H264,
        msg.header.surface == Some(surface),
        raw_buffer_handled(after_h264(m, surface, outcome), msg, r, after),
    ensures
        outcome is NotStarted || outcome is Failed ==> r == Ok::<SyncStep, Error>(
            SyncStep::Consumed,
        ),
        (outcome is NoFrame || outcome is Frame) && !m.disabled.contains(surface.0) ==> r == Ok::<
            SyncStep,
            Error,
        >(SyncStep::DecodeH264 { surface, start: false, bytes: msg.bytes }),
        !(outcome is Frame) ==> after.cache == m.cache && after.legacy == m.legacy,
{
}

/// Video goes to the decoder of its surface, as it came; without video support, or without a
/// surface, it goes nowhere.
pub proof fn video_goes_to_its_decoder(
    m: SyncModel,
    msg: RawBufferMessage,
    r: Result<SyncStep, Error>,
    after: SyncModel,
)
    requires
        msg.header.kind is H264,
        raw_buffer_handled(m, msg, r, after),
    ensures
        after == m,
        match msg.header.surface {
            Some(surface) if m.video_h264 && !m.disabled.contains(surface.0) => r == Ok::<
                SyncStep,
                Error,
            >(
                SyncStep::DecodeH264 {
                    surface,
                    start: !m.decoders.contains(surface.0),
                    bytes: msg.bytes,
                },
            ),
            _ => r == Ok::<SyncStep, Error>(SyncStep::Consumed),
        },
{
}

/// A frame that needs no video decoder reaches the next placeholder of its surface, or, where it
/// names none, the next placeholder of a surface for which nothing is kept.
pub proof fn frames_reach_their_commit(
    m: SyncModel,
    msg: RawBufferMessage,
    r: Result<SyncStep, Error>,
    after: SyncModel,
    surface: WlSurfaceId,
    bitmap: BitmapModel,
)
    requires
        !(msg.header.kind is H264),
        raw_buffer_handled(m, msg, r, after),
        r is Ok,
        is_placeholder(bitmap),
        msg.header.surface == Some(surface) || (msg.header.surface is None
            && !m.cache.contains_key(surface.0)),
    ensures
        r == Ok::<SyncStep, Error>(SyncStep::Consumed),
        synced_bitmap(after, surface, Some(Some(bitmap))) matches Some(Some(b)) && b.metadata
            == bitmap.metadata && (match msg.header.kind {
            RawBufferKind::FilteredBgra => b.data == unfiltered(msg.bytes@),
            RawBufferKind::Png => png_pixels(msg.bytes@) matches Some((_, _, bgra)) && b.data
                == bgra,
            RawBufferKind::Jpeg => exists|width: u32, height: u32|
                is_bgra_of_jpeg(msg.bytes@, width, height, b.data),
            RawBufferKind::H264 => false,
        }),
        ({
            let committed = after_commit(after, surface, Some(Some(bitmap)));
            &&& !committed.cache.contains_key(surface.0)
            &&& msg.header.surface is None ==> committed.legacy is None
            &&& msg.header.surface is Some ==> committed.legacy == m.legacy
        }),
        forall|other: u64|
            other != surface.0 ==> (after.cache.contains_key(other) <==> m.cache.contains_key(
                other,
            )) && (m.cache.contains_key(other) ==> after.cache[other] == m.cache[other]),
{
    let data = choose|data: Seq<u8>| #[trigger]
        is_buffer_pixels(msg.header.kind, msg.bytes@, data) && after == stored(
            m,
            msg.header.surface,
            data,
        );
    let b = BitmapModel { data, ..bitmap };
    assert(synced_bitmap(after, surface, Some(Some(bitmap))) == Some(Some(b)));
    if msg.header.kind is Jpeg {
        let (width, height) = choose|width: u32, height: u32|
            is_bgra_of_jpeg(msg.bytes@, width, height, data);
        assert(is_bgra_of_jpeg(msg.bytes@, width, height, b.data));
    }
}

/// A frame that cannot be read changes nothing. Filtered pixels can always be read.
pub proof fn unreadable_frames_change_nothing(
    m: SyncModel,
    msg: RawBufferMessage,
    r: Result<SyncStep, Error>,
    after: SyncModel,
)
    requires
        raw_buffer_handled(m, msg, r, after),
        r is Err,
    ensures
        after == m,
        msg.header.kind is Png || msg.header.kind is Jpeg,
{
}

/// A commit goes on with all that it says but for its bitmap, of which only the bytes may change.
pub proof fn commits_keep_what_they_say(
    step: SyncStep,
    m: SyncModel,
    request: SurfaceRequest,
    state: SurfaceModel,
)
    requires
        is_synced_commit(step, m, request, state),
    ensures
        step matches SyncStep::Forward(RecvType::Object(Request::Surface(out))) && out.client
            == request.client && out.surface == request.surface && (out.payload matches
            SurfaceRequestPayload::Commit(new) && (SurfaceModel { bitmap: None, ..new@ }) == (
        SurfaceModel { bitmap: None, ..state }) && (match (new@.bitmap, state.bitmap) {
            (Some(Some(b)), Some(Some(a))) => a.metadata == b.metadata,
            (b, a) => a == b,
        })),
{
}

/// Whether the size of a committed bitmap fits the arithmetic of its metadata.
pub fn is_measurable(msg: &RecvType<Request>) -> (r: bool)
    ensures
        r == has_measurable_bitmap(*msg),
{
    match msg {
        RecvType::Object(Request::Surface(request)) => match &request.payload {
            SurfaceRequestPayload::Commit(state) => match &state.bitmap {
                Some(BitmapAssignment::New(bitmap)) => bitmap.metadata.height.checked_mul(
                    bitmap.metadata.stride,
                ).is_some(),
                _ => true,
            },
            SurfaceRequestPayload::Destroyed => true,
        },
        _ => true,
    }
}

/// A bitmap is whole if it has as many bytes as its height and stride say, and a placeholder with
/// fewer or more of them.
pub proof fn placeholders_are_not_whole(bitmap: BitmapModel)
    requires
        bitmap.metadata.height >= 0,
        bitmap.metadata.stride >= 0,
    ensures
        is_placeholder(bitmap) <==> bitmap.data.len() != bitmap.metadata.height
            * bitmap.metadata.stride,
{
    assert(bitmap.metadata.height * bitmap.metadata.stride >= 0) by (nonlinear_arith)
        requires
            bitmap.metadata.height >= 0,
            bitmap.metadata.stride >= 0,
    ;
}

/// Forgetting a surface changes nothing for others, nor for pixels that are kept for none.
pub proof fn forgetting_leaves_others_alone(m: SyncModel, surface: WlSurfaceId, other: u64)
    requires
        other != surface.0,
    ensures
        ({
            let after = forgotten(m, surface);
            &&& after.legacy == m.legacy
            &&& after.video_h264 == m.video_h264
            &&& after.cache.contains_key(other) == m.cache.contains_key(other)
            &&& m.cache.contains_key(other) ==> after.cache[other] == m.cache[other]
            &&& after.decoders.contains(other) == m.decoders.contains(other)
            &&& after.disabled.contains(other) == m.disabled.contains(other)
        }),
{
}

/// Pixels that are kept for no surface are for the first placeholder for which there are no others,
/// and are used once.
pub proof fn pixels_for_none_are_used_once(
    m: SyncModel,
    surface: WlSurfaceId,
    data: Seq<u8>,
    bitmap: BitmapModel,
)
    requires
        is_placeholder(bitmap),
    ensures
        ({
            let kept = stored(m, None, data);
            let after = after_commit(kept, surface, Some(Some(bitmap)));
            &&& kept.legacy == Some(data)
            &&& kept.cache == m.cache
            &&& m.cache.contains_key(surface.0) ==> synced_bitmap(
                kept,
                surface,
                Some(Some(bitmap)),
            ) == Some(Some(BitmapModel { data: m.cache[surface.0], ..bitmap })) && after.legacy
                == Some(data)
            &&& !m.cache.contains_key(surface.0) ==> synced_bitmap(
                kept,
                surface,
                Some(Some(bitmap)),
            ) == Some(Some(BitmapModel { data, ..bitmap })) && after.legacy is None
        }),
{
}

} // verus!
