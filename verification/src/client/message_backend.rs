//! Backends that only need the messages of the server, each with its buffer.
use crate::error::Error;
use crate::models::surface::WlSurfaceId;
use crate::protocols::wprs::client_sync::SyncStep;
use crate::protocols::wprs::serializer::RecvType;
use crate::protocols::wprs::types::Request;
use vstd::prelude::*;

verus! {

/// A backend that takes the messages of the server. Frames have been put into the commits that
/// they belong to before it sees them.
pub trait MessageClientBackend: Sized {
    /// What a message may do to the backend: anything, unless the backend says more.
    open spec fn handles(
        before: Self,
        msg: RecvType<Request>,
        after: Self,
        outcome: Result<(), Error>,
    ) -> bool {
        true
    }

    fn name(&self) -> &'static str;

    fn handle_message(&mut self, msg: RecvType<Request>) -> (r: Result<(), Error>)
        ensures
            Self::handles(*old(self), msg, *final(self), r),
    ;
}

/// A backend with what puts frames into commits in front of it.
pub struct SyncedClientBackend<B> {
    pub backend: B,
}

/// What became of a message.
#[derive(Debug)]
pub enum Delivery {
    /// The backend was given it.
    Handled(Result<(), Error>),
    Consumed,
    /// The bytes have to go through the decoder of the surface.
    DecodeH264 { surface: WlSurfaceId, start: bool, bytes: Vec<u8> },
}

impl<B> SyncedClientBackend<B> {
    pub fn new(backend: B) -> (r: Self)
        ensures
            r.backend == backend,
    {
        SyncedClientBackend { backend }
    }
}

impl<B: MessageClientBackend> SyncedClientBackend<B> {
    /// Hands the backend what is meant for it.
    pub fn deliver(&mut self, step: SyncStep) -> (r: Delivery)
        ensures
            match step {
                SyncStep::Forward(msg) => r matches Delivery::Handled(outcome) && B::handles(
                    old(self).backend,
                    msg,
                    final(self).backend,
                    outcome,
                ),
                SyncStep::Consumed => r == Delivery::Consumed && *final(self) == *old(self),
                SyncStep::DecodeH264 { surface, start, bytes } => r == (Delivery::DecodeH264 {
                    surface,
                    start,
                    bytes,
                }) && *final(self) == *old(self),
            },
    {
        match step {
            SyncStep::Forward(msg) => Delivery::Handled(self.backend.handle_message(msg)),
            SyncStep::Consumed => Delivery::Consumed,
            SyncStep::DecodeH264 { surface, start, bytes } => Delivery::DecodeH264 {
                surface,
                start,
                bytes,
            },
        }
    }
}

} // verus!
