//! Messages on a connection: their heads in the byte stream, hand-over within a process, and when
//! to send, to stop and to try again.
use crate::error::Error;
use crate::protocols::wprs::framing::{is_stream_end, Framed};
use crate::protocols::wprs::raw_buffer::{
    extract_single_uncompressed_shard, header_round_trip, is_single_uncompressed, CompressedShards,
    RawBufferHeader, RawBufferMessage, RawBufferPayload,
};
use crate::utils::text::{
    debug_text, decimal, owned, parse_number, parsed_number, push_decimal, quoted, same_text,
};
use vstd::prelude::*;

verus! {

/// The socket buffer size where the system does not tell its limit.
pub const DEFAULT_SOCKET_BUFFER: usize = 4194304;

/// A message to be sent.
#[derive(Debug)]
pub enum SendType<T> {
    Object(T),
    RawBuffer(RawBufferPayload),
}

/// A message that was received.
#[derive(Debug)]
pub enum RecvType<T> {
    Object(T),
    RawBuffer(RawBufferMessage),
}

/// What follows in the stream.
#[derive(Debug, Clone, Copy, PartialEq, Eq, Structural)]
pub enum MessageType {
    Object,
    RawBuffer,
}

impl MessageType {
    pub open spec fn number(self) -> u8 {
        match self {
            MessageType::Object => 0,
            MessageType::RawBuffer => 1,
        }
    }

    pub open spec fn of_number(n: u8) -> Option<Self> {
        if n == 0 {
            Some(MessageType::Object)
        } else if n == 1 {
            Some(MessageType::RawBuffer)
        } else {
            None
        }
    }

    /// The type that a number stands for.
    pub fn from_number(n: u8) -> (r: Result<Self, Error>)
        ensures
            match Self::of_number(n) {
                Some(t) => r == Ok::<Self, Error>(t),
                None => r matches Err(err) && is_invalid_type(n, err),
            },
    {
        match n {
            0 => Ok(MessageType::Object),
            1 => Ok(MessageType::RawBuffer),
            _ => {
                let mut message = owned(
                    "No discriminant in enum `MessageType` matches the value `",
                );
                push_decimal(&mut message, n as u64);
                message.append("`");
                Err(Error::Message(message))
            },
        }
    }
}

pub open spec fn is_invalid_type(n: u8, err: Error) -> bool {
    err matches Error::Message(message) && message@
        == "No discriminant in enum `MessageType` matches the value `"@ + decimal(n as nat) + "`"@
}

impl Framed for MessageType {
    open spec fn framed(&self) -> Option<Seq<u8>> {
        Some(seq![self.number()])
    }

    open spec fn parsed(input: Seq<u8>) -> Option<(Self, int)> {
        if input.len() == 0 {
            None
        } else {
            match Self::of_number(input[0]) {
                Some(t) => Some((t, 1)),
                None => None,
            }
        }
    }

    open spec fn write_failure(&self, err: Error) -> bool {
        false
    }

    open spec fn read_failure(input: Seq<u8>, err: Error) -> bool {
        if input.len() == 0 {
            is_stream_end(err)
        } else {
            is_invalid_type(input[0], err)
        }
    }

    fn framed_write(&self, out: &mut Vec<u8>) -> (r: Result<(), Error>) {
        let n: u8 = match self {
            MessageType::Object => 0,
            MessageType::RawBuffer => 1,
        };
        n.framed_write(out)
    }

    fn framed_read(input: &[u8], at: usize) -> (r: Result<(Self, usize), Error>) {
        match <u8 as Framed>::framed_read(input, at) {
            Ok((n, end)) => match MessageType::from_number(n) {
                Ok(t) => Ok((t, end)),
                Err(err) => Err(err),
            },
            Err(err) => Err(err),
        }
    }
}

/// What precedes the shards of a message in the stream.
#[derive(Debug, Clone, Copy, PartialEq, Eq, Structural)]
pub enum MessageHead {
    Object,
    RawBuffer(RawBufferHeader),
}

/// The head of a message to be sent.
pub open spec fn head_of<T>(msg: SendType<T>) -> MessageHead {
    match msg {
        SendType::Object(_) => MessageHead::Object,
        SendType::RawBuffer(payload) => MessageHead::RawBuffer(payload_header(payload)),
    }
}

/// The header of a payload: of the second version, so that it names the surface.
pub open spec fn payload_header(payload: RawBufferPayload) -> RawBufferHeader {
    RawBufferHeader { version: 2, kind: payload.kind, surface: Some(payload.surface) }
}

impl Framed for MessageHead {
    open spec fn framed(&self) -> Option<Seq<u8>> {
        match *self {
            MessageHead::Object => Some(seq![0u8]),
            MessageHead::RawBuffer(header) => match header.framed() {
                Some(bytes) => Some(seq![1u8] + bytes),
                None => None,
            },
        }
    }

    open spec fn parsed(input: Seq<u8>) -> Option<(Self, int)> {
        if input.len() == 0 {
            None
        } else if input[0] == 0 {
            Some((MessageHead::Object, 1))
        } else if input[0] == 1 {
            match RawBufferHeader::parsed(input.subrange(1, input.len() as int)) {
                Some((header, n)) => Some((MessageHead::RawBuffer(header), 1 + n)),
                None => None,
            }
        } else {
            None
        }
    }

    open spec fn write_failure(&self, err: Error) -> bool {
        self matches MessageHead::RawBuffer(header) && header.write_failure(err)
    }

    open spec fn read_failure(input: Seq<u8>, err: Error) -> bool {
        if input.len() > 0 && input[0] == 1 {
            RawBufferHeader::read_failure(input.subrange(1, input.len() as int), err)
        } else {
            MessageType::read_failure(input, err)
        }
    }

    fn framed_write(&self, out: &mut Vec<u8>) -> (r: Result<(), Error>) {
        let ghost before = out@;
        match self {
            MessageHead::Object => MessageType::Object.framed_write(out),
            MessageHead::RawBuffer(header) => {
                let _ = MessageType::RawBuffer.framed_write(out);
                let r = header.framed_write(out);
                proof {
                    if let Some(bytes) = header.framed() {
                        assert(out@ =~= before + (seq![1u8] + bytes));
                    }
                }
                r
            },
        }
    }

    fn framed_read(input: &[u8], at: usize) -> (r: Result<(Self, usize), Error>) {
        let ghost rest = input@.subrange(at as int, input@.len() as int);
        match MessageType::framed_read(input, at) {
            Err(err) => Err(err),
            Ok((t, end)) => {
                assert(input@.subrange(end as int, input@.len() as int) =~= rest.subrange(
                    1,
                    rest.len() as int,
                ));
                match t {
                    MessageType::Object => Ok((MessageHead::Object, end)),
                    MessageType::RawBuffer => match RawBufferHeader::framed_read(input, end) {
                        Ok((header, end)) => Ok((MessageHead::RawBuffer(header), end)),
                        Err(err) => Err(err),
                    },
                }
            },
        }
    }
}

/// The bytes that precede the shards of a message.
pub fn message_head<T>(msg: &SendType<T>) -> (r: Vec<u8>)
    ensures
        head_of(*msg).framed() == Some(r@),
{
    let head = match msg {
        SendType::Object(_) => MessageHead::Object,
        SendType::RawBuffer(payload) => MessageHead::RawBuffer(
            RawBufferHeader {
                version: RawBufferHeader::V2,
                kind: payload.kind,
                surface: Some(payload.surface),
            },
        ),
    };
    let mut out: Vec<u8> = Vec::new();
    let _ = head.framed_write(&mut out);
    assert(out@ =~= head.framed()->0);
    out
}

/// The receiver learns the type, kind and surface of a message from its head.
pub proof fn head_round_trip<T>(msg: SendType<T>, rest: Seq<u8>)
    ensures
        head_of(msg).framed() is Some,
        MessageHead::parsed(head_of(msg).framed()->0 + rest) == Some(
            (head_of(msg), head_of(msg).framed()->0.len() as int),
        ),
{
    let bytes = head_of(msg).framed()->0;
    let input = bytes + rest;
    if let SendType::RawBuffer(payload) = msg {
        let header = payload_header(payload);
        header_round_trip(header, rest);
        assert(input.subrange(1, input.len() as int) =~= header.framed()->0 + rest);
    }
}

/// What becomes of a message that is handed over within the process.
#[derive(Debug)]
pub enum Forward<T> {
    Deliver(RecvType<T>),
    /// The frame has to be decompressed first.
    Decompress { header: RawBufferHeader, shards: CompressedShards },
}

/// Turns a message to be sent into the message that is received.
pub fn forward<T>(msg: SendType<T>) -> (r: Forward<T>)
    ensures
        match msg {
            SendType::Object(obj) => r == Forward::Deliver(RecvType::Object(obj)),
            SendType::RawBuffer(payload) => if is_single_uncompressed(payload.shards) {
                r matches Forward::Deliver(RecvType::RawBuffer(m)) && m.header == payload_header(
                    payload,
                ) && m.bytes == payload.shards.shards@[0].data
            } else if payload.shards.shards@.len() == 0 {
                r matches Forward::Deliver(RecvType::RawBuffer(m)) && m.header == payload_header(
                    payload,
                ) && m.bytes@.len() == 0
            } else {
                r matches Forward::Decompress { header, shards } && header == payload_header(
                    payload,
                ) && shards == payload.shards
            },
        },
{
    match msg {
        SendType::Object(obj) => Forward::Deliver(RecvType::Object(obj)),
        SendType::RawBuffer(payload) => {
            let header = RawBufferHeader {
                version: RawBufferHeader::V2,
                kind: payload.kind,
                surface: Some(payload.surface),
            };
            match extract_single_uncompressed_shard(payload.shards) {
                Ok(bytes) => Forward::Deliver(
                    RecvType::RawBuffer(RawBufferMessage { header, bytes }),
                ),
                Err(shards) => if shards.is_empty() {
                    Forward::Deliver(
                        RecvType::RawBuffer(RawBufferMessage { header, bytes: Vec::new() }),
                    )
                } else {
                    Forward::Decompress { header, shards }
                },
            }
        },
    }
}

/// The received message once its frame has been decompressed; a frame that could not be is dropped.
pub fn forward_decompressed<T>(header: RawBufferHeader, bytes: Option<Vec<u8>>) -> (r: Option<
    RecvType<T>,
>)
    ensures
        match bytes {
            Some(bytes) => r == Some(
                RecvType::<T>::RawBuffer(RawBufferMessage { header, bytes }),
            ),
            None => r is None,
        },
{
    match bytes {
        Some(bytes) => Some(RecvType::RawBuffer(RawBufferMessage { header, bytes })),
        None => None,
    }
}

/// What the writing side of a connection met while waiting for the next message.
#[derive(Debug)]
pub enum Waited<T> {
    Message(SendType<T>),
    TimedOut,
    /// No sender is left.
    Closed,
}

#[derive(Debug)]
pub enum WriteStep<T> {
    Write(SendType<T>),
    WaitAgain,
    Stop,
}

/// What the writing side does next: it stops when no sender is left, or when nothing came for a
/// while and the other end is gone.
pub fn write_step<T>(waited: Waited<T>, other_end_connected: bool) -> (r: WriteStep<T>)
    ensures
        match waited {
            Waited::Message(msg) => r == WriteStep::Write(msg),
            Waited::TimedOut => if other_end_connected {
                r == WriteStep::<T>::WaitAgain
            } else {
                r == WriteStep::<T>::Stop
            },
            Waited::Closed => r == WriteStep::<T>::Stop,
        },
{
    match waited {
        Waited::Message(msg) => WriteStep::Write(msg),
        Waited::TimedOut => if other_end_connected {
            WriteStep::WaitAgain
        } else {
            WriteStep::Stop
        },
        Waited::Closed => WriteStep::Stop,
    }
}

/// The first pause before trying to connect again, in milliseconds.
pub const BACKOFF_START_MS: u64 = 100;

/// The longest such pause.
pub const BACKOFF_MAX_MS: u64 = 5000;

/// The pause after one of `ms` milliseconds that did not help: twice as long, within the limit.
pub fn next_backoff(ms: u64) -> (r: u64)
    ensures
        r == (if ms * 2 < BACKOFF_MAX_MS {
            ms * 2
        } else {
            BACKOFF_MAX_MS as int
        }),
{
    if ms < 2500 {
        ms * 2
    } else {
        BACKOFF_MAX_MS
    }
}

pub open spec fn pause(failures: nat) -> int
    decreases failures,
{
    if failures == 0 {
        BACKOFF_START_MS as int
    } else {
        let before = pause((failures - 1) as nat);
        if before * 2 < BACKOFF_MAX_MS {
            before * 2
        } else {
            BACKOFF_MAX_MS as int
        }
    }
}

/// However many attempts failed, the pause is between the first one and the longest one.
pub proof fn pauses_are_bounded(failures: nat)
    ensures
        BACKOFF_START_MS <= pause(failures) <= BACKOFF_MAX_MS,
    decreases failures,
{
    if failures > 0 {
        pauses_are_bounded((failures - 1) as nat);
    }
}

/// A client that connects, and connects again.
#[derive(Debug, Clone, Copy, PartialEq, Eq, Structural)]
pub struct Reconnection {
    /// The pause after the next failure, in milliseconds.
    pub backoff_ms: u64,
    pub other_end_connected: bool,
}

/// What came of an attempt to connect.
#[derive(Debug, Clone, Copy, PartialEq, Eq, Structural)]
pub enum Attempt {
    Connected,
    /// The connection ended.
    Disconnected,
    Refused,
}

/// The client after an attempt.
pub open spec fn after_attempt(before: Reconnection, attempt: Attempt) -> Reconnection {
    match attempt {
        Attempt::Connected => Reconnection { other_end_connected: true, ..before },
        Attempt::Disconnected => Reconnection { backoff_ms: BACKOFF_START_MS, ..before },
        Attempt::Refused => Reconnection {
            backoff_ms: if before.backoff_ms * 2 < BACKOFF_MAX_MS {
                (before.backoff_ms * 2) as u64
            } else {
                BACKOFF_MAX_MS
            },
            other_end_connected: false,
        },
    }
}

impl Reconnection {
    pub fn new() -> (r: Self)
        ensures
            r == (Reconnection { backoff_ms: BACKOFF_START_MS, other_end_connected: false }),
    {
        Reconnection { backoff_ms: BACKOFF_START_MS, other_end_connected: false }
    }

    /// Takes note of an attempt; how long to wait before the next one, if at all.
    pub fn attempted(&mut self, attempt: Attempt) -> (r: Option<u64>)
        ensures
            *final(self) == after_attempt(*old(self), attempt),
            r == (if attempt == Attempt::Refused {
                Some(old(self).backoff_ms)
            } else {
                None
            }),
    {
        match attempt {
            Attempt::Connected => {
                self.other_end_connected = true;
                None
            },
            Attempt::Disconnected => {
                self.backoff_ms = BACKOFF_START_MS;
                None
            },
            Attempt::Refused => {
                let pause: u64 = self.backoff_ms;
                self.other_end_connected = false;
                self.backoff_ms = next_backoff(pause);
                Some(pause)
            },
        }
    }
}

/// The client after a number of failures in a row.
pub open spec fn after_failures(before: Reconnection, failures: nat) -> Reconnection
    decreases failures,
{
    if failures == 0 {
        before
    } else {
        after_attempt(after_failures(before, (failures - 1) as nat), Attempt::Refused)
    }
}

/// The pause after failures in a row grows as `pause` says.
pub proof fn failures_lengthen_the_pause(before: Reconnection, failures: nat)
    requires
        before.backoff_ms == BACKOFF_START_MS,
    ensures
        after_failures(before, failures).backoff_ms == pause(failures),
        failures > 0 ==> !after_failures(before, failures).other_end_connected,
    decreases failures,
{
    pauses_are_bounded(failures);
    if failures > 0 {
        failures_lengthen_the_pause(before, (failures - 1) as nat);
    }
}

/// A limit as the system tells it, where it is a number.
pub open spec fn told_limit(text: Seq<char>) -> int {
    match parsed_number(text, usize::MAX as int) {
        Some(n) => n,
        None => DEFAULT_SOCKET_BUFFER as int,
    }
}

fn read_limit(text: &str) -> (r: usize)
    ensures
        r == told_limit(text@),
{
    match parse_number(text, usize::MAX as u64) {
        Some(n) => n as usize,
        None => DEFAULT_SOCKET_BUFFER,
    }
}

/// The receive and send buffer sizes to ask for, given what the system tells of its limits. Where
/// it keeps one back, both are the default.
pub fn socket_buffer_limits(rmem_max: Option<String>, wmem_max: Option<String>) -> (r: (
    usize,
    usize,
))
    ensures
        match (rmem_max, wmem_max) {
            (Some(rmem), Some(wmem)) => r.0 == told_limit(rmem@) && r.1 == told_limit(wmem@),
            _ => r == (DEFAULT_SOCKET_BUFFER, DEFAULT_SOCKET_BUFFER),
        },
{
    match (rmem_max, wmem_max) {
        (Some(rmem), Some(wmem)) => (read_limit(rmem.as_str()), read_limit(wmem.as_str())),
        _ => (DEFAULT_SOCKET_BUFFER, DEFAULT_SOCKET_BUFFER),
    }
}

/// What a client does about its connection.
#[derive(Debug)]
pub struct SerializerClientOptions<T> {
    pub auto_reconnect: bool,
    pub on_connect: Vec<SendType<T>>,
}

impl<T> Default for SerializerClientOptions<T> {
    fn default() -> (r: Self)
        ensures
            r.auto_reconnect,
            r.on_connect@.len() == 0,
    {
        SerializerClientOptions { auto_reconnect: true, on_connect: Vec::new() }
    }
}

/// The object to be sent on each new connection. Frames cannot be.
pub fn on_connect_object<T>(msg: SendType<T>) -> (r: Result<T, Error>)
    ensures
        match msg {
            SendType::Object(obj) => r == Ok::<T, Error>(obj),
            SendType::RawBuffer(_) => r matches Err(err) && is_frame_refusal(err),
        },
{
    match msg {
        SendType::Object(obj) => Ok(obj),
        SendType::RawBuffer(_) => Err(
            Error::Message(owned("RawBuffer payloads are not allowed in on_connect frames")),
        ),
    }
}

/// What is sent on each new connection, before anything else: clients greet the server again after
/// they had to reconnect.
#[derive(Debug)]
pub struct OnConnectMessages<T> {
    pub objects: Vec<T>,
}

impl<T> View for OnConnectMessages<T> {
    type V = Seq<T>;

    open spec fn view(&self) -> Seq<T> {
        self.objects@
    }
}

/// The objects among messages, in order.
pub open spec fn objects_of<T>(messages: Seq<SendType<T>>) -> Seq<T>
    decreases messages.len(),
{
    if messages.len() == 0 {
        Seq::empty()
    } else {
        match messages.last() {
            SendType::Object(obj) => objects_of(messages.drop_last()).push(obj),
            SendType::RawBuffer(_) => objects_of(messages.drop_last()),
        }
    }
}

pub open spec fn is_frame_refusal(err: Error) -> bool {
    err matches Error::Message(message) && message@
        == "RawBuffer payloads are not allowed in on_connect frames"@
}

impl<T> OnConnectMessages<T> {
    /// The messages that a client sends from the start. No frame may be among them.
    pub fn from_messages(messages: Vec<SendType<T>>) -> (r: Result<Self, Error>)
        ensures
            if forall|i: int| 0 <= i < messages@.len() ==> messages@[i] is Object {
                r matches Ok(list) && list@ == objects_of(messages@)
            } else {
                r matches Err(err) && is_frame_refusal(err)
            },
    {
        let ghost all = messages@;
        let mut list = OnConnectMessages { objects: Vec::new() };
        let ghost mut i: int = 0;
        assert(all.subrange(0, 0) =~= Seq::empty());
        for msg in it: messages
            invariant
                it.seq() == all,
                i == it.index@,
                list@ == objects_of(all.subrange(0, i)),
                forall|j: int| 0 <= j < i ==> all[j] is Object,
        {
            let added = list.add_on_connect_message(msg);
            proof {
                assert(all.subrange(0, i + 1).drop_last() =~= all.subrange(0, i));
                assert(all.subrange(0, i + 1).last() == all[i]);
            }
            if let Err(err) = added {
                assert(!(all[i] is Object));
                return Err(err);
            }
            proof {
                i = i + 1;
            }
        }
        assert(all.subrange(0, i) =~= all);
        Ok(list)
    }

    /// Adds a message to be sent on every new connection. It comes behind those that are there, and
    /// must not be a frame.
    pub fn add_on_connect_message(&mut self, msg: SendType<T>) -> (r: Result<(), Error>)
        ensures
            match msg {
                SendType::Object(obj) => r is Ok && final(self)@ == old(self)@.push(obj),
                SendType::RawBuffer(_) => (r matches Err(err) && is_frame_refusal(err))
                    && final(self)@ == old(self)@,
            },
    {
        match on_connect_object(msg) {
            Ok(obj) => {
                self.objects.push(obj);
                Ok(())
            },
            Err(err) => Err(err),
        }
    }

    /// What to send on a new connection, in this order. The next connection gets the same.
    pub fn on_connection(&self) -> (r: &[T])
        ensures
            r@ == self@,
    {
        self.objects.as_slice()
    }
}

/// Messages added one by one are sent as if they had been there from the start.
pub proof fn added_messages_come_last<T>(messages: Seq<SendType<T>>, msg: SendType<T>)
    ensures
        objects_of(messages.push(msg)) == (match msg {
            SendType::Object(obj) => objects_of(messages).push(obj),
            SendType::RawBuffer(_) => objects_of(messages),
        }),
{
    assert(messages.push(msg).drop_last() =~= messages);
}

/// The bytes of a frame: those of its only piece where that is stored as it is, none where it has
/// no piece, and else what decompressing it gives.
pub open spec fn frame_bytes(shards: CompressedShards, decompressed: Option<Vec<u8>>) -> Option<
    Seq<u8>,
> {
    if is_single_uncompressed(shards) {
        Some(shards.shards@[0].data@)
    } else if shards.shards@.len() == 0 {
        Some(Seq::empty())
    } else {
        match decompressed {
            Some(bytes) => Some(bytes@),
            None => None,
        }
    }
}

/// Whether `out` is what is received when `msg` is sent within the process.
pub open spec fn is_received<T>(
    msg: SendType<T>,
    decompressed: Option<Vec<u8>>,
    out: RecvType<T>,
) -> bool {
    match msg {
        SendType::Object(obj) => out == RecvType::Object(obj),
        SendType::RawBuffer(payload) => out matches RecvType::RawBuffer(m) && m.header
            == payload_header(payload) && Some(m.bytes@) == frame_bytes(
            payload.shards,
            decompressed,
        ),
    }
}

/// Whether a message is lost on the way: a frame that cannot be decompressed.
pub open spec fn is_lost<T>(msg: SendType<T>, decompressed: Option<Vec<u8>>) -> bool {
    msg matches SendType::RawBuffer(payload) && frame_bytes(payload.shards, decompressed) is None
}

/// How a queue changes when a message is sent into it.
pub open spec fn handed_over<T>(
    msg: SendType<T>,
    decompressed: Option<Vec<u8>>,
    before: Seq<RecvType<T>>,
    after: Seq<RecvType<T>>,
) -> bool {
    if is_lost(msg, decompressed) {
        after == before
    } else {
        &&& after.len() == before.len() + 1
        &&& after.drop_last() == before
        &&& is_received(msg, decompressed, after.last())
    }
}

fn hand_over<T>(msg: SendType<T>, decompressed: Option<Vec<u8>>) -> (r: Option<RecvType<T>>)
    ensures
        match r {
            Some(out) => !is_lost(msg, decompressed) && is_received(msg, decompressed, out),
            None => is_lost(msg, decompressed),
        },
{
    match forward(msg) {
        Forward::Deliver(out) => {
            proof {
                if out is RawBuffer && out->RawBuffer_0.bytes@.len() == 0 {
                    assert(out->RawBuffer_0.bytes@ =~= Seq::<u8>::empty());
                }
            }
            Some(out)
        },
        Forward::Decompress { header, shards: _ } => forward_decompressed(header, decompressed),
    }
}

/// Two ends within one process, each with the messages that are on their way to it. The first one
/// sends messages of type `B`, the second one messages of type `A`.
pub struct InprocPair<B, A> {
    pub to_a: Vec<RecvType<A>>,
    pub to_b: Vec<RecvType<B>>,
}

/// A pair of ends with nothing on its way.
pub fn new_inproc_serializer_pair<B, A>() -> (r: InprocPair<B, A>)
    ensures
        r.to_a@.len() == 0,
        r.to_b@.len() == 0,
{
    InprocPair { to_a: Vec::new(), to_b: Vec::new() }
}

impl<B, A> InprocPair<B, A> {
    /// Sends a message from the first end to the second. `decompressed` is what its frame
    /// decompresses to, where that has to be done.
    pub fn send_to_b(&mut self, msg: SendType<B>, decompressed: Option<Vec<u8>>)
        ensures
            final(self).to_a@ == old(self).to_a@,
            handed_over(msg, decompressed, old(self).to_b@, final(self).to_b@),
    {
        if let Some(out) = hand_over(msg, decompressed) {
            let ghost before = self.to_b@;
            self.to_b.push(out);
            assert(self.to_b@.drop_last() =~= before);
        }
    }

    /// Sends a message from the second end to the first.
    pub fn send_to_a(&mut self, msg: SendType<A>, decompressed: Option<Vec<u8>>)
        ensures
            final(self).to_b@ == old(self).to_b@,
            handed_over(msg, decompressed, old(self).to_a@, final(self).to_a@),
    {
        if let Some(out) = hand_over(msg, decompressed) {
            let ghost before = self.to_a@;
            self.to_a.push(out);
            assert(self.to_a@.drop_last() =~= before);
        }
    }

    /// The oldest message on its way to the second end.
    pub fn recv_b(&mut self) -> (r: Option<RecvType<B>>)
        ensures
            final(self).to_a@ == old(self).to_a@,
            match r {
                Some(msg) => old(self).to_b@.len() > 0 && msg == old(self).to_b@[0]
                    && final(self).to_b@ == old(self).to_b@.drop_first(),
                None => old(self).to_b@.len() == 0 && final(self).to_b@ == old(self).to_b@,
            },
    {
        if self.to_b.len() == 0 {
            return None;
        }
        let ghost before = self.to_b@;
        let msg = self.to_b.remove(0);
        assert(self.to_b@ =~= before.drop_first());
        Some(msg)
    }

    /// The oldest message on its way to the first end.
    pub fn recv_a(&mut self) -> (r: Option<RecvType<A>>)
        ensures
            final(self).to_b@ == old(self).to_b@,
            match r {
                Some(msg) => old(self).to_a@.len() > 0 && msg == old(self).to_a@[0]
                    && final(self).to_a@ == old(self).to_a@.drop_first(),
                None => old(self).to_a@.len() == 0 && final(self).to_a@ == old(self).to_a@,
            },
    {
        if self.to_a.len() == 0 {
            return None;
        }
        let ghost before = self.to_a@;
        let msg = self.to_a.remove(0);
        assert(self.to_a@ =~= before.drop_first());
        Some(msg)
    }
}

/// What the messages of a program look like, by a digest of their definitions.
#[derive(Debug)]
pub struct Version(pub String);

pub open spec fn version_text(version: Seq<char>) -> Seq<char> {
    "Version("@ + debug_text(version) + ")"@
}

pub open spec fn mismatch_text(own: Seq<char>, other: Seq<char>) -> Seq<char> {
    "Self version is "@ + version_text(own) + ", while other version is "@ + version_text(other)
        + ". These versions may be incompatible; if you experience bugs (especially hanging or crashes), restart the server."@
}

fn push_version(out: &mut String, version: &Version)
    ensures
        final(out)@ == old(out)@ + version_text(version.0@),
{
    let ghost before = out@;
    out.append("Version(");
    out.append(quoted(version.0.as_str()).as_str());
    out.append(")");
    assert(out@ =~= before + version_text(version.0@));
}

impl Version {
    /// A warning where the other end was built from other definitions.
    pub fn compare_and_warn(&self, other: &Version) -> (r: Option<String>)
        ensures
            if self.0@ == other.0@ {
                r is None
            } else {
                r matches Some(text) && text@ == mismatch_text(self.0@, other.0@)
            },
    {
        if same_text(self.0.as_str(), other.0.as_str()) {
            return None;
        }
        let mut text = owned("Self version is ");
        push_version(&mut text, self);
        text.append(", while other version is ");
        push_version(&mut text, other);
        text.append(
            ". These versions may be incompatible; if you experience bugs (especially hanging or crashes), restart the server.",
        );
        Some(text)
    }
}

/// The head of a message: a zero for an object, and for a frame a one and a header of the second
/// version with its kind and surface.
pub proof fn heads_have_their_layout<T>(msg: SendType<T>)
    ensures
        match msg {
            SendType::Object(_) => head_of(msg).framed() == Some(seq![0u8]),
            SendType::RawBuffer(payload) => head_of(msg).framed() == Some(
                seq![1u8] + RawBufferHeader {
                    version: 2,
                    kind: payload.kind,
                    surface: Some(payload.surface),
                }.framed()->0,
            ) && RawBufferHeader {
                version: 2,
                kind: payload.kind,
                surface: Some(payload.surface),
            }.framed() is Some,
        },
{
    head_round_trip(msg, Seq::empty());
}

/// The first pause is a tenth of a second, each is twice the one before, and none is longer than
/// five seconds. A connection that was there starts anew.
pub proof fn pauses_double(before: Reconnection, failures: nat)
    requires
        before.backoff_ms <= 5000,
    ensures
        pause(0) == 100,
        pause(failures + 1) == (if pause(failures) * 2 < 5000 {
            pause(failures) * 2
        } else {
            5000
        }),
        pause(failures) <= 5000,
        after_attempt(before, Attempt::Refused).backoff_ms == (if before.backoff_ms * 2 < 5000 {
            before.backoff_ms * 2
        } else {
            5000
        }),
        !after_attempt(before, Attempt::Refused).other_end_connected,
        after_attempt(before, Attempt::Connected).other_end_connected,
        after_attempt(before, Attempt::Connected).backoff_ms == before.backoff_ms,
        after_attempt(before, Attempt::Disconnected).backoff_ms == 100,
{
    pauses_are_bounded(failures);
}

/// What is sent within the process arrives as it was sent, behind what is on its way: an object
/// unchanged, and a frame with its kind, its surface and its bytes.
pub proof fn messages_arrive_as_sent<T>(
    msg: SendType<T>,
    decompressed: Option<Vec<u8>>,
    before: Seq<RecvType<T>>,
    after: Seq<RecvType<T>>,
)
    requires
        handed_over(msg, decompressed, before, after),
    ensures
        msg matches SendType::Object(obj) ==> after == before.push(RecvType::Object(obj)),
        msg matches SendType::RawBuffer(payload) ==> ({
            let shards = payload.shards.shards@;
            let whole = shards.len() == 1 && shards[0].idx == 0 && !shards[0].compression
                && shards[0].uncompressed_size == shards[0].data@.len();
            if !whole && shards.len() > 0 && decompressed is None {
                after == before
            } else {
                after.len() == before.len() + 1 && after.drop_last() == before && (after.last() matches
                    RecvType::RawBuffer(m) && m.header.version == 2 && m.header.kind == payload.kind
                    && m.header.surface == Some(payload.surface) && m.bytes@ == (if whole {
                    shards[0].data@
                } else if shards.len() == 0 {
                    Seq::empty()
                } else {
                    decompressed->0@
                }))
            }
        }),
{
    assert(after.len() > before.len() ==> after =~= after.drop_last().push(after.last()));
}

/// Of messages that are all objects, each is sent on every connection, in order.
pub proof fn all_objects_are_sent<T>(messages: Seq<SendType<T>>, i: int)
    requires
        forall|j: int| 0 <= j < messages.len() ==> (#[trigger] messages[j]) is Object,
        0 <= i < messages.len(),
    ensures
        objects_of(messages).len() == messages.len(),
        messages[i] == SendType::Object(objects_of(messages)[i]),
    decreases messages.len(),
{
    let front = messages.drop_last();
    assert forall|j: int| 0 <= j < front.len() implies (#[trigger] front[j]) is Object by {
        assert(front[j] == messages[j]);
    }
    let last = messages[messages.len() - 1];
    assert(last is Object);
    assert(objects_of(messages) == objects_of(front).push(last->Object_0));
    if front.len() > 0 {
        all_objects_are_sent(
            front,
            if i < front.len() {
                i
            } else {
                0
            },
        );
    }
}

/// After a connection was lost the first pause is a tenth of a second again; pauses that do not help
/// are doubled up to five seconds.
pub proof fn attempts_change_the_pause(before: Reconnection)
    requires
        before.backoff_ms <= 5000,
    ensures
        after_attempt(before, Attempt::Connected).other_end_connected,
        after_attempt(before, Attempt::Connected).backoff_ms == before.backoff_ms,
        after_attempt(before, Attempt::Disconnected).backoff_ms == 100,
        !after_attempt(before, Attempt::Refused).other_end_connected,
        before.backoff_ms <= 2500 ==> after_attempt(before, Attempt::Refused).backoff_ms == 2
            * before.backoff_ms,
        before.backoff_ms > 2500 ==> after_attempt(before, Attempt::Refused).backoff_ms == 5000,
{
}

/// What the system tells of its limits is taken as it is, where it is a number; else it is four
/// mebibytes.
pub proof fn limits_are_taken_as_told(text: Seq<char>)
    ensures
        parsed_number(text, usize::MAX as int) matches Some(n) ==> told_limit(text) == n,
        parsed_number(text, usize::MAX as int) is None ==> told_limit(text) == 4 * 1024 * 1024,
{
}

} // verus!
