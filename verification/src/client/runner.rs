//! What a client does from its start until its backend runs.
use crate::client::backend::BuiltBackend;
use crate::client::state::{applied, ClientState};
use crate::error::Error;
use crate::protocols::wprs::capabilities::{CpuFeatures, GpuFeatures};
use crate::protocols::wprs::endpoint::Endpoint;
use crate::protocols::wprs::serializer::{RecvType, SendType, SerializerClientOptions};
use crate::protocols::wprs::transport::{
    default_preferences, supported_codecs, ClientHello, TransportEvent, TransportPreferences,
};
use crate::protocols::wprs::types::{Event, Request};
use crate::utils::split::part;
use crate::utils::text::{chars_of, lowered, owned, same_text, text_of, to_lowered};
use vstd::prelude::*;

verus! {

/// What a client that only forwards is to forward: an endpoint of `ssh`.
pub fn forward_only_endpoint(endpoint: Option<Endpoint>) -> (r: Result<Endpoint, Error>)
    ensures
        match endpoint {
            None => r matches Err(Error::InvalidArgument(text)) && text@
                == "--forward-only requires --endpoint=ssh://..."@,
            Some(endpoint) => if endpoint@ is Ssh {
                r == Ok::<Endpoint, Error>(endpoint)
            } else {
                r matches Err(Error::InvalidArgument(text)) && text@
                    == "--forward-only requires an ssh:// endpoint"@
            },
        },
{
    match endpoint {
        None => Err(
            Error::InvalidArgument(owned("--forward-only requires --endpoint=ssh://...")),
        ),
        Some(Endpoint::Ssh { destination, remote, local, ssh_args }) => Ok(
            Endpoint::Ssh { destination, remote, local, ssh_args },
        ),
        Some(_) => Err(
            Error::InvalidArgument(owned("--forward-only requires an ssh:// endpoint")),
        ),
    }
}

/// How a client connects: it says first that it is there.
pub fn client_options(auto_reconnect: bool) -> (r: SerializerClientOptions<Event>)
    ensures
        r.auto_reconnect == auto_reconnect,
        r.on_connect@ == seq![SendType::Object(Event::WprsClientConnect)],
{
    let mut on_connect: Vec<SendType<Event>> = Vec::new();
    on_connect.push(SendType::Object(Event::WprsClientConnect));
    assert(on_connect@ =~= seq![SendType::Object(Event::WprsClientConnect)]);
    SerializerClientOptions { auto_reconnect, on_connect }
}

/// What the client tells the server about itself, so that it can choose how to compress. Only
/// windows of its own take updates of parts of a buffer.
pub fn client_hello(backend: BuiltBackend, cpu: CpuFeatures, video_h264: bool) -> (r: SendType<
    Event,
>)
    ensures
        r matches SendType::Object(Event::Transport(TransportEvent::ClientHello(hello))) && {
            &&& hello.supported_codecs@ == supported_codecs(video_h264)
            &&& hello.supports_buffer_patches == (backend == BuiltBackend::WinitWgpu)
            &&& hello.cpu == cpu
            &&& !hello.gpu.has_gpu_rendering
            &&& !hello.gpu.has_hw_video_decode
            &&& hello.gpu.hw_decode_codecs@.len() == 0
            &&& hello.preferences == default_preferences()
        },
{
    let hello = ClientHello::supported(video_h264);
    SendType::Object(
        Event::Transport(
            TransportEvent::ClientHello(
                ClientHello {
                    supported_codecs: hello.supported_codecs,
                    supports_buffer_patches: backend == BuiltBackend::WinitWgpu,
                    cpu,
                    gpu: GpuFeatures::default(),
                    preferences: TransportPreferences::default(),
                },
            ),
        ),
    )
}

/// Takes a message that was put in order into account. Whether backends have to be told.
pub fn receive(state: &mut ClientState, msg: RecvType<Request>) -> (r: bool)
    requires
        old(state).wf(),
    ensures
        final(state).wf(),
        match msg {
            RecvType::Object(request) => r && final(state)@ == applied(old(state)@, request),
            RecvType::RawBuffer(_) => !r && final(state)@ == old(state)@,
        },
{
    match msg {
        RecvType::Object(request) => state.apply_request(request),
        RecvType::RawBuffer(_) => false,
    }
}

/// A character that only separates others.
pub open spec fn is_space(c: char) -> bool {
    ||| 9 <= c as u32 <= 13
    ||| c as u32 == 32
    ||| c as u32 == 0x85
    ||| c as u32 == 0xA0
    ||| c as u32 == 0x1680
    ||| 0x2000 <= c as u32 <= 0x200A
    ||| c as u32 == 0x2028
    ||| c as u32 == 0x2029
    ||| c as u32 == 0x202F
    ||| c as u32 == 0x205F
    ||| c as u32 == 0x3000
}

/// A text without the spaces at both ends.
pub open spec fn trimmed(text: Seq<char>) -> Seq<char>
    decreases text.len(),
{
    if text.len() == 0 {
        text
    } else if is_space(text.last()) {
        trimmed(text.drop_last())
    } else if is_space(text[0]) {
        trimmed(text.subrange(1, text.len() as int))
    } else {
        text
    }
}

fn space(c: char) -> (r: bool)
    ensures
        r == is_space(c),
{
    let n: u32 = c as u32;
    9 <= n && n <= 13 || n == 32 || n == 0x85 || n == 0xA0 || n == 0x1680 || 0x2000 <= n && n
        <= 0x200A || n == 0x2028 || n == 0x2029 || n == 0x202F || n == 0x205F || n == 0x3000
}

fn trim(text: &str) -> (r: String)
    ensures
        r@ == trimmed(text@),
{
    let chars = chars_of(text);
    let mut from: usize = 0;
    let mut to: usize = chars.len();
    assert(chars@.subrange(0, to as int) =~= chars@);
    while from < to && (space(chars[to - 1]) || space(chars[from]))
        invariant
            chars@ == text@,
            from <= to <= chars@.len(),
            trimmed(chars@.subrange(from as int, to as int)) == trimmed(text@),
        decreases to - from,
    {
        let ghost middle = chars@.subrange(from as int, to as int);
        assert(middle.last() == chars@[to - 1]);
        assert(middle[0] == chars@[from as int]);
        if space(chars[to - 1]) {
            assert(middle.drop_last() =~= chars@.subrange(from as int, to - 1));
            to = to - 1;
        } else {
            assert(middle.subrange(1, middle.len() as int) =~= chars@.subrange(
                from + 1,
                to as int,
            ));
            from = from + 1;
        }
    }
    let ghost middle = chars@.subrange(from as int, to as int);
    if from < to {
        assert(middle.last() == chars@[to - 1]);
        assert(middle[0] == chars@[from as int]);
    }
    assert(trimmed(middle) == middle);
    text_of(&part(&chars, from, to))
}

/// Whether a setting is switched on.
pub open spec fn is_switched_on(value: Seq<char>) -> bool {
    let word = lowered(trimmed(value));
    word == "1"@ || word == "true"@ || word == "yes"@ || word == "on"@
}

/// Whether to offer H.264: the environment decides, and without it the system does; and then the
/// decoder must start.
pub fn should_advertise_h264(setting: Option<&str>, macos: bool, decoder_starts: bool) -> (r: bool)
    ensures
        r == (decoder_starts && match setting {
            Some(value) => is_switched_on(value@),
            None => !macos,
        }),
{
    let allow = match setting {
        Some(value) => {
            let word = to_lowered(trim(value).as_str());
            same_text(word.as_str(), "1") || same_text(word.as_str(), "true") || same_text(
                word.as_str(),
                "yes",
            ) || same_text(word.as_str(), "on")
        },
        None => !macos,
    };
    allow && decoder_starts
}

/// Spaces at either end do not matter, whichever come first, and the case of letters does not
/// either. Texts without them are kept whole.
pub proof fn spaces_do_not_matter(text: Seq<char>, c: char)
    requires
        is_space(c),
    ensures
        trimmed(text.push(c)) == trimmed(text),
        trimmed(seq![c] + text) == trimmed(text),
        is_switched_on(text.push(c)) == is_switched_on(text),
        is_switched_on(seq![c] + text) == is_switched_on(text),
        text.len() > 0 && !is_space(text[0]) && !is_space(text.last()) ==> trimmed(text) == text,
    decreases text.len(),
{
    assert(text.push(c).drop_last() =~= text);
    let front = seq![c] + text;
    if text.len() == 0 {
        assert(front =~= text.push(c));
    } else if is_space(text.last()) {
        assert(front.drop_last() =~= seq![c] + text.drop_last());
        spaces_do_not_matter(text.drop_last(), c);
    } else {
        assert(front.last() == text.last());
        assert(front.subrange(1, front.len() as int) =~= text);
    }
}

/// The characters that only separate others: blanks, tabs and line ends among them, and no digit or
/// letter.
pub proof fn separators(c: char)
    ensures
        is_space(' ') && is_space('\t') && is_space('\n') && is_space('\r'),
        '0' <= c <= '9' || 'a' <= c <= 'z' || 'A' <= c <= 'Z' ==> !is_space(c),
{
}

/// What switches a setting on is one of four words and nothing else.
pub proof fn four_words_switch_on(value: Seq<char>)
    requires
        value.len() > 0,
        !is_space(value[0]),
        !is_space(value.last()),
        lowered(value) == value,
    ensures
        is_switched_on(value) <==> value == "1"@ || value == "true"@ || value == "yes"@ || value
            == "on"@,
{
}

} // verus!
