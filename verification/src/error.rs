//! Errors and how they are told.
use crate::utils::text::{decimal, joined, push_decimal};
use vstd::prelude::*;

verus! {

/// Where in the source an error passed by.
#[derive(Debug)]
pub struct Location {
    pub fname: String,
    pub file: String,
    pub line: u32,
}

/// An error of another library: what it says, and what the errors that caused it say in turn.
#[derive(Debug)]
pub struct ForeignError {
    pub message: String,
    pub causes: Vec<String>,
}

/// What an error wraps.
#[derive(Debug)]
pub enum Cause {
    Own(Box<Error>),
    Foreign(ForeignError),
}

#[derive(Debug)]
pub enum Error {
    InvalidArgument(String),
    Missing(String),
    Unsupported(String),
    Config(String),
    Internal(String),
    /// Nothing but a message.
    Message(String),
    Context { context: String, source: Cause },
    Location { location: Location, source: Cause },
    Io(ForeignError),
    ParseInt(ForeignError),
    TryFromInt(ForeignError),
    Utf8(ForeignError),
    FromUtf8(ForeignError),
    Nul(ForeignError),
    Env(ForeignError),
    AddrParse(ForeignError),
    StripPrefix(ForeignError),
    SystemTime(ForeignError),
    Recv(ForeignError),
    TryRecv(ForeignError),
    Fmt(ForeignError),
    /// An image codec refused its input.
    Codec(ForeignError),
}

pub type Result<T> = std::result::Result<T, Error>;

pub open spec fn location_text(location: Location) -> Seq<char> {
    location.fname@ + " at "@ + location.file@ + ":"@ + decimal(location.line as nat)
}

/// The one-line message of an error, without the places it passed by.
pub open spec fn message_of(err: Error) -> Seq<char>
    decreases err,
{
    match err {
        Error::InvalidArgument(message) => "invalid argument: "@ + message@,
        Error::Missing(message) => "missing required value: "@ + message@,
        Error::Unsupported(message) => "unsupported operation: "@ + message@,
        Error::Config(message) => "configuration error: "@ + message@,
        Error::Internal(message) => "internal error: "@ + message@,
        Error::Message(message) => message@,
        Error::Context { context, source } => context@ + ": "@ + (match source {
            Cause::Own(e) => message_of(*e),
            Cause::Foreign(f) => f.message@,
        }),
        Error::Location { location, source } => match source {
            Cause::Own(e) => message_of(*e),
            Cause::Foreign(f) => f.message@,
        },
        Error::Io(f) | Error::ParseInt(f) | Error::TryFromInt(f) | Error::Utf8(f)
        | Error::FromUtf8(f) | Error::Nul(f) | Error::Env(f) | Error::AddrParse(f)
        | Error::StripPrefix(f) | Error::SystemTime(f) | Error::Recv(f) | Error::TryRecv(f)
        | Error::Fmt(f) | Error::Codec(f) => f.message@,
    }
}

/// The message of an error with the places it passed by.
pub open spec fn summary_of(err: Error) -> Seq<char>
    decreases err,
{
    match err {
        Error::Context { context, source } => context@ + ": "@ + (match source {
            Cause::Own(e) => summary_of(*e),
            Cause::Foreign(f) => f.message@,
        }),
        Error::Location { location, source } => location_text(location) + ": "@ + (match source {
            Cause::Own(e) => summary_of(*e),
            Cause::Foreign(f) => f.message@,
        }),
        _ => message_of(err),
    }
}

pub open spec fn views(texts: Seq<String>) -> Seq<Seq<char>> {
    Seq::new(texts.len(), |i: int| texts[i]@)
}

/// What the errors behind an error say, from the nearest on.
pub open spec fn causes_of(err: Error) -> Seq<Seq<char>>
    decreases err,
{
    match err {
        Error::Context { source, .. } | Error::Location { source, .. } => match source {
            Cause::Own(e) => seq![summary_of(*e)] + causes_of(*e),
            Cause::Foreign(f) => seq![f.message@] + views(f.causes@),
        },
        Error::Io(f) | Error::ParseInt(f) | Error::TryFromInt(f) | Error::Utf8(f)
        | Error::FromUtf8(f) | Error::Nul(f) | Error::Env(f) | Error::AddrParse(f)
        | Error::StripPrefix(f) | Error::SystemTime(f) | Error::Recv(f) | Error::TryRecv(f)
        | Error::Fmt(f) | Error::Codec(f) => seq![f.message@] + views(f.causes@),
        Error::InvalidArgument(_) | Error::Missing(_) | Error::Unsupported(_) | Error::Config(_)
        | Error::Internal(_) | Error::Message(_) => Seq::empty(),
    }
}

/// A first line, and one line for each cause, numbered from one.
pub open spec fn chain_text(first: Seq<char>, causes: Seq<Seq<char>>) -> Seq<char>
    decreases causes.len(),
{
    if causes.len() == 0 {
        first
    } else {
        chain_text(first, causes.drop_last()) + "\n  caused by ("@ + decimal(causes.len()) + "): "@
            + causes.last()
    }
}

impl Location {
    pub fn to_text(&self) -> (r: String)
        ensures
            r@ == location_text(*self),
    {
        let mut out = joined(self.fname.as_str(), " at ");
        out.append(self.file.as_str());
        out.append(":");
        push_decimal(&mut out, self.line as u64);
        out
    }
}

impl Error {
    pub fn context(context: String, source: Cause) -> (r: Self)
        ensures
            r == (Error::Context { context, source }),
    {
        Error::Context { context, source }
    }

    pub fn location(location: Location, source: Cause) -> (r: Self)
        ensures
            r == (Error::Location { location, source }),
    {
        Error::Location { location, source }
    }

    pub fn invalid_argument(message: String) -> (r: Self)
        ensures
            r == Error::InvalidArgument(message),
    {
        Error::InvalidArgument(message)
    }

    pub fn missing(message: String) -> (r: Self)
        ensures
            r == Error::Missing(message),
    {
        Error::Missing(message)
    }

    pub fn unsupported(message: String) -> (r: Self)
        ensures
            r == Error::Unsupported(message),
    {
        Error::Unsupported(message)
    }

    pub fn config(message: String) -> (r: Self)
        ensures
            r == Error::Config(message),
    {
        Error::Config(message)
    }

    pub fn internal(message: String) -> (r: Self)
        ensures
            r == Error::Internal(message),
    {
        Error::Internal(message)
    }

    /// The one-line message of the error.
    pub fn display_message(&self) -> (r: String)
        ensures
            r@ == message_of(*self),
        decreases self,
    {
        match self {
            Error::InvalidArgument(message) => joined("invalid argument: ", message.as_str()),
            Error::Missing(message) => joined("missing required value: ", message.as_str()),
            Error::Unsupported(message) => joined("unsupported operation: ", message.as_str()),
            Error::Config(message) => joined("configuration error: ", message.as_str()),
            Error::Internal(message) => joined("internal error: ", message.as_str()),
            Error::Message(message) => message.clone(),
            Error::Context { context, source } => {
                let mut out = joined(context.as_str(), ": ");
                match source {
                    Cause::Own(e) => {
                        let text = e.display_message();
                        out.append(text.as_str());
                    },
                    Cause::Foreign(f) => {
                        out.append(f.message.as_str());
                    },
                }
                out
            },
            Error::Location { source, .. } => match source {
                Cause::Own(e) => e.display_message(),
                Cause::Foreign(f) => f.message.clone(),
            },
            Error::Io(f) | Error::ParseInt(f) | Error::TryFromInt(f) | Error::Utf8(f)
            | Error::FromUtf8(f) | Error::Nul(f) | Error::Env(f) | Error::AddrParse(f)
            | Error::StripPrefix(f) | Error::SystemTime(f) | Error::Recv(f) | Error::TryRecv(f)
            | Error::Fmt(f) | Error::Codec(f) => f.message.clone(),
        }
    }

    /// The message of the error with the places it passed by.
    pub fn format_error_summary(&self) -> (r: String)
        ensures
            r@ == summary_of(*self),
        decreases self,
    {
        match self {
            Error::Location { location, source } => {
                let mut out = location.to_text();
                out.append(": ");
                match source {
                    Cause::Own(e) => {
                        let text = e.format_error_summary();
                        out.append(text.as_str());
                    },
                    Cause::Foreign(f) => {
                        out.append(f.message.as_str());
                    },
                }
                out
            },
            Error::Context { context, source } => {
                let mut out = joined(context.as_str(), ": ");
                match source {
                    Cause::Own(e) => {
                        let text = e.format_error_summary();
                        out.append(text.as_str());
                    },
                    Cause::Foreign(f) => {
                        out.append(f.message.as_str());
                    },
                }
                out
            },
            _ => self.display_message(),
        }
    }

    /// The causes of the error, nearest first.
    pub fn causes(&self) -> (r: Vec<String>)
        ensures
            views(r@) == causes_of(*self),
        decreases self,
    {
        match self {
            Error::Context { source, .. } | Error::Location { source, .. } => match source {
                Cause::Own(e) => {
                    let mut out: Vec<String> = Vec::new();
                    out.push(e.format_error_summary());
                    let mut rest = e.causes();
                    let ghost tail = rest@;
                    out.append(&mut rest);
                    assert(views(out@) =~= seq![summary_of(**e)] + views(tail));
                    out
                },
                Cause::Foreign(f) => f.chain(),
            },
            Error::Io(f) | Error::ParseInt(f) | Error::TryFromInt(f) | Error::Utf8(f)
            | Error::FromUtf8(f) | Error::Nul(f) | Error::Env(f) | Error::AddrParse(f)
            | Error::StripPrefix(f) | Error::SystemTime(f) | Error::Recv(f) | Error::TryRecv(f)
            | Error::Fmt(f) | Error::Codec(f) => f.chain(),
            Error::InvalidArgument(_) | Error::Missing(_) | Error::Unsupported(_)
            | Error::Config(_) | Error::Internal(_) | Error::Message(_) => {
                let out: Vec<String> = Vec::new();
                assert(views(out@) =~= Seq::<Seq<char>>::empty());
                out
            },
        }
    }

    /// The error and all its causes, one line each.
    pub fn format_error_chain(&self) -> (r: String)
        ensures
            r@ == chain_text(summary_of(*self), causes_of(*self)),
    {
        let mut out = self.format_error_summary();
        let causes = self.causes();
        let ghost all = views(causes@);
        let mut depth: usize = 0;
        assert(all.subrange(0, 0) =~= Seq::empty());
        while depth < causes.len()
            invariant
                depth <= causes@.len(),
                all == views(causes@),
                out@ == chain_text(summary_of(*self), all.subrange(0, depth as int)),
            decreases causes@.len() - depth,
        {
            let ghost before = out@;
            out.append("\n  caused by (");
            push_decimal(&mut out, (depth + 1) as u64);
            out.append("): ");
            out.append(causes[depth].as_str());
            depth = depth + 1;
            let ghost now = all.subrange(0, depth as int);
            assert(now.drop_last() =~= all.subrange(0, depth - 1));
            assert(now.last() == causes@[depth - 1]@);
        }
        assert(all.subrange(0, depth as int) =~= all);
        out
    }
}

impl ForeignError {
    pub fn new(message: String) -> (r: Self)
        ensures
            r.message == message,
            r.causes@.len() == 0,
    {
        ForeignError { message, causes: Vec::new() }
    }

    /// What the error and those behind it say.
    fn chain(&self) -> (r: Vec<String>)
        ensures
            views(r@) == seq![self.message@] + views(self.causes@),
    {
        let mut out: Vec<String> = Vec::new();
        out.push(self.message.clone());
        let mut i: usize = 0;
        assert(views(out@) =~= seq![self.message@] + views(self.causes@.subrange(0, 0)));
        while i < self.causes.len()
            invariant
                i <= self.causes@.len(),
                views(out@) == seq![self.message@] + views(self.causes@.subrange(0, i as int)),
            decreases self.causes@.len() - i,
        {
            let ghost before = views(out@);
            out.push(self.causes[i].clone());
            i = i + 1;
            assert(views(out@) =~= before.push(self.causes@[i - 1]@));
            assert(views(self.causes@.subrange(0, i as int)) =~= views(
                self.causes@.subrange(0, i - 1),
            ).push(self.causes@[i - 1]@));
            assert(views(out@) =~= seq![self.message@] + views(
                self.causes@.subrange(0, i as int),
            ));
        }
        assert(self.causes@.subrange(0, i as int) =~= self.causes@);
        out
    }
}

/// Marking where an error passed by does not change its message.
pub proof fn location_keeps_the_message(location: Location, err: Error)
    ensures
        message_of(Error::Location { location, source: Cause::Own(Box::new(err)) }) == message_of(err),
{
}

/// Each kind of error says first what kind it is, and then what it has to say.
pub proof fn messages_tell_their_kind(text: String, foreign: ForeignError)
    ensures
        message_of(Error::InvalidArgument(text)) == "invalid argument: "@ + text@,
        message_of(Error::Missing(text)) == "missing required value: "@ + text@,
        message_of(Error::Unsupported(text)) == "unsupported operation: "@ + text@,
        message_of(Error::Config(text)) == "configuration error: "@ + text@,
        message_of(Error::Internal(text)) == "internal error: "@ + text@,
        message_of(Error::Message(text)) == text@,
        message_of(Error::Io(foreign)) == foreign.message@,
        message_of(Error::ParseInt(foreign)) == foreign.message@,
        message_of(Error::AddrParse(foreign)) == foreign.message@,
        message_of(Error::Codec(foreign)) == foreign.message@,
{
}

/// What an error is put into stands in front of it: the context in messages and summaries, the place
/// in summaries only.
pub proof fn contexts_stand_in_front(context: String, location: Location, err: Error)
    ensures
        message_of(Error::Context { context, source: Cause::Own(Box::new(err)) }) == context@ + ": "@
            + message_of(err),
        summary_of(Error::Context { context, source: Cause::Own(Box::new(err)) }) == context@ + ": "@
            + summary_of(err),
        summary_of(Error::Location { location, source: Cause::Own(Box::new(err)) })
            == location.fname@ + " at "@ + location.file@ + ":"@ + decimal(location.line as nat)
            + ": "@ + summary_of(err),
        !(err is Context) && !(err is Location) ==> summary_of(err) == message_of(err),
{
}

/// The causes of an error that wraps another are the other one and its causes, nearest first.
pub proof fn causes_come_nearest_first(context: String, location: Location, err: Error, text: String)
    ensures
        causes_of(Error::Context { context, source: Cause::Own(Box::new(err)) }) == seq![
            summary_of(err),
        ] + causes_of(err),
        causes_of(Error::Location { location, source: Cause::Own(Box::new(err)) }) == seq![
            summary_of(err),
        ] + causes_of(err),
        causes_of(Error::Message(text)).len() == 0,
        causes_of(Error::InvalidArgument(text)).len() == 0,
{
}

/// The lines of a chain are numbered from one, in order, behind the first line.
pub proof fn chains_are_numbered(first: Seq<char>, causes: Seq<Seq<char>>, cause: Seq<char>)
    ensures
        chain_text(first, Seq::empty()) == first,
        chain_text(first, causes.push(cause)) == chain_text(first, causes) + "\n  caused by ("@
            + decimal(causes.len() + 1) + "): "@ + cause,
{
    assert(causes.push(cause).drop_last() =~= causes);
}

} // verus!
