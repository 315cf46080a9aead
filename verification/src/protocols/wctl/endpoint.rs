//! Where a server listens to those who control it: on this host only.
use crate::error::{Error, ForeignError};
use crate::utils::socket_addr::{addr_text, is_loopback, parsed_addr, AddrModel, SocketAddr};
use crate::utils::socket_addr_text::addresses_survive_text;
use crate::utils::system::SystemFamily;
use crate::utils::text::{
    chars_of, debug_text, has_prefix, joined, owned, quoted, same_text, strip_prefix,
    without_prefix,
};
use vstd::prelude::*;

verus! {

#[derive(Debug, PartialEq, Eq)]
pub enum Endpoint {
    Unix { path: String },
    Tcp { addr: SocketAddr },
}

#[verifier::ext_equal]
pub enum ControlModel {
    Unix(Seq<char>),
    Tcp(AddrModel),
}

impl View for Endpoint {
    type V = ControlModel;

    open spec fn view(&self) -> ControlModel {
        match *self {
            Endpoint::Unix { path } => ControlModel::Unix(path@),
            Endpoint::Tcp { addr } => ControlModel::Tcp(addr@),
        }
    }
}

impl Clone for Endpoint {
    fn clone(&self) -> (r: Self)
        ensures
            r@ == self@,
    {
        match self {
            Endpoint::Unix { path } => Endpoint::Unix { path: owned(path.as_str()) },
            Endpoint::Tcp { addr } => Endpoint::Tcp { addr: *addr },
        }
    }
}

pub open spec fn control_text(endpoint: ControlModel) -> Seq<char> {
    match endpoint {
        ControlModel::Unix(path) => "unix://"@ + path,
        ControlModel::Tcp(addr) => "tcp://"@ + addr_text(addr),
    }
}

/// Whether only this host can reach the endpoint.
pub open spec fn is_local(endpoint: ControlModel) -> bool {
    match endpoint {
        ControlModel::Unix(_) => true,
        ControlModel::Tcp(addr) => is_loopback(addr),
    }
}

/// Why a text is no endpoint.
pub enum ControlRefusal {
    /// What should be an address is none.
    Address,
    Form,
}

/// The endpoint that a text stands for: `unix://PATH`, `tcp://ADDR`, or a path from the root on.
/// Systems without Unix domain sockets read addresses only.
pub open spec fn parsed_control(text: Seq<char>, system: SystemFamily) -> Result<
    ControlModel,
    ControlRefusal,
> {
    if system is Unix && has_prefix(text, "unix://"@) {
        Ok(ControlModel::Unix(without_prefix(text, "unix://"@)))
    } else if has_prefix(text, "tcp://"@) {
        match parsed_addr(without_prefix(text, "tcp://"@)) {
            Some(addr) => Ok(ControlModel::Tcp(addr)),
            None => Err(ControlRefusal::Address),
        }
    } else if system is Unix && text.len() > 0 && text[0] == '/' {
        Ok(ControlModel::Unix(text))
    } else {
        Err(ControlRefusal::Form)
    }
}

/// How the refusal of a text is told.
pub open spec fn tells_refusal(
    err: Error,
    text: Seq<char>,
    refusal: ControlRefusal,
    system: SystemFamily,
) -> bool {
    match refusal {
        ControlRefusal::Address => err matches Error::AddrParse(foreign) && foreign.message@
            == "invalid socket address syntax"@,
        ControlRefusal::Form => err matches Error::Message(message) && message@
            == "invalid wctl endpoint "@ + debug_text(text) + (match system {
            SystemFamily::Unix => " (expected: tcp://127.0.0.1:PORT or unix:///path )"@,
            SystemFamily::Other => " (expected: tcp://127.0.0.1:PORT )"@,
        }),
    }
}

pub open spec fn optional_view(endpoint: Option<Endpoint>) -> Option<ControlModel> {
    match endpoint {
        Some(endpoint) => Some(endpoint@),
        None => None,
    }
}

pub open spec fn exposed_text(addr: AddrModel) -> Seq<char> {
    "wctl tcp endpoint must use a loopback address: "@ + addr_text(addr)
}

impl Endpoint {
    /// Turns down endpoints that other hosts can reach.
    pub fn ensure_localhost(&self) -> (r: Result<(), Error>)
        ensures
            match self@ {
                ControlModel::Unix(_) => r is Ok,
                ControlModel::Tcp(addr) => if is_loopback(addr) {
                    r is Ok
                } else {
                    r matches Err(Error::Message(text)) && text@ == exposed_text(addr)
                },
            },
            r is Ok == is_local(self@),
    {
        match self {
            Endpoint::Unix { path: _ } => Ok(()),
            Endpoint::Tcp { addr } => if addr.is_loopback() {
                Ok(())
            } else {
                let mut text = owned("wctl tcp endpoint must use a loopback address: ");
                addr.push_text(&mut text);
                Err(Error::Message(text))
            },
        }
    }

    pub fn display_text(&self) -> (r: String)
        ensures
            r@ == control_text(self@),
    {
        match self {
            Endpoint::Unix { path } => joined("unix://", path.as_str()),
            Endpoint::Tcp { addr } => {
                let mut text = owned("tcp://");
                addr.push_text(&mut text);
                text
            },
        }
    }

    /// Reads an endpoint, as a Unix system does.
    pub fn parse(text: &str) -> (r: Result<Self, Error>)
        ensures
            match parsed_control(text@, SystemFamily::Unix) {
                Ok(endpoint) => r matches Ok(e) && e@ == endpoint,
                Err(refusal) => r matches Err(err) && tells_refusal(
                    err,
                    text@,
                    refusal,
                    SystemFamily::Unix,
                ),
            },
    {
        Self::parse_on(text, SystemFamily::Unix)
    }

    /// Reads an endpoint.
    pub fn parse_on(text: &str, system: SystemFamily) -> (r: Result<Self, Error>)
        ensures
            match parsed_control(text@, system) {
                Ok(endpoint) => r matches Ok(e) && e@ == endpoint,
                Err(refusal) => r matches Err(err) && tells_refusal(err, text@, refusal, system),
            },
    {
        if system == SystemFamily::Unix {
            if let Some(path) = strip_prefix(text, "unix://") {
                return Ok(Endpoint::Unix { path });
            }
        }
        if let Some(rest) = strip_prefix(text, "tcp://") {
            return match SocketAddr::parse(rest.as_str()) {
                Some(addr) => Ok(Endpoint::Tcp { addr }),
                None => Err(
                    Error::AddrParse(
                        ForeignError {
                            message: owned("invalid socket address syntax"),
                            causes: Vec::new(),
                        },
                    ),
                ),
            };
        }
        let chars = chars_of(text);
        if system == SystemFamily::Unix && chars.len() > 0 && chars[0] == '/' {
            return Ok(Endpoint::Unix { path: owned(text) });
        }
        let mut message = owned("invalid wctl endpoint ");
        message.append(quoted(text).as_str());
        match system {
            SystemFamily::Unix => {
                message.append(" (expected: tcp://127.0.0.1:PORT or unix:///path )");
            },
            SystemFamily::Other => {
                message.append(" (expected: tcp://127.0.0.1:PORT )");
            },
        }
        Err(Error::Message(message))
    }

    /// Whether two endpoints are the same.
    pub fn same(&self, other: &Endpoint) -> (r: bool)
        ensures
            r == (self@ == other@),
    {
        match (self, other) {
            (Endpoint::Unix { path: a }, Endpoint::Unix { path: b }) => same_text(
                a.as_str(),
                b.as_str(),
            ),
            (Endpoint::Tcp { addr: a }, Endpoint::Tcp { addr: b }) => a.same(b),
            _ => false,
        }
    }
}

/// An address at which a server is to listen: the error where other hosts can reach it.
pub fn check_listen_addr(addr: &SocketAddr) -> (r: Result<(), Error>)
    ensures
        if is_loopback(addr@) {
            r is Ok
        } else {
            r matches Err(Error::InvalidArgument(text)) && text@ == exposed_text(addr@)
        },
{
    if addr.is_loopback() {
        Ok(())
    } else {
        let mut text = owned("wctl tcp endpoint must use a loopback address: ");
        addr.push_text(&mut text);
        Err(Error::InvalidArgument(text))
    }
}

/// Every endpoint that a system has can be read back from its text.
pub proof fn control_endpoints_survive_text(endpoint: ControlModel, system: SystemFamily)
    requires
        match endpoint {
            ControlModel::Unix(path) => system is Unix,
            ControlModel::Tcp(AddrModel::V4 { octets, port }) => octets.len() == 4,
            ControlModel::Tcp(AddrModel::V6 { segments, port, scope_id }) => segments.len() == 8,
        },
    ensures
        parsed_control(control_text(endpoint), system) == Ok::<ControlModel, ControlRefusal>(
            endpoint,
        ),
{
    reveal_strlit("unix://");
    reveal_strlit("tcp://");
    let text = control_text(endpoint);
    match endpoint {
        ControlModel::Unix(path) => {
            assert(text.subrange(0, 7) =~= "unix://"@);
            assert(without_prefix(text, "unix://"@) =~= path);
        },
        ControlModel::Tcp(addr) => {
            assert(text[0] == 't');
            assert(!has_prefix(text, "unix://"@)) by {
                if has_prefix(text, "unix://"@) {
                    assert(text.subrange(0, 7)[0] == 'u');
                }
            }
            assert(text.subrange(0, 6) =~= "tcp://"@);
            assert(without_prefix(text, "tcp://"@) =~= addr_text(addr));
            addresses_survive_text(addr);
        },
    }
}

/// Sockets can be reached from this host only, and addresses if they are loopback addresses.
pub proof fn local_endpoints(path: Seq<char>, addr: AddrModel)
    ensures
        is_local(ControlModel::Unix(path)),
        is_local(ControlModel::Tcp(addr)) == is_loopback(addr),
{
}

/// A path from the root on is a socket on Unix systems, and refused on others. A text of no known
/// form is refused.
pub proof fn paths_are_sockets(text: Seq<char>)
    requires
        text.len() > 0,
        text[0] == '/',
    ensures
        parsed_control(text, SystemFamily::Unix) == Ok::<ControlModel, ControlRefusal>(
            ControlModel::Unix(text),
        ),
        parsed_control(text, SystemFamily::Other) == Err::<ControlModel, ControlRefusal>(
            ControlRefusal::Form,
        ),
        parsed_control(Seq::empty(), SystemFamily::Unix) == Err::<ControlModel, ControlRefusal>(
            ControlRefusal::Form,
        ),
{
    reveal_strlit("unix://");
    reveal_strlit("tcp://");
    if has_prefix(text, "unix://"@) {
        assert(text.subrange(0, 7)[0] == text[0]);
    }
    if has_prefix(text, "tcp://"@) {
        assert(text.subrange(0, 6)[0] == text[0]);
    }
}

/// What follows `tcp://` is an address, or refused.
pub proof fn addresses_follow_their_scheme(rest: Seq<char>, system: SystemFamily)
    ensures
        parsed_control("tcp://"@ + rest, system) == (match parsed_addr(rest) {
            Some(addr) => Ok::<ControlModel, ControlRefusal>(ControlModel::Tcp(addr)),
            None => Err(ControlRefusal::Address),
        }),
        parsed_control("unix://"@ + rest, SystemFamily::Unix) == Ok::<
            ControlModel,
            ControlRefusal,
        >(ControlModel::Unix(rest)),
{
    reveal_strlit("unix://");
    reveal_strlit("tcp://");
    let tcp = "tcp://"@ + rest;
    let unix = "unix://"@ + rest;
    assert(tcp[0] == 't' && unix[0] == 'u');
    if has_prefix(tcp, "unix://"@) {
        assert(tcp.subrange(0, 7)[0] == tcp[0]);
    }
    assert(tcp.subrange(0, 6) =~= "tcp://"@);
    assert(unix.subrange(0, 7) =~= "unix://"@);
    assert(without_prefix(tcp, "tcp://"@) =~= rest);
    assert(without_prefix(unix, "unix://"@) =~= rest);
}

} // verus!
