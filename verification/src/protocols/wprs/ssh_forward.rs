//! How a client reaches an endpoint: directly, or through a socket that `ssh` forwards.
use crate::error::{views, Error};
use crate::protocols::wprs::endpoint::{
    endpoint_model, DestinationModel, Endpoint, EndpointModel, SshDestination,
};
use crate::utils::socket_addr::{ip_text, is_loopback, port_of, AddrModel, Ipv4Addr, SocketAddr};
use crate::utils::system::SystemFamily;
use crate::utils::text::{decimal, owned, push_decimal};
use vstd::prelude::*;

verus! {

/// Something of this host that nobody uses yet.
#[derive(Debug)]
pub enum Scratch {
    Nothing,
    /// A port at which nothing listens.
    Port(u16),
    /// A path at which there is no socket.
    Socket(String),
}

/// What it takes to forward an endpoint.
#[derive(Debug, Clone, Copy, PartialEq, Eq, Structural)]
pub enum ScratchKind {
    Nothing,
    Port,
    Socket,
}

pub open spec fn kind_of(scratch: Scratch) -> ScratchKind {
    match scratch {
        Scratch::Nothing => ScratchKind::Nothing,
        Scratch::Port(_) => ScratchKind::Port,
        Scratch::Socket(_) => ScratchKind::Socket,
    }
}

/// A port of the remote host needs a local port, a socket a local socket if this system has such,
/// unless the endpoint says what to use.
pub open spec fn scratch_needed(endpoint: EndpointModel, system: SystemFamily) -> ScratchKind {
    match endpoint {
        EndpointModel::Ssh { destination, remote, local: None, ssh_args } => match *remote {
            EndpointModel::Tcp(_) => ScratchKind::Port,
            EndpointModel::Unix(_) if system is Unix => ScratchKind::Socket,
            _ => ScratchKind::Nothing,
        },
        _ => ScratchKind::Nothing,
    }
}

/// What has to be found on this host before the endpoint can be reached.
pub fn needed_scratch(endpoint: &Endpoint, system: SystemFamily) -> (r: ScratchKind)
    ensures
        r == scratch_needed(endpoint@, system),
{
    proof {
        reveal_with_fuel(endpoint_model, 3);
    }
    match endpoint {
        Endpoint::Ssh { destination: _, remote, local: None, ssh_args: _ } => match &**remote {
            Endpoint::Tcp { addr: _ } => ScratchKind::Port,
            Endpoint::Unix { path: _ } => match system {
                SystemFamily::Unix => ScratchKind::Socket,
                SystemFamily::Other => ScratchKind::Nothing,
            },
            Endpoint::Ssh { .. } => ScratchKind::Nothing,
        },
        _ => ScratchKind::Nothing,
    }
}

pub open spec fn loopback_endpoint(port: u16) -> EndpointModel {
    EndpointModel::Tcp(AddrModel::V4 { octets: seq![127u8, 0u8, 0u8, 1u8], port })
}

/// The local end of a forwarding, or why there is none.
pub open spec fn local_end(
    remote: EndpointModel,
    local: Option<EndpointModel>,
    system: SystemFamily,
    scratch: Scratch,
) -> Result<EndpointModel, Seq<char>> {
    match local {
        Some(EndpointModel::Tcp(addr)) => if is_loopback(addr) {
            Ok(EndpointModel::Tcp(addr))
        } else {
            Err("ssh local tcp endpoint must be loopback"@)
        },
        Some(EndpointModel::Unix(path)) => match system {
            SystemFamily::Unix => Ok(EndpointModel::Unix(path)),
            SystemFamily::Other => Err("unix endpoint is not supported on this platform"@),
        },
        Some(EndpointModel::Ssh { .. }) => Err("nested ssh endpoints are not supported"@),
        None => match (remote, scratch) {
            (EndpointModel::Tcp(_), Scratch::Port(port)) => Ok(loopback_endpoint(port)),
            (EndpointModel::Unix(_), Scratch::Socket(path)) if system is Unix => Ok(
                EndpointModel::Unix(path@),
            ),
            (EndpointModel::Unix(_), _) => Err("unix endpoint is not supported on this platform"@),
            _ => Err("nested ssh endpoints are not supported"@),
        },
    }
}

/// The arguments of `ssh` that say what is forwarded, or why it cannot be.
pub open spec fn forward_args(
    local: EndpointModel,
    remote: EndpointModel,
    system: SystemFamily,
) -> Result<Seq<Seq<char>>, Seq<char>> {
    match (local, remote) {
        (EndpointModel::Tcp(l), EndpointModel::Tcp(r)) => Ok(
            seq![
                "-L"@,
                ip_text(l) + ":"@ + decimal(port_of(l) as nat) + ":"@ + ip_text(r) + ":"@
                    + decimal(port_of(r) as nat),
            ],
        ),
        (EndpointModel::Unix(l), EndpointModel::Unix(r)) if system is Unix => Ok(
            seq!["-o"@, "StreamLocalBindUnlink=yes"@, "-L"@, l + ":"@ + r],
        ),
        _ => if system is Other && (local is Unix || remote is Unix) {
            Err("unix socket forwarding over ssh is not supported on this platform"@)
        } else {
            Err(
                "ssh forwarding requires local and remote endpoints to have the same type (tcp or unix)"@,
            )
        },
    }
}

/// How the destination is named on the command line.
pub open spec fn login_text(destination: DestinationModel) -> Seq<char> {
    match destination.user {
        Some(user) => user + "@"@ + destination.host,
        None => destination.host,
    }
}

/// The whole command line of `ssh`.
pub open spec fn ssh_command(
    destination: DestinationModel,
    forward: Seq<Seq<char>>,
    ssh_args: Seq<Seq<char>>,
) -> Seq<Seq<char>> {
    let port = match destination.port {
        Some(port) => seq!["-p"@, decimal(port as nat)],
        None => Seq::empty(),
    };
    seq!["-N"@, "-o"@, "ExitOnForwardFailure=yes"@] + port + forward + ssh_args + seq![
        login_text(destination),
    ]
}

/// A forwarding that is to be started.
#[derive(Debug)]
pub struct SshForward {
    /// The arguments of `ssh`.
    pub args: Vec<String>,
    /// The socket to remove once it is over.
    pub local_unix_socket: Option<String>,
}

/// How an endpoint is reached: the endpoint to connect to, and the command line that makes it
/// available, with the socket to remove afterwards.
pub open spec fn client_transport(endpoint: EndpointModel, system: SystemFamily, scratch: Scratch) -> Result<
    (EndpointModel, Option<(Seq<Seq<char>>, Option<Seq<char>>)>),
    Seq<char>,
> {
    match endpoint {
        EndpointModel::Ssh { destination, remote, local, ssh_args } => {
            let given = match local {
                Some(local) => Some(*local),
                None => None,
            };
            match local_end(*remote, given, system, scratch) {
                Err(text) => Err(text),
                Ok(end) => match forward_args(end, *remote, system) {
                    Err(text) => Err(text),
                    Ok(forward) => Ok(
                        (
                            end,
                            Some(
                                (
                                    ssh_command(destination, forward, ssh_args),
                                    match (given, end) {
                                        (None, EndpointModel::Unix(path)) => Some(path),
                                        _ => None,
                                    },
                                ),
                            ),
                        ),
                    ),
                },
            }
        },
        _ => Ok((endpoint, None)),
    }
}

pub open spec fn forward_view(forward: Option<SshForward>) -> Option<
    (Seq<Seq<char>>, Option<Seq<char>>),
> {
    match forward {
        Some(forward) => Some(
            (
                views(forward.args@),
                match forward.local_unix_socket {
                    Some(path) => Some(path@),
                    None => None,
                },
            ),
        ),
        None => None,
    }
}

fn refuse<T>(text: &str) -> (r: Result<T, Error>)
    ensures
        r matches Err(Error::Message(message)) && message@ == text@,
{
    Err(Error::Message(owned(text)))
}

/// The local end of a forwarding, and the socket to remove afterwards.
fn choose_local_forward_endpoint(
    remote: &Endpoint,
    local: Option<Box<Endpoint>>,
    system: SystemFamily,
    scratch: Scratch,
) -> (r: Result<(Endpoint, Option<String>), Error>)
    requires
        local is None ==> match remote@ {
            EndpointModel::Tcp(_) => kind_of(scratch) == ScratchKind::Port,
            EndpointModel::Unix(_) if system is Unix => kind_of(scratch) == ScratchKind::Socket,
            _ => true,
        },
    ensures
        ({
            let given = match local {
                Some(local) => Some(local@),
                None => None,
            };
            match local_end(remote@, given, system, scratch) {
                Ok(end) => r matches Ok((e, socket)) && e@ == end && match (given, end) {
                    (None, EndpointModel::Unix(path)) => socket matches Some(s) && s@ == path,
                    _ => socket is None,
                },
                Err(text) => r matches Err(Error::Message(message)) && message@ == text,
            }
        }),
{
    if let Some(local) = local {
        return match *local {
            Endpoint::Tcp { addr } => if addr.is_loopback() {
                Ok((Endpoint::Tcp { addr }, None))
            } else {
                refuse("ssh local tcp endpoint must be loopback")
            },
            Endpoint::Unix { path } => match system {
                SystemFamily::Unix => Ok((Endpoint::Unix { path }, None)),
                SystemFamily::Other => refuse("unix endpoint is not supported on this platform"),
            },
            Endpoint::Ssh { .. } => refuse("nested ssh endpoints are not supported"),
        };
    }
    match (remote, scratch) {
        (Endpoint::Tcp { addr: _ }, Scratch::Port(port)) => {
            let octets: [u8; 4] = [127, 0, 0, 1];
            assert(octets@ =~= seq![127u8, 0u8, 0u8, 1u8]);
            Ok((Endpoint::Tcp { addr: SocketAddr::V4 { ip: Ipv4Addr { octets }, port } }, None))
        },
        (Endpoint::Unix { path: _ }, Scratch::Socket(path)) if system == SystemFamily::Unix => {
            let socket = owned(path.as_str());
            Ok((Endpoint::Unix { path }, Some(socket)))
        },
        (Endpoint::Unix { path: _ }, _) => refuse(
            "unix endpoint is not supported on this platform",
        ),
        _ => refuse("nested ssh endpoints are not supported"),
    }
}

fn push_arg(args: &mut Vec<String>, arg: String)
    ensures
        views(final(args)@) == views(old(args)@).push(arg@),
{
    let ghost before = views(args@);
    let ghost new = arg@;
    args.push(arg);
    assert(views(args@) =~= before.push(new));
}

/// Adds what is forwarded to the command line.
fn push_forward(
    args: &mut Vec<String>,
    local: &Endpoint,
    remote: &Endpoint,
    system: SystemFamily,
) -> (r: Result<(), Error>)
    ensures
        match forward_args(local@, remote@, system) {
            Ok(forward) => r is Ok && views(final(args)@) == views(old(args)@) + forward,
            Err(text) => r matches Err(Error::Message(message)) && message@ == text,
        },
{
    let ghost before = views(args@);
    match (local, remote) {
        (Endpoint::Tcp { addr: l }, Endpoint::Tcp { addr: r }) => {
            push_arg(args, owned("-L"));
            let mut text = String::new();
            l.push_ip(&mut text);
            text.append(":");
            push_decimal(&mut text, l.port() as u64);
            text.append(":");
            r.push_ip(&mut text);
            text.append(":");
            push_decimal(&mut text, r.port() as u64);
            assert(text@ =~= ip_text(l@) + ":"@ + decimal(port_of(l@) as nat) + ":"@ + ip_text(r@)
                + ":"@ + decimal(port_of(r@) as nat));
            push_arg(args, text);
            assert(views(args@) =~= before + forward_args(local@, remote@, system)->Ok_0);
            Ok(())
        },
        (Endpoint::Unix { path: l }, Endpoint::Unix { path: r }) if system == SystemFamily::Unix => {
            push_arg(args, owned("-o"));
            push_arg(args, owned("StreamLocalBindUnlink=yes"));
            push_arg(args, owned("-L"));
            let mut text = owned(l.as_str());
            text.append(":");
            text.append(r.as_str());
            push_arg(args, text);
            assert(views(args@) =~= before + forward_args(local@, remote@, system)->Ok_0);
            Ok(())
        },
        (Endpoint::Unix { .. }, _) if system == SystemFamily::Other => refuse(
            "unix socket forwarding over ssh is not supported on this platform",
        ),
        (_, Endpoint::Unix { .. }) if system == SystemFamily::Other => refuse(
            "unix socket forwarding over ssh is not supported on this platform",
        ),
        _ => refuse(
            "ssh forwarding requires local and remote endpoints to have the same type (tcp or unix)",
        ),
    }
}

fn login(destination: &SshDestination) -> (r: String)
    ensures
        r@ == login_text(destination@),
{
    match &destination.user {
        Some(user) => {
            let mut text = owned(user.as_str());
            text.append("@");
            text.append(destination.host.as_str());
            text
        },
        None => owned(destination.host.as_str()),
    }
}

/// The command line of `ssh`.
fn ssh_arguments(
    destination: &SshDestination,
    local: &Endpoint,
    remote: &Endpoint,
    ssh_args: Vec<String>,
    system: SystemFamily,
) -> (r: Result<Vec<String>, Error>)
    ensures
        match forward_args(local@, remote@, system) {
            Ok(forward) => r matches Ok(args) && views(args@) == ssh_command(
                destination@,
                forward,
                views(ssh_args@),
            ),
            Err(text) => r matches Err(Error::Message(message)) && message@ == text,
        },
{
    let mut args: Vec<String> = Vec::new();
    push_arg(&mut args, owned("-N"));
    push_arg(&mut args, owned("-o"));
    push_arg(&mut args, owned("ExitOnForwardFailure=yes"));
    if let Some(port) = destination.port {
        push_arg(&mut args, owned("-p"));
        let mut text = String::new();
        push_decimal(&mut text, port as u64);
        assert(text@ =~= decimal(port as nat));
        push_arg(&mut args, text);
    }
    if let Err(err) = push_forward(&mut args, local, remote, system) {
        return Err(err);
    }
    let ghost before = args@;
    let ghost given = ssh_args@;
    let mut ssh_args = ssh_args;
    args.append(&mut ssh_args);
    assert(views(args@) =~= views(before) + views(given));
    push_arg(&mut args, login(destination));
    assert(views(args@) =~= ssh_command(
        destination@,
        forward_args(local@, remote@, system)->Ok_0,
        views(given),
    ));
    Ok(args)
}

/// How an endpoint is reached. Other endpoints than those of `ssh` are reached directly. For those,
/// `ssh` is to be started with the arguments that come back, for as long as the connection lasts.
pub fn setup_client_transport(endpoint: Endpoint, system: SystemFamily, scratch: Scratch) -> (r: Result<
    (Endpoint, Option<SshForward>),
    Error,
>)
    requires
        kind_of(scratch) == scratch_needed(endpoint@, system),
    ensures
        match client_transport(endpoint@, system, scratch) {
            Ok((resolved, forward)) => r matches Ok((e, f)) && e@ == resolved && forward_view(f)
                == forward,
            Err(text) => r matches Err(Error::Message(message)) && message@ == text,
        },
{
    match endpoint {
        Endpoint::Ssh { destination, remote, local, ssh_args } => {
            let (local_end, local_unix_socket) = match choose_local_forward_endpoint(
                &remote,
                local,
                system,
                scratch,
            ) {
                Ok(chosen) => chosen,
                Err(err) => {
                    return Err(err);
                },
            };
            match ssh_arguments(&destination, &local_end, &remote, ssh_args, system) {
                Ok(args) => Ok((local_end, Some(SshForward { args, local_unix_socket }))),
                Err(err) => Err(err),
            }
        },
        other => Ok((other, None)),
    }
}

/// What to do while a forwarding starts.
#[derive(Debug, Clone, Copy, PartialEq, Eq, Structural)]
pub enum ForwardWait {
    Ready,
    Failed,
    SleepMillis(u64),
}

/// The next step while a forwarding starts: `ready` says whether the local end could be reached.
pub fn wait_for_local_forward_ready(ready: bool, elapsed_millis: u64, timeout_millis: u64) -> (r:
    ForwardWait)
    ensures
        r == (if ready {
            ForwardWait::Ready
        } else if elapsed_millis > timeout_millis {
            ForwardWait::Failed
        } else {
            ForwardWait::SleepMillis(50)
        }),
{
    if ready {
        ForwardWait::Ready
    } else if elapsed_millis > timeout_millis {
        ForwardWait::Failed
    } else {
        ForwardWait::SleepMillis(50)
    }
}

/// How a server offers an endpoint: all but those of `ssh`.
pub fn server_endpoint(endpoint: Endpoint) -> (r: Result<Endpoint, Error>)
    ensures
        match endpoint@ {
            EndpointModel::Ssh { .. } => r matches Err(Error::Message(text)) && text@
                == "ssh endpoint is only supported for clients (use ssh port forwarding to expose a local tcp/unix endpoint for the server)"@,
            other => r matches Ok(e) && e@ == other,
        },
{
    match endpoint {
        Endpoint::Ssh { .. } => refuse(
            "ssh endpoint is only supported for clients (use ssh port forwarding to expose a local tcp/unix endpoint for the server)",
        ),
        other => Ok(other),
    }
}

/// Endpoints that need no forwarding are reached as they are.
pub proof fn direct_endpoints_pass_through(
    endpoint: EndpointModel,
    system: SystemFamily,
    scratch: Scratch,
)
    requires
        !(endpoint is Ssh),
    ensures
        client_transport(endpoint, system, scratch) == Ok::<
            (EndpointModel, Option<(Seq<Seq<char>>, Option<Seq<char>>)>),
            Seq<char>,
        >((endpoint, None)),
{
}

/// What a client connects to is never an endpoint of `ssh`, and other hosts cannot reach what
/// `ssh` forwards. It is a socket only where the system has such.
pub proof fn clients_connect_locally(endpoint: EndpointModel, system: SystemFamily, scratch: Scratch)
    requires
        endpoint is Ssh,
    ensures
        client_transport(endpoint, system, scratch) matches Ok((resolved, forward)) ==> match resolved {
            EndpointModel::Tcp(addr) => is_loopback(addr),
            EndpointModel::Unix(_) => system is Unix,
            EndpointModel::Ssh { .. } => false,
        },
{
}

/// The command line of `ssh`: it only forwards and fails if it cannot; then come the port, if one is
/// given, what is forwarded, the arguments that were given, and last where to log in.
pub proof fn command_lines_are_complete(
    destination: DestinationModel,
    forward: Seq<Seq<char>>,
    ssh_args: Seq<Seq<char>>,
    i: int,
)
    ensures
        ({
            let line = ssh_command(destination, forward, ssh_args);
            let n = if destination.port is Some {
                5int
            } else {
                3int
            };
            &&& line.len() == n + forward.len() + ssh_args.len() + 1
            &&& line[0] == "-N"@
            &&& line[1] == "-o"@
            &&& line[2] == "ExitOnForwardFailure=yes"@
            &&& destination.port matches Some(port) ==> line[3] == "-p"@ && line[4] == decimal(
                port as nat,
            )
            &&& 0 <= i < forward.len() ==> line[n + i] == forward[i]
            &&& 0 <= i < ssh_args.len() ==> line[n + forward.len() + i] == ssh_args[i]
            &&& line.last() == (match destination.user {
                Some(user) => user + "@"@ + destination.host,
                None => destination.host,
            })
        }),
{
}

/// What is forwarded: a local port to a remote one, or a local socket to a remote one, the local end
/// first.
pub proof fn ends_are_forwarded(l: AddrModel, r: AddrModel, a: Seq<char>, b: Seq<char>)
    ensures
        ({
            let ports = forward_args(
                EndpointModel::Tcp(l),
                EndpointModel::Tcp(r),
                SystemFamily::Other,
            )->Ok_0;
            let sockets = forward_args(
                EndpointModel::Unix(a),
                EndpointModel::Unix(b),
                SystemFamily::Unix,
            )->Ok_0;
            &&& forward_args(EndpointModel::Tcp(l), EndpointModel::Tcp(r), SystemFamily::Unix)
                == forward_args(EndpointModel::Tcp(l), EndpointModel::Tcp(r), SystemFamily::Other)
            &&& ports.len() == 2
            &&& ports[0] == "-L"@
            &&& ports[1] == ip_text(l) + ":"@ + decimal(port_of(l) as nat) + ":"@ + ip_text(r) + ":"@
                + decimal(port_of(r) as nat)
            &&& sockets.len() == 4
            &&& sockets[0] == "-o"@
            &&& sockets[1] == "StreamLocalBindUnlink=yes"@
            &&& sockets[2] == "-L"@
            &&& sockets[3] == a + ":"@ + b
        }),
{
}

/// Ends of different kinds cannot be forwarded, nor sockets where the system has none.
pub proof fn other_ends_are_not_forwarded(
    local: EndpointModel,
    remote: EndpointModel,
    system: SystemFamily,
)
    ensures
        forward_args(local, remote, system) is Ok <==> (local is Tcp && remote is Tcp) || (
        local is Unix && remote is Unix && system is Unix),
{
}

/// The local end is the one that was given, if other hosts cannot reach it; and otherwise a free port
/// of this host for a port, or a new socket for a socket, which is removed afterwards.
pub proof fn local_ends_fit_the_remote(
    destination: DestinationModel,
    remote_addr: AddrModel,
    given: AddrModel,
    remote_path: Seq<char>,
    port: u16,
    path: String,
    ssh_args: Seq<Seq<char>>,
)
    ensures
        ({
            let tcp = Box::new(EndpointModel::Tcp(remote_addr));
            let unix = Box::new(EndpointModel::Unix(remote_path));
            let by_port = client_transport(
                EndpointModel::Ssh { destination, remote: tcp, local: None, ssh_args },
                SystemFamily::Unix,
                Scratch::Port(port),
            );
            let by_socket = client_transport(
                EndpointModel::Ssh { destination, remote: unix, local: None, ssh_args },
                SystemFamily::Unix,
                Scratch::Socket(path),
            );
            let as_given = client_transport(
                EndpointModel::Ssh {
                    destination,
                    remote: tcp,
                    local: Some(Box::new(EndpointModel::Tcp(given))),
                    ssh_args,
                },
                SystemFamily::Unix,
                Scratch::Nothing,
            );
            &&& by_port matches Ok((end, Some((line, socket)))) && end == EndpointModel::Tcp(
                AddrModel::V4 { octets: seq![127u8, 0u8, 0u8, 1u8], port },
            ) && socket is None
            &&& by_socket matches Ok((end, Some((line, socket)))) && end == EndpointModel::Unix(
                path@,
            ) && socket == Some(path@)
            &&& as_given is Ok == is_loopback(given)
            &&& is_loopback(given) ==> (as_given matches Ok((end, Some((line, socket)))) && end
                == EndpointModel::Tcp(given) && socket is None)
        }),
{
}

/// Something has to be found on this host where `ssh` forwards and nothing is said of the local end:
/// a port for a port, and a socket for a socket on systems that have such.
pub proof fn only_forwarding_needs_scratch(
    endpoint: EndpointModel,
    destination: DestinationModel,
    addr: AddrModel,
    path: Seq<char>,
    ssh_args: Seq<Seq<char>>,
    system: SystemFamily,
)
    ensures
        !(endpoint is Ssh) ==> scratch_needed(endpoint, system) is Nothing,
        scratch_needed(
            EndpointModel::Ssh {
                destination,
                remote: Box::new(EndpointModel::Tcp(addr)),
                local: None,
                ssh_args,
            },
            system,
        ) is Port,
        scratch_needed(
            EndpointModel::Ssh {
                destination,
                remote: Box::new(EndpointModel::Unix(path)),
                local: None,
                ssh_args,
            },
            SystemFamily::Unix,
        ) is Socket,
        scratch_needed(
            EndpointModel::Ssh {
                destination,
                remote: Box::new(EndpointModel::Unix(path)),
                local: None,
                ssh_args,
            },
            SystemFamily::Other,
        ) is Nothing,
        scratch_needed(
            EndpointModel::Ssh {
                destination,
                remote: Box::new(endpoint),
                local: Some(Box::new(EndpointModel::Tcp(addr))),
                ssh_args,
            },
            system,
        ) is Nothing,
{
}

} // verus!
