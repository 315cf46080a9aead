//! The text of an endpoint, which can be read back.
use crate::error::views;
use crate::protocols::wprs::endpoint::{
    all_digits, authority_and_path, before_query, last_index, parsed_destination, parsed_endpoint,
    parsed_host, parsed_port, query_item, query_items, whole_query, DestinationModel, Endpoint,
    EndpointModel, QueryModel, Refusal, SshDestination,
};
use crate::utils::socket_addr::{addr_text, is_loopback, AddrModel};
use crate::utils::socket_addr_text::{addresses_survive_text, lemma_decimal};
use crate::utils::split::{join, lemma_join_push, split, split_undoes_join, without};
use crate::utils::system::SystemFamily;
use crate::utils::text::{
    chars_of, decimal, has_prefix, index_of, is_digit, lemma_first_index, lemma_is_first_index,
    owned, push_decimal, without_prefix,
};
use vstd::prelude::*;

verus! {

/// The text of a destination. A host that holds colons stands in brackets.
pub open spec fn destination_text(destination: DestinationModel) -> Seq<char> {
    let user = match destination.user {
        Some(user) => user + "@"@,
        None => Seq::empty(),
    };
    let host = if destination.host.contains(':') {
        "["@ + destination.host + "]"@
    } else {
        destination.host
    };
    let port = match destination.port {
        Some(port) => ":"@ + decimal(port as nat),
        None => Seq::empty(),
    };
    user + host + port
}

pub open spec fn args_text(ssh_args: Seq<Seq<char>>) -> Seq<char>
    decreases ssh_args.len(),
{
    if ssh_args.len() == 0 {
        Seq::empty()
    } else {
        args_text(ssh_args.drop_last()) + "&ssh-arg="@ + ssh_args.last()
    }
}

pub open spec fn endpoint_text(endpoint: EndpointModel) -> Seq<char>
    decreases endpoint,
{
    match endpoint {
        EndpointModel::Unix(path) => "unix://"@ + path,
        EndpointModel::Tcp(addr) => "tcp://"@ + addr_text(addr),
        EndpointModel::Ssh { destination, remote, local, ssh_args } => "ssh://"@
            + destination_text(destination) + "?remote="@ + endpoint_text(*remote) + (match local {
            Some(local) => "&local="@ + endpoint_text(*local),
            None => Seq::empty(),
        }) + args_text(ssh_args),
    }
}

/// The text of a destination.
pub fn format_ssh_destination(destination: &SshDestination) -> (r: String)
    ensures
        r@ == destination_text(destination@),
{
    let mut out = String::new();
    if let Some(user) = &destination.user {
        out.append(user.as_str());
        out.append("@");
    }
    let ghost prefix = out@;
    let host = chars_of(destination.host.as_str());
    proof {
        lemma_first_index(host@, ':');
    }
    if index_of(&host, ':') < host.len() {
        out.append("[");
        out.append(destination.host.as_str());
        out.append("]");
    } else {
        out.append(destination.host.as_str());
    }
    if let Some(port) = destination.port {
        out.append(":");
        push_decimal(&mut out, port as u64);
    }
    assert(out@ =~= destination_text(destination@));
    out
}

fn push_args(out: &mut String, ssh_args: &Vec<String>)
    ensures
        final(out)@ == old(out)@ + args_text(views(ssh_args@)),
{
    let ghost before = out@;
    let ghost all = views(ssh_args@);
    let mut i: usize = 0;
    assert(all.subrange(0, 0) =~= Seq::empty());
    assert(out@ =~= before + args_text(all.subrange(0, 0)));
    while i < ssh_args.len()
        invariant
            i <= ssh_args@.len(),
            all == views(ssh_args@),
            out@ == before + args_text(all.subrange(0, i as int)),
        decreases ssh_args@.len() - i,
    {
        out.append("&ssh-arg=");
        out.append(ssh_args[i].as_str());
        i = i + 1;
        let ghost so_far = all.subrange(0, i as int);
        assert(so_far.drop_last() =~= all.subrange(0, i - 1));
        assert(so_far.last() == ssh_args@[i - 1]@);
        assert(out@ =~= before + args_text(so_far));
    }
    assert(all.subrange(0, i as int) =~= all);
}

fn push_endpoint(out: &mut String, endpoint: &Endpoint)
    ensures
        final(out)@ == old(out)@ + endpoint_text(endpoint@),
    decreases endpoint,
{
    let ghost before = out@;
    match endpoint {
        Endpoint::Unix { path } => {
            out.append("unix://");
            out.append(path.as_str());
        },
        Endpoint::Tcp { addr } => {
            out.append("tcp://");
            addr.push_text(out);
        },
        Endpoint::Ssh { destination, remote, local, ssh_args } => {
            out.append("ssh://");
            out.append(format_ssh_destination(destination).as_str());
            out.append("?remote=");
            push_endpoint(out, remote);
            if let Some(local) = local {
                out.append("&local=");
                push_endpoint(out, local);
            }
            push_args(out, ssh_args);
        },
    }
    assert(out@ =~= before + endpoint_text(endpoint@));
}

pub open spec fn exposure_text(kind: Seq<char>, addr: AddrModel) -> Seq<char> {
    kind + " is bound to "@ + addr_text(addr)
        + " (non-loopback). This is not recommended without authentication/encryption. Prefer localhost (127.0.0.1/::1)."@
}

impl Endpoint {
    /// The text of the endpoint.
    pub fn display_text(&self) -> (r: String)
        ensures
            r@ == endpoint_text(self@),
    {
        let mut out = String::new();
        push_endpoint(&mut out, self);
        assert(out@ =~= endpoint_text(self@));
        out
    }

    /// A warning where other hosts can reach the endpoint.
    pub fn warn_if_non_loopback(&self, kind: &str) -> (r: Option<String>)
        ensures
            match self@ {
                EndpointModel::Tcp(addr) => if is_loopback(addr) {
                    r is None
                } else {
                    r matches Some(text) && text@ == exposure_text(kind@, addr)
                },
                _ => r is None,
            },
    {
        match self {
            Endpoint::Tcp { addr } => if addr.is_loopback() {
                None
            } else {
                let mut text = owned(kind);
                text.append(" is bound to ");
                addr.push_text(&mut text);
                text.append(
                    " (non-loopback). This is not recommended without authentication/encryption. Prefer localhost (127.0.0.1/::1).",
                );
                Some(text)
            },
            _ => None,
        }
    }
}

/// Whether a destination can be told apart from what surrounds it: the user ends at the first `@`,
/// a bracketed host at the first `]`, and a host without brackets does not begin with one.
pub open spec fn is_legible(destination: DestinationModel) -> bool {
    &&& destination.host.len() > 0
    &&& match destination.user {
        Some(user) => !user.contains('@'),
        None => !destination.host.contains('@'),
    }
    &&& if destination.host.contains(':') {
        !destination.host.contains(']')
    } else {
        destination.host[0] != '['
    }
}

proof fn lemma_last_index(text: Seq<char>, c: char, at: int)
    requires
        -1 <= at < text.len(),
        at >= 0 ==> text[at] == c,
        forall|j: int| at < j < text.len() ==> text[j] != c,
    ensures
        last_index(text, c) == at,
    decreases text.len(),
{
    if text.len() > 0 && text.last() != c {
        lemma_last_index(text.drop_last(), c, at);
    }
}

/// A port can be read back.
proof fn lemma_port(port: u16)
    ensures
        parsed_port(decimal(port as nat)) == Ok::<u16, Refusal>(port),
        all_digits(decimal(port as nat)),
        decimal(port as nat).len() > 0,
{
    lemma_decimal(port as nat);
    assert(is_digit(decimal(port as nat)[0]));
}

proof fn lemma_host(destination: DestinationModel)
    requires
        is_legible(destination),
    ensures
        parsed_host(destination_text(DestinationModel { user: None, ..destination })) == Ok::<
            (Seq<char>, Option<u16>),
            Refusal,
        >((destination.host, destination.port)),
{
    reveal_strlit(":");
    reveal_strlit("[");
    reveal_strlit("]");
    let text = destination_text(DestinationModel { user: None, ..destination });
    let host = destination.host;
    let n = host.len() as int;
    if let Some(port) = destination.port {
        lemma_port(port);
    }
    let port_text = match destination.port {
        Some(port) => ":"@ + decimal(port as nat),
        None => Seq::empty(),
    };
    if host.contains(':') {
        assert(text =~= "["@ + host + "]"@ + port_text);
        let inner = text.subrange(1, text.len() as int);
        assert(inner =~= host + "]"@ + port_text);
        assert forall|j: int| 0 <= j < n implies inner[j] != ']' by {
            assert(inner[j] == host[j]);
            assert(host.contains(host[j]));
        }
        assert(inner[n] == ']');
        lemma_is_first_index(inner, ']', n);
        assert(inner.subrange(0, n) =~= host);
        let rest = inner.subrange(n + 1, inner.len() as int);
        assert(rest =~= port_text);
        if let Some(port) = destination.port {
            assert(rest.subrange(1, rest.len() as int) =~= decimal(port as nat));
        }
    } else {
        assert(text =~= host + port_text);
        assert(text[0] == host[0]);
        match destination.port {
            Some(port) => {
                assert forall|j: int| n < j < text.len() implies text[j] != ':' by {
                    assert(text[j] == decimal(port as nat)[j - n - 1]);
                    assert(is_digit(decimal(port as nat)[j - n - 1]));
                }
                assert(text[n] == ':');
                lemma_last_index(text, ':', n);
                assert(text.subrange(n + 1, text.len() as int) =~= decimal(port as nat));
                assert(text.subrange(0, n) =~= host);
            },
            None => {
                assert(text =~= host);
                assert forall|j: int| -1 < j < text.len() implies text[j] != ':' by {
                    assert(host.contains(host[j]));
                }
                lemma_last_index(text, ':', -1);
            },
        }
    }
}

/// A destination can be read back from its text.
pub proof fn destinations_survive_text(destination: DestinationModel)
    requires
        is_legible(destination),
    ensures
        parsed_destination(destination_text(destination)) == Ok::<DestinationModel, Refusal>(
            destination,
        ),
{
    reveal_strlit("@");
    lemma_host(destination);
    let text = destination_text(destination);
    let host_text = destination_text(DestinationModel { user: None, ..destination });
    match destination.user {
        Some(user) => {
            let n = user.len() as int;
            assert(text =~= user + "@"@ + host_text);
            assert forall|j: int| 0 <= j < n implies text[j] != '@' by {
                assert(text[j] == user[j]);
                assert(user.contains(user[j]));
            }
            assert(text[n] == '@');
            lemma_is_first_index(text, '@', n);
            assert(text.subrange(0, n) =~= user);
            assert(text.subrange(n + 1, text.len() as int) =~= host_text);
        },
        None => {
            lemma_host_text_has_no(destination, '@');
            lemma_is_first_index(text, '@', text.len() as int);
        },
    }
}

/// The host and the port hold nothing else than the host, brackets, a colon and digits.
proof fn lemma_host_text_has_no(destination: DestinationModel, c: char)
    requires
        !destination.host.contains(c),
        c != ':' && c != '[' && c != ']' && !is_digit(c),
    ensures
        forall|j: int|
            0 <= j < destination_text(DestinationModel { user: None, ..destination }).len()
                ==> destination_text(DestinationModel { user: None, ..destination })[j] != c,
{
    reveal_strlit(":");
    reveal_strlit("[");
    reveal_strlit("]");
    let text = destination_text(DestinationModel { user: None, ..destination });
    let host = destination.host;
    let shown = if host.contains(':') {
        "["@ + host + "]"@
    } else {
        host
    };
    let port_text = match destination.port {
        Some(port) => ":"@ + decimal(port as nat),
        None => Seq::empty(),
    };
    if let Some(port) = destination.port {
        lemma_decimal(port as nat);
    }
    assert(text =~= shown + port_text);
    assert forall|j: int| 0 <= j < shown.len() implies shown[j] != c by {
        if host.contains(':') {
            if 0 < j < shown.len() - 1 {
                assert(shown[j] == host[j - 1]);
                assert(host.contains(host[j - 1]));
            }
        } else {
            assert(host.contains(host[j]));
        }
    }
    assert forall|j: int| 0 <= j < port_text.len() implies port_text[j] != c by {
        if j > 0 {
            assert(port_text[j] == decimal(destination.port->0 as nat)[j - 1]);
        }
    }
    assert forall|j: int| 0 <= j < text.len() implies text[j] != c by {
        if j < shown.len() {
            assert(text[j] == shown[j]);
        } else {
            assert(text[j] == port_text[j - shown.len()]);
        }
    }
}

/// A socket of this host or an address can be read back from its text.
pub proof fn direct_endpoints_survive_text(endpoint: EndpointModel, system: SystemFamily)
    requires
        match endpoint {
            EndpointModel::Unix(path) => system is Unix,
            EndpointModel::Tcp(AddrModel::V4 { octets, port }) => octets.len() == 4,
            EndpointModel::Tcp(AddrModel::V6 { segments, port, scope_id }) => segments.len() == 8,
            EndpointModel::Ssh { destination, remote, local, ssh_args } => false,
        },
    ensures
        parsed_endpoint(endpoint_text(endpoint), system) == Ok::<EndpointModel, Refusal>(endpoint),
{
    reveal_strlit("unix://");
    reveal_strlit("tcp://");
    reveal_strlit("tcp:");
    let text = endpoint_text(endpoint);
    match endpoint {
        EndpointModel::Unix(path) => {
            assert(text[0] == 'u');
            assert(!has_prefix(text, "tcp://"@)) by {
                if has_prefix(text, "tcp://"@) {
                    assert(text.subrange(0, 6)[0] == "tcp://"@[0]);
                }
            }
            assert(!has_prefix(text, "tcp:"@)) by {
                if has_prefix(text, "tcp:"@) {
                    assert(text.subrange(0, 4)[0] == "tcp:"@[0]);
                }
            }
            assert(text.subrange(0, 7) =~= "unix://"@);
            assert(without_prefix(text, "unix://"@) =~= path);
        },
        EndpointModel::Tcp(addr) => {
            assert(text.subrange(0, 6) =~= "tcp://"@);
            assert(without_prefix(text, "tcp://"@) =~= addr_text(addr));
            addresses_survive_text(addr);
        },
        _ => {},
    }
}

/// Whether the parts of an endpoint can be told apart in its text: no `?` or path where to log in,
/// and no `&` in what the query holds. Only systems that have Unix domain sockets read theirs.
pub open spec fn is_readable(endpoint: EndpointModel, system: SystemFamily) -> bool
    decreases endpoint,
{
    match endpoint {
        EndpointModel::Unix(path) => system is Unix,
        EndpointModel::Tcp(AddrModel::V4 { octets, port }) => octets.len() == 4,
        EndpointModel::Tcp(AddrModel::V6 { segments, port, scope_id }) => segments.len() == 8,
        EndpointModel::Ssh { destination, remote, local, ssh_args } => {
            &&& is_legible(destination)
            &&& !destination_text(destination).contains('?')
            &&& authority_and_path(destination_text(destination)).1 is None
            &&& is_readable(*remote, system)
            &&& !endpoint_text(*remote).contains('&')
            &&& local matches Some(local) ==> is_readable(*local, system) && !endpoint_text(
                *local,
            ).contains('&')
            &&& without(ssh_args, '&')
        },
    }
}

spec fn arg_items(ssh_args: Seq<Seq<char>>) -> Seq<Seq<char>> {
    Seq::new(ssh_args.len(), |i: int| "ssh-arg="@ + ssh_args[i])
}

/// An item that is a key and a value.
proof fn lemma_item(query: QueryModel, key: Seq<char>, value: Seq<char>)
    requires
        key == "remote"@ || key == "local"@ || key == "ssh-arg"@,
        !value.contains('&'),
    ensures
        ({
            let item = key + "="@ + value;
            &&& !item.contains('&')
            &&& query_item(query, item) == Ok::<QueryModel, Refusal>(
                if key == "remote"@ {
                    QueryModel { remote: Some(value), ..query }
                } else if key == "local"@ {
                    QueryModel { local: Some(value), ..query }
                } else {
                    QueryModel { ssh_args: query.ssh_args.push(value), ..query }
                },
            )
        }),
{
    reveal_strlit("remote");
    reveal_strlit("local");
    reveal_strlit("ssh-arg");
    reveal_strlit("=");
    let item = key + "="@ + value;
    let n = key.len() as int;
    assert forall|j: int| 0 <= j < n implies key[j] != '=' && key[j] != '&' by {}
    assert forall|j: int| 0 <= j < n implies item[j] != '=' by {
        assert(item[j] == key[j]);
    }
    assert(item[n] == '=');
    lemma_is_first_index(item, '=', n);
    assert(item.subrange(0, n) =~= key);
    assert(item.subrange(n + 1, item.len() as int) =~= value);
    assert forall|j: int| 0 <= j < item.len() implies item[j] != '&' by {
        if j < n {
            assert(item[j] == key[j]);
        } else if j > n {
            assert(item[j] == value[j - n - 1]);
            assert(value.contains(value[j - n - 1]));
        }
    }
}

/// Arguments behind other items of a query.
proof fn lemma_args(start: QueryModel, items: Seq<Seq<char>>, ssh_args: Seq<Seq<char>>)
    requires
        items.len() > 0,
        without(items, '&'),
        without(ssh_args, '&'),
        query_items(start, items) matches Ok(query) && query.ssh_args.len() == 0,
    ensures
        ({
            let all = items + arg_items(ssh_args);
            &&& without(all, '&')
            &&& join(all, '&') == join(items, '&') + args_text(ssh_args)
            &&& query_items(start, all) == Ok::<QueryModel, Refusal>(
                QueryModel { ssh_args, ..query_items(start, items)->Ok_0 },
            )
        }),
    decreases ssh_args.len(),
{
    let all = items + arg_items(ssh_args);
    if ssh_args.len() == 0 {
        assert(all =~= items);
        assert(ssh_args =~= query_items(start, items)->Ok_0.ssh_args);
        assert(join(items, '&') + args_text(ssh_args) =~= join(items, '&'));
    } else {
        reveal_strlit("ssh-arg=");
        reveal_strlit("&ssh-arg=");
        reveal_strlit("ssh-arg");
        reveal_strlit("=");
        let fewer = ssh_args.drop_last();
        assert forall|i: int| 0 <= i < fewer.len() implies !(#[trigger] fewer[i]).contains(
            '&',
        ) by {
            assert(fewer[i] == ssh_args[i]);
        }
        lemma_args(start, items, fewer);
        let before = items + arg_items(fewer);
        let last = ssh_args.last();
        let item = "ssh-arg="@ + last;
        assert(item =~= "ssh-arg"@ + "="@ + last);
        let query = query_items(start, before)->Ok_0;
        lemma_item(query, "ssh-arg"@, last);
        reveal_strlit("remote");
        reveal_strlit("local");
        assert("ssh-arg"@.len() == 7 && "remote"@.len() == 6 && "local"@.len() == 5);
        assert(all.drop_last() =~= before);
        assert(all.last() == item);
        assert(fewer.push(last) =~= ssh_args);
        assert forall|i: int| 0 <= i < all.len() implies !(#[trigger] all[i]).contains('&') by {
            if i < before.len() {
                assert(all[i] == before[i]);
            }
        }
        lemma_join_push(all, '&');
        assert(join(all, '&') =~= join(items, '&') + args_text(ssh_args));
    }
}

/// Every endpoint whose parts can be told apart can be read back from its text.
pub proof fn endpoints_survive_text(endpoint: EndpointModel, system: SystemFamily)
    requires
        is_readable(endpoint, system),
    ensures
        parsed_endpoint(endpoint_text(endpoint), system) == Ok::<EndpointModel, Refusal>(endpoint),
    decreases endpoint,
{
    match endpoint {
        EndpointModel::Ssh { destination, remote, local, ssh_args } => {
            endpoints_survive_text(*remote, system);
            if let Some(local) = local {
                endpoints_survive_text(*local, system);
            }
            lemma_ssh(destination, remote, local, ssh_args, system);
        },
        _ => {
            direct_endpoints_survive_text(endpoint, system);
        },
    }
}

spec fn query_text(
    remote: Seq<char>,
    local: Option<Seq<char>>,
    ssh_args: Seq<Seq<char>>,
) -> Seq<char> {
    "remote="@ + remote + (match local {
        Some(text) => "&local="@ + text,
        None => Seq::empty(),
    }) + args_text(ssh_args)
}

/// The query of an endpoint: what it is cut into, and what it says.
proof fn lemma_query(
    remote: Seq<char>,
    local: Option<Seq<char>>,
    ssh_args: Seq<Seq<char>>,
)
    requires
        !remote.contains('&'),
        local matches Some(text) ==> !text.contains('&'),
        without(ssh_args, '&'),
    ensures
        ({
            let text = query_text(remote, local, ssh_args);
            let start = QueryModel { remote: None, local: None, ssh_args: Seq::empty() };
            query_items(start, split(text, '&')) == Ok::<QueryModel, Refusal>(
                QueryModel { remote: Some(remote), local, ssh_args },
            )
        }),
{
    reveal_strlit("remote=");
    reveal_strlit("&local=");
    reveal_strlit("remote");
    reveal_strlit("local");
    reveal_strlit("=");
    let start = QueryModel { remote: None, local: None, ssh_args: Seq::empty() };
    let first = "remote"@ + "="@ + remote;
    assert(first =~= "remote="@ + remote);
    lemma_item(start, "remote"@, remote);
    let one = seq![first];
    assert(one.drop_last() =~= Seq::empty());
    assert(one.last() == first);
    let query = QueryModel { remote: Some(remote), local: None, ssh_args: Seq::empty() };
    assert(query_items(start, one.drop_last()) == Ok::<QueryModel, Refusal>(start));
    assert(query_items(start, one) == Ok::<QueryModel, Refusal>(query));
    assert(join(one, '&') == first);
    assert(without(one, '&'));
    match local {
        Some(text) => {
            let second = "local"@ + "="@ + text;
            lemma_item(query, "local"@, text);
            assert("remote"@.len() == 6 && "local"@.len() == 5);
            let two = seq![first, second];
            assert(two.drop_last() =~= one);
            assert(two.last() == second);
            lemma_join_push(two, '&');
            assert(without(two, '&'));
            lemma_args(start, two, ssh_args);
            let all = two + arg_items(ssh_args);
            split_undoes_join(all, '&');
            assert(join(all, '&') =~= "remote="@ + remote + ("&local="@ + text) + args_text(
                ssh_args,
            ));
        },
        None => {
            lemma_args(start, one, ssh_args);
            let all = one + arg_items(ssh_args);
            split_undoes_join(all, '&');
            assert(join(all, '&') =~= "remote="@ + remote + Seq::<char>::empty() + args_text(
                ssh_args,
            ));
        },
    }
}

proof fn lemma_ssh(
    destination: DestinationModel,
    remote: Box<EndpointModel>,
    local: Option<Box<EndpointModel>>,
    ssh_args: Seq<Seq<char>>,
    system: SystemFamily,
)
    requires
        is_readable(EndpointModel::Ssh { destination, remote, local, ssh_args }, system),
        parsed_endpoint(endpoint_text(*remote), system) == Ok::<EndpointModel, Refusal>(*remote),
        local matches Some(local) ==> parsed_endpoint(endpoint_text(*local), system) == Ok::<
            EndpointModel,
            Refusal,
        >(*local),
    ensures
        ({
            let endpoint = EndpointModel::Ssh { destination, remote, local, ssh_args };
            parsed_endpoint(endpoint_text(endpoint), system) == Ok::<EndpointModel, Refusal>(endpoint)
        }),
{
    let endpoint = EndpointModel::Ssh { destination, remote, local, ssh_args };
    let text = endpoint_text(endpoint);
    let front = destination_text(destination);
    let local_text = match local {
        Some(local) => Some(endpoint_text(*local)),
        None => None,
    };
    let query = query_text(endpoint_text(*remote), local_text, ssh_args);
    let rest = front + "?"@ + query;
    lemma_query(endpoint_text(*remote), local_text, ssh_args);
    destinations_survive_text(destination);
    lemma_ssh_text(front, endpoint_text(*remote), local_text, ssh_args);
    lemma_parts(front, query);
    lemma_parsed_ssh(
        text,
        rest,
        destination,
        QueryModel { remote: Some(endpoint_text(*remote)), local: local_text, ssh_args },
        *remote,
        local,
        system,
    );
}

/// The text of an endpoint behind its scheme.
proof fn lemma_ssh_text(
    front: Seq<char>,
    remote: Seq<char>,
    local: Option<Seq<char>>,
    ssh_args: Seq<Seq<char>>,
)
    ensures
        ({
            let text = "ssh://"@ + front + "?remote="@ + remote + (match local {
                Some(text) => "&local="@ + text,
                None => Seq::empty(),
            }) + args_text(ssh_args);
            let rest = front + "?"@ + query_text(remote, local, ssh_args);
            &&& has_prefix(text, "ssh://"@)
            &&& without_prefix(text, "ssh://"@) == rest
        }),
{
    let tail = (match local {
        Some(text) => "&local="@ + text,
        None => Seq::empty(),
    });
    let text = "ssh://"@ + front + "?remote="@ + remote + tail + args_text(ssh_args);
    let rest = front + "?"@ + query_text(remote, local, ssh_args);
    reveal_strlit("?remote=");
    reveal_strlit("remote=");
    reveal_strlit("?");
    assert("?"@ + "remote="@ =~= "?remote="@);
    assert(rest =~= front + ("?"@ + "remote="@) + remote + tail + args_text(ssh_args));
    assert(text =~= "ssh://"@ + rest);
    assert(text.subrange(0, "ssh://"@.len() as int) =~= "ssh://"@);
    assert(without_prefix(text, "ssh://"@) =~= rest);
}

/// An endpoint whose parts are read.
proof fn lemma_parsed_ssh(
    text: Seq<char>,
    rest: Seq<char>,
    destination: DestinationModel,
    query: QueryModel,
    remote: EndpointModel,
    local: Option<Box<EndpointModel>>,
    system: SystemFamily,
)
    requires
        has_prefix(text, "ssh://"@),
        without_prefix(text, "ssh://"@) == rest,
        parsed_destination(authority_and_path(before_query(rest)).0) == Ok::<
            DestinationModel,
            Refusal,
        >(destination),
        whole_query(rest) == Ok::<QueryModel, Refusal>(query),
        query.remote matches Some(remote_text) && parsed_endpoint(remote_text, system) == Ok::<
            EndpointModel,
            Refusal,
        >(remote),
        match (query.local, local) {
            (Some(local_text), Some(local)) => parsed_endpoint(local_text, system) == Ok::<
                EndpointModel,
                Refusal,
            >(*local),
            (None, None) => true,
            _ => false,
        },
    ensures
        parsed_endpoint(text, system) == Ok::<EndpointModel, Refusal>(
            EndpointModel::Ssh {
                destination,
                remote: Box::new(remote),
                local,
                ssh_args: query.ssh_args,
            },
        ),
{
    lemma_no_other_scheme(text);
}

/// Where to log in, and the query.
proof fn lemma_parts(front: Seq<char>, query: Seq<char>)
    requires
        !front.contains('?'),
        authority_and_path(front).1 is None,
    ensures
        ({
            let rest = front + "?"@ + query;
            &&& before_query(rest) == front
            &&& authority_and_path(front).0 == front
            &&& whole_query(rest) == query_items(
                QueryModel { remote: None, local: None, ssh_args: Seq::empty() },
                split(query, '&'),
            )
        }),
{
    reveal_strlit("?");
    let rest = front + "?"@ + query;
    let n = front.len() as int;
    assert forall|j: int| 0 <= j < n implies rest[j] != '?' by {
        assert(rest[j] == front[j]);
        assert(front.contains(front[j]));
    }
    assert(rest[n] == '?');
    lemma_is_first_index(rest, '?', n);
    assert(before_query(rest) =~= front);
    assert(rest.subrange(n + 1, rest.len() as int) =~= query);
}

/// What begins with `ssh://` begins with nothing else that endpoints begin with.
proof fn lemma_no_other_scheme(text: Seq<char>)
    requires
        has_prefix(text, "ssh://"@),
    ensures
        !has_prefix(text, "tcp://"@),
        !has_prefix(text, "tcp:"@),
        !has_prefix(text, "unix://"@),
        !has_prefix(text, "unix:"@),
{
    reveal_strlit("ssh://");
    reveal_strlit("unix://");
    reveal_strlit("unix:");
    reveal_strlit("tcp://");
    reveal_strlit("tcp:");
    assert(text.subrange(0, 6)[0] == 's');
    assert(text[0] == 's');
    if has_prefix(text, "tcp://"@) {
        assert(text.subrange(0, 6)[0] == 't');
    }
    if has_prefix(text, "tcp:"@) {
        assert(text.subrange(0, 4)[0] == 't');
    }
    if has_prefix(text, "unix://"@) {
        assert(text.subrange(0, 7)[0] == 'u');
    }
    if has_prefix(text, "unix:"@) {
        assert(text.subrange(0, 5)[0] == 'u');
    }
}

} // verus!
