//! Where a server can be reached, and the text of it.
use crate::error::{views, Error, ForeignError};
use crate::models::surface_model::{clone_text, text_view};
use crate::utils::socket_addr::{parsed_addr, AddrModel, SocketAddr};
use crate::utils::split::{lists, part, split, split_chars};
use crate::utils::system::SystemFamily;
use crate::utils::text::{
    chars_of, debug_text, digits_value, first_index, has_prefix, index_of, is_digit,
    lemma_first_index, lemma_is_first_index, owned, parse_number, parsed_number, quoted, same_text, strip_prefix, text_of,
    without_prefix,
};
use vstd::prelude::*;

verus! {

/// Where to log in.
#[derive(Debug, PartialEq, Eq)]
pub struct SshDestination {
    pub user: Option<String>,
    pub host: String,
    pub port: Option<u16>,
}

#[derive(Debug, PartialEq, Eq)]
pub enum Endpoint {
    /// A Unix domain socket. Preferred for local connections.
    Unix { path: String },
    /// A TCP address. Others than those of the host itself are unsafe unless authentication and
    /// encryption are added at a higher layer.
    Tcp { addr: SocketAddr },
    /// A socket of another host that `ssh` forwards to a local one.
    Ssh {
        destination: SshDestination,
        remote: Box<Endpoint>,
        local: Option<Box<Endpoint>>,
        ssh_args: Vec<String>,
    },
}

#[verifier::ext_equal]
pub struct DestinationModel {
    pub user: Option<Seq<char>>,
    pub host: Seq<char>,
    pub port: Option<u16>,
}

#[verifier::ext_equal]
pub enum EndpointModel {
    Unix(Seq<char>),
    Tcp(AddrModel),
    Ssh {
        destination: DestinationModel,
        remote: Box<EndpointModel>,
        local: Option<Box<EndpointModel>>,
        ssh_args: Seq<Seq<char>>,
    },
}

impl View for SshDestination {
    type V = DestinationModel;

    open spec fn view(&self) -> DestinationModel {
        DestinationModel {
            user: text_view(self.user),
            host: self.host@,
            port: self.port,
        }
    }
}

pub open spec fn endpoint_model(endpoint: Endpoint) -> EndpointModel
    decreases endpoint,
{
    match endpoint {
        Endpoint::Unix { path } => EndpointModel::Unix(path@),
        Endpoint::Tcp { addr } => EndpointModel::Tcp(addr@),
        Endpoint::Ssh { destination, remote, local, ssh_args } => EndpointModel::Ssh {
            destination: destination@,
            remote: Box::new(endpoint_model(*remote)),
            local: match local {
                Some(local) => Some(Box::new(endpoint_model(*local))),
                None => None,
            },
            ssh_args: views(ssh_args@),
        },
    }
}

impl View for Endpoint {
    type V = EndpointModel;

    open spec fn view(&self) -> EndpointModel {
        endpoint_model(*self)
    }
}

impl Clone for SshDestination {
    fn clone(&self) -> (r: Self)
        ensures
            r@ == self@,
    {
        SshDestination {
            user: clone_text(&self.user),
            host: owned(self.host.as_str()),
            port: self.port,
        }
    }
}

fn clone_texts(texts: &Vec<String>) -> (r: Vec<String>)
    ensures
        views(r@) == views(texts@),
{
    let mut out: Vec<String> = Vec::new();
    let mut i: usize = 0;
    while i < texts.len()
        invariant
            i <= texts@.len(),
            out@.len() == i,
            forall|j: int| 0 <= j < i ==> (#[trigger] out@[j])@ == texts@[j]@,
        decreases texts@.len() - i,
    {
        out.push(owned(texts[i].as_str()));
        i = i + 1;
    }
    assert(views(out@) =~= views(texts@));
    out
}

fn clone_endpoint(endpoint: &Endpoint) -> (r: Endpoint)
    ensures
        r@ == endpoint@,
    decreases endpoint,
{
    match endpoint {
        Endpoint::Unix { path } => Endpoint::Unix { path: owned(path.as_str()) },
        Endpoint::Tcp { addr } => Endpoint::Tcp { addr: *addr },
        Endpoint::Ssh { destination, remote, local, ssh_args } => {
            let remote = clone_endpoint(remote);
            let local = match local {
                Some(local) => Some(Box::new(clone_endpoint(local))),
                None => None,
            };
            Endpoint::Ssh {
                destination: destination.clone(),
                remote: Box::new(remote),
                local,
                ssh_args: clone_texts(ssh_args),
            }
        },
    }
}

impl Clone for Endpoint {
    fn clone(&self) -> (r: Self)
        ensures
            r@ == self@,
    {
        clone_endpoint(self)
    }
}

/// Why a text is no endpoint.
pub enum Refusal {
    Text(Seq<char>),
    /// Something is wrong with a number.
    Number(Seq<char>),
}

pub open spec fn tells(err: Error, refusal: Refusal) -> bool {
    match refusal {
        Refusal::Text(text) => err matches Error::Message(message) && message@ == text,
        Refusal::Number(text) => err matches Error::ParseInt(foreign) && foreign.message@ == text,
    }
}

/// Whether every character is a decimal digit.
pub open spec fn all_digits(text: Seq<char>) -> bool {
    forall|i: int| 0 <= i < text.len() ==> is_digit(#[trigger] text[i])
}

/// The number of digits with which a text begins.
pub open spec fn digit_count(text: Seq<char>) -> int
    decreases text.len(),
{
    if text.len() == 0 || !is_digit(text[0]) {
        0
    } else {
        1 + digit_count(text.subrange(1, text.len() as int))
    }
}

/// What is wrong with a text that is no number up to `max`.
pub open spec fn number_fault(text: Seq<char>, max: int) -> Seq<char> {
    let digits = if text.len() > 0 && text[0] == '+' {
        text.subrange(1, text.len() as int)
    } else {
        text
    };
    if text.len() == 0 {
        "cannot parse integer from empty string"@
    } else if digits_value(digits.subrange(0, digit_count(digits))) matches Some(n) && n > max {
        "number too large to fit in target type"@
    } else {
        "invalid digit found in string"@
    }
}

pub open spec fn parsed_port(text: Seq<char>) -> Result<u16, Refusal> {
    match parsed_number(text, 65535) {
        Some(n) => Ok(n as u16),
        None => Err(Refusal::Number(number_fault(text, 65535))),
    }
}

/// The position of the last `c` in a text, or -1.
pub open spec fn last_index(text: Seq<char>, c: char) -> int
    decreases text.len(),
{
    if text.len() == 0 {
        -1
    } else if text.last() == c {
        text.len() - 1
    } else {
        last_index(text.drop_last(), c)
    }
}

/// A host and a port. A host that holds colons stands in brackets.
pub open spec fn parsed_host(text: Seq<char>) -> Result<(Seq<char>, Option<u16>), Refusal> {
    if text.len() > 0 && text[0] == '[' {
        let inner = text.subrange(1, text.len() as int);
        let end = first_index(inner, ']');
        if end >= inner.len() {
            Err(Refusal::Text("invalid ssh host "@ + debug_text(text) + " (missing ']')"@))
        } else {
            let host = inner.subrange(0, end);
            let rest = inner.subrange(end + 1, inner.len() as int);
            if rest.len() > 0 && rest[0] == ':' {
                match parsed_port(rest.subrange(1, rest.len() as int)) {
                    Ok(port) => Ok((host, Some(port))),
                    Err(refusal) => Err(refusal),
                }
            } else {
                Ok((host, None))
            }
        }
    } else {
        let colon = last_index(text, ':');
        if colon > 0 && all_digits(text.subrange(colon + 1, text.len() as int)) {
            match parsed_port(text.subrange(colon + 1, text.len() as int)) {
                Ok(port) => Ok((text.subrange(0, colon), Some(port))),
                Err(refusal) => Err(refusal),
            }
        } else {
            Ok((text, None))
        }
    }
}

/// A destination: `host`, `user@host`, `host:22`, `user@[::1]:22`.
pub open spec fn parsed_destination(text: Seq<char>) -> Result<DestinationModel, Refusal> {
    let at = first_index(text, '@');
    let user = if at < text.len() {
        Some(text.subrange(0, at))
    } else {
        None
    };
    let host_text = if at < text.len() {
        text.subrange(at + 1, text.len() as int)
    } else {
        text
    };
    match parsed_host(host_text) {
        Ok((host, port)) => if host.len() == 0 {
            Err(Refusal::Text("ssh destination host is empty"@))
        } else {
            Ok(DestinationModel { user, host, port })
        },
        Err(refusal) => Err(refusal),
    }
}

/// What the query of an endpoint says.
#[verifier::ext_equal]
pub struct QueryModel {
    pub remote: Option<Seq<char>>,
    pub local: Option<Seq<char>>,
    pub ssh_args: Seq<Seq<char>>,
}

/// A query after one more item, `key=value`. Later items win over earlier ones.
pub open spec fn query_item(query: QueryModel, item: Seq<char>) -> Result<QueryModel, Refusal> {
    let at = first_index(item, '=');
    if item.len() == 0 {
        Ok(query)
    } else if at >= item.len() {
        Err(
            Refusal::Text(
                "invalid ssh endpoint query item "@ + debug_text(item) + " (expected k=v)"@,
            ),
        )
    } else {
        let key = item.subrange(0, at);
        let value = item.subrange(at + 1, item.len() as int);
        if key == "remote"@ {
            Ok(QueryModel { remote: Some(value), ..query })
        } else if key == "local"@ {
            Ok(QueryModel { local: Some(value), ..query })
        } else if key == "ssh-arg"@ {
            Ok(QueryModel { ssh_args: query.ssh_args.push(value), ..query })
        } else {
            Err(
                Refusal::Text(
                    "unknown ssh endpoint query key "@ + debug_text(key)
                        + " (expected: remote|local|ssh-arg)"@,
                ),
            )
        }
    }
}

pub open spec fn query_items(query: QueryModel, items: Seq<Seq<char>>) -> Result<
    QueryModel,
    Refusal,
>
    decreases items.len(),
{
    if items.len() == 0 {
        Ok(query)
    } else {
        match query_items(query, items.drop_last()) {
            Ok(query) => query_item(query, items.last()),
            Err(refusal) => Err(refusal),
        }
    }
}

/// What stands in front of the query.
pub open spec fn before_query(rest: Seq<char>) -> Seq<char> {
    let mark = first_index(rest, '?');
    if mark < rest.len() {
        rest.subrange(0, mark)
    } else {
        rest
    }
}

/// Where to log in, and the path behind it, if there is one.
pub open spec fn authority_and_path(text: Seq<char>) -> (Seq<char>, Option<Seq<char>>) {
    let slash = first_index(text, '/');
    if slash + 1 < text.len() {
        (text.subrange(0, slash), Some(text.subrange(slash + 1, text.len() as int)))
    } else {
        (text, None)
    }
}

/// What the path and the query say together.
pub open spec fn whole_query(rest: Seq<char>) -> Result<QueryModel, Refusal> {
    let mark = first_index(rest, '?');
    let start = QueryModel {
        remote: authority_and_path(before_query(rest)).1,
        local: None,
        ssh_args: Seq::empty(),
    };
    if mark < rest.len() {
        query_items(start, split(rest.subrange(mark + 1, rest.len() as int), '&'))
    } else {
        Ok(start)
    }
}

pub open spec fn parsed_tcp(rest: Seq<char>) -> Result<EndpointModel, Refusal> {
    match parsed_addr(rest) {
        Some(addr) => Ok(EndpointModel::Tcp(addr)),
        None => Err(
            Refusal::Text(
                "invalid tcp endpoint "@ + debug_text(rest) + ": invalid socket address syntax"@,
            ),
        ),
    }
}

/// The endpoint that a text stands for: `tcp://ADDR`, `tcp:ADDR`, `unix://PATH`, `unix:PATH`,
/// `ssh://...`, or else a path. Systems without Unix domain sockets read neither `unix://PATH` nor a
/// mere path.
pub open spec fn parsed_endpoint(text: Seq<char>, system: SystemFamily) -> Result<EndpointModel, Refusal>
    decreases text.len(),
    via parsed_endpoint_decreases
{
    if has_prefix(text, "tcp://"@) {
        parsed_tcp(without_prefix(text, "tcp://"@))
    } else if has_prefix(text, "tcp:"@) {
        parsed_tcp(without_prefix(text, "tcp:"@))
    } else if has_prefix(text, "unix://"@) {
        match system {
            SystemFamily::Unix => Ok(EndpointModel::Unix(without_prefix(text, "unix://"@))),
            SystemFamily::Other => Err(
                Refusal::Text("unix endpoint is not supported on this platform"@),
            ),
        }
    } else if has_prefix(text, "unix:"@) {
        Ok(EndpointModel::Unix(without_prefix(text, "unix:"@)))
    } else if has_prefix(text, "ssh://"@) {
        let rest = without_prefix(text, "ssh://"@);
        match (
            parsed_destination(authority_and_path(before_query(rest)).0),
            whole_query(rest),
        ) {
            (Err(refusal), _) => Err(refusal),
            (_, Err(refusal)) => Err(refusal),
            (Ok(destination), Ok(query)) => match query.remote {
                None => Err(
                    Refusal::Text(
                        "ssh endpoint requires remote=<endpoint> or ssh://HOST/<endpoint>"@,
                    ),
                ),
                Some(remote_text) => match parsed_endpoint(remote_text, system) {
                    Err(refusal) => Err(refusal),
                    Ok(remote) => match query.local {
                        None => Ok(
                            EndpointModel::Ssh {
                                destination,
                                remote: Box::new(remote),
                                local: None,
                                ssh_args: query.ssh_args,
                            },
                        ),
                        Some(local_text) => match parsed_endpoint(local_text, system) {
                            Err(refusal) => Err(refusal),
                            Ok(local) => Ok(
                                EndpointModel::Ssh {
                                    destination,
                                    remote: Box::new(remote),
                                    local: Some(Box::new(local)),
                                    ssh_args: query.ssh_args,
                                },
                            ),
                        },
                    },
                },
            },
        }
    } else {
        match system {
            SystemFamily::Unix => Ok(EndpointModel::Unix(text)),
            SystemFamily::Other => Err(
                Refusal::Text(
                    "invalid endpoint "@ + debug_text(text) + " (expected: tcp:IP:PORT)"@,
                ),
            ),
        }
    }
}

spec fn shorter(text: Option<Seq<char>>, len: nat) -> bool {
    text matches Some(t) ==> t.len() <= len
}

proof fn lemma_item_lengths(query: QueryModel, item: Seq<char>, len: nat)
    requires
        shorter(query.remote, len),
        shorter(query.local, len),
        item.len() <= len,
    ensures
        query_item(query, item) matches Ok(q) ==> shorter(q.remote, len) && shorter(q.local, len),
{
    lemma_first_index(item, '=');
}

proof fn lemma_piece_lengths(text: Seq<char>, c: char)
    ensures
        forall|i: int|
            0 <= i < split(text, c).len() ==> (#[trigger] split(text, c)[i]).len() <= text.len(),
    decreases text.len(),
{
    lemma_first_index(text, c);
    let at = first_index(text, c);
    if at < text.len() {
        let rest = text.subrange(at + 1, text.len() as int);
        lemma_piece_lengths(rest, c);
        assert forall|i: int| 0 <= i < split(text, c).len() implies (#[trigger] split(
            text,
            c,
        )[i]).len() <= text.len() by {
            if i > 0 {
                assert(split(text, c)[i] == split(rest, c)[i - 1]);
            }
        }
    }
}

proof fn lemma_items_lengths(query: QueryModel, items: Seq<Seq<char>>, len: nat)
    requires
        shorter(query.remote, len),
        shorter(query.local, len),
        forall|i: int| 0 <= i < items.len() ==> (#[trigger] items[i]).len() <= len,
    ensures
        query_items(query, items) matches Ok(q) ==> shorter(q.remote, len) && shorter(q.local, len),
    decreases items.len(),
{
    if items.len() > 0 {
        lemma_items_lengths(query, items.drop_last(), len);
        if let Ok(q) = query_items(query, items.drop_last()) {
            assert(items.last().len() <= len);
            lemma_item_lengths(q, items.last(), len);
        }
    }
}

proof fn lemma_query_lengths(rest: Seq<char>)
    ensures
        whole_query(rest) matches Ok(q) ==> shorter(q.remote, rest.len()) && shorter(
            q.local,
            rest.len(),
        ),
{
    lemma_first_index(rest, '?');
    lemma_first_index(before_query(rest), '/');
    let mark = first_index(rest, '?');
    if mark < rest.len() {
        let query = rest.subrange(mark + 1, rest.len() as int);
        lemma_piece_lengths(query, '&');
        lemma_items_lengths(
            QueryModel {
                remote: authority_and_path(before_query(rest)).1,
                local: None,
                ssh_args: Seq::empty(),
            },
            split(query, '&'),
            rest.len(),
        );
    }
}

#[via_fn]
proof fn parsed_endpoint_decreases(text: Seq<char>, system: SystemFamily) {
    reveal_strlit("ssh://");
    if has_prefix(text, "ssh://"@) {
        lemma_query_lengths(without_prefix(text, "ssh://"@));
    }
}

proof fn lemma_digit_count(text: Seq<char>)
    ensures
        0 <= digit_count(text) <= text.len(),
        forall|i: int| 0 <= i < digit_count(text) ==> is_digit(#[trigger] text[i]),
        digit_count(text) < text.len() ==> !is_digit(text[digit_count(text)]),
    decreases text.len(),
{
    if text.len() > 0 && is_digit(text[0]) {
        let rest = text.subrange(1, text.len() as int);
        lemma_digit_count(rest);
        assert forall|i: int| 0 <= i < digit_count(text) implies is_digit(#[trigger] text[i]) by {
            if i > 0 {
                assert(rest[i - 1] == text[i]);
            }
        }
    }
}

fn count_digits(text: &Vec<char>) -> (r: usize)
    ensures
        r == digit_count(text@),
        r <= text@.len(),
{
    let mut i: usize = 0;
    while i < text.len() && '0' <= text[i] && text[i] <= '9'
        invariant
            i <= text@.len(),
            forall|j: int| 0 <= j < i ==> is_digit(#[trigger] text@[j]),
        decreases text@.len() - i,
    {
        i = i + 1;
    }
    proof {
        lemma_digit_count(text@);
        let n = digit_count(text@);
        if n < i {
            assert(is_digit(text@[n]));
        }
    }
    i
}

proof fn lemma_digits_have_value(text: Seq<char>)
    requires
        all_digits(text),
        text.len() > 0,
    ensures
        digits_value(text) is Some,
    decreases text.len(),
{
    if text.len() > 1 {
        assert forall|i: int| 0 <= i < text.drop_last().len() implies is_digit(
            #[trigger] text.drop_last()[i],
        ) by {
            assert(text.drop_last()[i] == text[i]);
        }
        lemma_digits_have_value(text.drop_last());
    }
}

/// What is wrong with a text that is no port.
fn port_fault(text: &Vec<char>) -> (r: String)
    ensures
        r@ == number_fault(text@, 65535),
{
    if text.len() == 0 {
        return owned("cannot parse integer from empty string");
    }
    let digits = if text[0] == '+' {
        part(text, 1, text.len())
    } else {
        part(text, 0, text.len())
    };
    assert(text@.subrange(0, text@.len() as int) =~= text@);
    let n: usize = count_digits(&digits);
    let prefix = part(&digits, 0, n);
    proof {
        lemma_digit_count(digits@);
        if n > 0 {
            assert forall|i: int| 0 <= i < prefix@.len() implies is_digit(
                #[trigger] prefix@[i],
            ) by {
                assert(prefix@[i] == digits@[i]);
            }
            lemma_digits_have_value(prefix@);
        }
        assert(prefix@.subrange(0, prefix@.len() as int) =~= prefix@);
    }
    if n > 0 && crate::utils::text::parse_digits(&prefix, 0, 65535).is_none() {
        owned("number too large to fit in target type")
    } else {
        owned("invalid digit found in string")
    }
}

fn read_port(text: &Vec<char>) -> (r: Result<u16, Error>)
    ensures
        match parsed_port(text@) {
            Ok(port) => r == Ok::<u16, Error>(port),
            Err(refusal) => r matches Err(err) && tells(err, refusal),
        },
{
    match parse_number(text_of(text).as_str(), 65535) {
        Some(n) => Ok(n as u16),
        None => Err(
            Error::ParseInt(ForeignError { message: port_fault(text), causes: Vec::new() }),
        ),
    }
}

/// The place of the last `c`, counted from one; zero where there is none.
fn behind_last(text: &Vec<char>, c: char) -> (r: usize)
    ensures
        r == last_index(text@, c) + 1,
        r <= text@.len(),
{
    let mut n: usize = text.len();
    assert(text@.subrange(0, n as int) =~= text@);
    while n > 0
        invariant
            n <= text@.len(),
            last_index(text@.subrange(0, n as int), c) == last_index(text@, c),
        decreases n,
    {
        let ghost so_far = text@.subrange(0, n as int);
        assert(so_far.last() == text@[n - 1]);
        if text[n - 1] == c {
            return n;
        }
        assert(so_far.drop_last() =~= text@.subrange(0, n - 1));
        n = n - 1;
    }
    0
}

fn read_host(text: &Vec<char>) -> (r: Result<(Vec<char>, Option<u16>), Error>)
    ensures
        match parsed_host(text@) {
            Ok((host, port)) => r matches Ok((h, p)) && h@ == host && p == port,
            Err(refusal) => r matches Err(err) && tells(err, refusal),
        },
{
    if text.len() > 0 && text[0] == '[' {
        let inner = part(text, 1, text.len());
        let end: usize = index_of(&inner, ']');
        if end == inner.len() {
            let mut message = owned("invalid ssh host ");
            message.append(quoted(text_of(text).as_str()).as_str());
            message.append(" (missing ']')");
            return Err(Error::Message(message));
        }
        let host = part(&inner, 0, end);
        let rest = part(&inner, end + 1, inner.len());
        if rest.len() > 0 && rest[0] == ':' {
            match read_port(&part(&rest, 1, rest.len())) {
                Ok(port) => Ok((host, Some(port))),
                Err(err) => Err(err),
            }
        } else {
            Ok((host, None))
        }
    } else {
        let behind: usize = behind_last(text, ':');
        if behind > 1 {
            let port_text = part(text, behind, text.len());
            proof {
                lemma_digit_count(port_text@);
                if all_digits(port_text@) && digit_count(port_text@) < port_text@.len() {
                    assert(is_digit(port_text@[digit_count(port_text@)]));
                }
            }
            if count_digits(&port_text) == port_text.len() {
                return match read_port(&port_text) {
                    Ok(port) => Ok((part(text, 0, behind - 1), Some(port))),
                    Err(err) => Err(err),
                };
            }
        }
        assert(text@.subrange(0, text@.len() as int) =~= text@);
        Ok((part(text, 0, text.len()), None))
    }
}

/// Reads where to log in.
pub fn parse_ssh_destination(authority: &str) -> (r: Result<SshDestination, Error>)
    ensures
        match parsed_destination(authority@) {
            Ok(destination) => r matches Ok(d) && d@ == destination,
            Err(refusal) => r matches Err(err) && tells(err, refusal),
        },
{
    let chars = chars_of(authority);
    let at: usize = index_of(&chars, '@');
    let (user, host_text) = if at < chars.len() {
        (Some(text_of(&part(&chars, 0, at))), part(&chars, at + 1, chars.len()))
    } else {
        (None, part(&chars, 0, at))
    };
    assert(at == chars@.len() ==> chars@.subrange(0, at as int) =~= chars@);
    match read_host(&host_text) {
        Ok((host, port)) => if host.len() == 0 {
            Err(Error::Message(owned("ssh destination host is empty")))
        } else {
            Ok(SshDestination { user, host: text_of(&host), port })
        },
        Err(err) => Err(err),
    }
}

struct Query {
    remote: Option<String>,
    local: Option<String>,
    ssh_args: Vec<String>,
}

impl Query {
    closed spec fn model(&self) -> QueryModel {
        QueryModel {
            remote: text_view(self.remote),
            local: text_view(self.local),
            ssh_args: views(self.ssh_args@),
        }
    }

    fn item(&mut self, item: &Vec<char>) -> (r: Result<(), Error>)
        ensures
            match query_item(old(self).model(), item@) {
                Ok(query) => r is Ok && final(self).model() == query,
                Err(refusal) => r matches Err(err) && tells(err, refusal),
            },
    {
        if item.len() == 0 {
            return Ok(());
        }
        let at: usize = index_of(item, '=');
        if at == item.len() {
            let mut message = owned("invalid ssh endpoint query item ");
            message.append(quoted(text_of(item).as_str()).as_str());
            message.append(" (expected k=v)");
            return Err(Error::Message(message));
        }
        let key = text_of(&part(item, 0, at));
        let value = text_of(&part(item, at + 1, item.len()));
        if same_text(key.as_str(), "remote") {
            self.remote = Some(value);
            Ok(())
        } else if same_text(key.as_str(), "local") {
            self.local = Some(value);
            Ok(())
        } else if same_text(key.as_str(), "ssh-arg") {
            let ghost before = views(self.ssh_args@);
            let ghost new = value@;
            self.ssh_args.push(value);
            assert(views(self.ssh_args@) =~= before.push(new));
            Ok(())
        } else {
            let mut message = owned("unknown ssh endpoint query key ");
            message.append(quoted(key.as_str()).as_str());
            message.append(" (expected: remote|local|ssh-arg)");
            Err(Error::Message(message))
        }
    }
}

fn read_query(path: Option<String>, query: &Option<Vec<char>>) -> (r: Result<Query, Error>)
    ensures
        ({
            let start = QueryModel {
                remote: text_view(path),
                local: None,
                ssh_args: Seq::empty(),
            };
            match *query {
                Some(text) => match query_items(start, split(text@, '&')) {
                    Ok(model) => r matches Ok(q) && q.model() == model,
                    Err(refusal) => r matches Err(err) && tells(err, refusal),
                },
                None => r matches Ok(q) && q.model() == start,
            }
        }),
{
    let mut out = Query { remote: path, local: None, ssh_args: Vec::new() };
    let ghost start = out.model();
    assert(views(out.ssh_args@) =~= Seq::<Seq<char>>::empty());
    if let Some(text) = query {
        let items = split_chars(text, '&');
        let ghost all = split(text@, '&');
        let mut i: usize = 0;
        assert(all.subrange(0, 0) =~= Seq::empty());
        while i < items.len()
            invariant
                i <= items@.len(),
                all == lists(items@),
                all == split(text@, '&'),
                *query == Some(*text),
                start.remote == text_view(path),
                start.local is None,
                start.ssh_args == Seq::<Seq<char>>::empty(),
                query_items(start, all.subrange(0, i as int)) == Ok::<QueryModel, Refusal>(
                    out.model(),
                ),
            decreases items@.len() - i,
        {
            let ghost so_far = all.subrange(0, i + 1);
            assert(so_far.drop_last() =~= all.subrange(0, i as int));
            assert(so_far.last() == items@[i as int]@);
            if let Err(err) = out.item(&items[i]) {
                proof {
                    lemma_query_error_stays(start, all, i + 1);
                }
                return Err(err);
            }
            i = i + 1;
        }
        assert(all.subrange(0, i as int) =~= all);
    }
    Ok(out)
}

/// What is wrong with an item is told whatever follows it.
proof fn lemma_query_error_stays(query: QueryModel, items: Seq<Seq<char>>, n: int)
    requires
        0 <= n <= items.len(),
        query_items(query, items.subrange(0, n)) is Err,
    ensures
        query_items(query, items) == query_items(query, items.subrange(0, n)),
    decreases items.len(),
{
    if n == items.len() {
        assert(items.subrange(0, n) =~= items);
    } else {
        assert(items.drop_last().subrange(0, n) =~= items.subrange(0, n));
        lemma_query_error_stays(query, items.drop_last(), n);
    }
}

impl Endpoint {
    fn parse_tcp(rest: String) -> (r: Result<Self, Error>)
        ensures
            match parsed_tcp(rest@) {
                Ok(endpoint) => r matches Ok(e) && e@ == endpoint,
                Err(refusal) => r matches Err(err) && tells(err, refusal),
            },
    {
        match SocketAddr::parse(rest.as_str()) {
            Some(addr) => Ok(Endpoint::Tcp { addr }),
            None => {
                let mut message = owned("invalid tcp endpoint ");
                message.append(quoted(rest.as_str()).as_str());
                message.append(": invalid socket address syntax");
                Err(Error::Message(message))
            },
        }
    }

    /// Reads an endpoint, as a Unix system does.
    pub fn parse(text: &str) -> (r: Result<Self, Error>)
        ensures
            match parsed_endpoint(text@, SystemFamily::Unix) {
                Ok(endpoint) => r matches Ok(e) && e@ == endpoint,
                Err(refusal) => r matches Err(err) && tells(err, refusal),
            },
    {
        Self::parse_on(text, SystemFamily::Unix)
    }

    /// Reads an endpoint.
    pub fn parse_on(text: &str, system: SystemFamily) -> (r: Result<Self, Error>)
        ensures
            match parsed_endpoint(text@, system) {
                Ok(endpoint) => r matches Ok(e) && e@ == endpoint,
                Err(refusal) => r matches Err(err) && tells(err, refusal),
            },
        decreases text@.len(), 1nat,
    {
        if let Some(rest) = strip_prefix(text, "tcp://") {
            return Self::parse_tcp(rest);
        }
        if let Some(rest) = strip_prefix(text, "tcp:") {
            return Self::parse_tcp(rest);
        }
        if let Some(path) = strip_prefix(text, "unix://") {
            return match system {
                SystemFamily::Unix => Ok(Endpoint::Unix { path }),
                SystemFamily::Other => Err(
                    Error::Message(owned("unix endpoint is not supported on this platform")),
                ),
            };
        }
        if let Some(path) = strip_prefix(text, "unix:") {
            return Ok(Endpoint::Unix { path });
        }
        if let Some(rest) = strip_prefix(text, "ssh://") {
            proof {
                reveal_strlit("ssh://");
            }
            return Self::parse_ssh_endpoint(text, rest, system);
        }
        match system {
            SystemFamily::Unix => Ok(Endpoint::Unix { path: owned(text) }),
            SystemFamily::Other => {
                let mut message = owned("invalid endpoint ");
                message.append(quoted(text).as_str());
                message.append(" (expected: tcp:IP:PORT)");
                Err(Error::Message(message))
            },
        }
    }

    fn parse_ssh_endpoint(text: &str, rest: String, system: SystemFamily) -> (r: Result<Self, Error>)
        requires
            has_prefix(text@, "ssh://"@),
            !has_prefix(text@, "tcp://"@),
            !has_prefix(text@, "tcp:"@),
            !has_prefix(text@, "unix://"@),
            !has_prefix(text@, "unix:"@),
            rest@ == without_prefix(text@, "ssh://"@),
            rest@.len() < text@.len(),
        ensures
            match parsed_endpoint(text@, system) {
                Ok(endpoint) => r matches Ok(e) && e@ == endpoint,
                Err(refusal) => r matches Err(err) && tells(err, refusal),
            },
        decreases text@.len(), 0nat,
    {
        let chars = chars_of(rest.as_str());
        let mark: usize = index_of(&chars, '?');
        let front = part(&chars, 0, mark);
        assert(mark == chars@.len() ==> front@ =~= chars@);
        assert(front@ == before_query(rest@));
        let query_text = if mark < chars.len() {
            Some(part(&chars, mark + 1, chars.len()))
        } else {
            None
        };
        let slash: usize = index_of(&front, '/');
        let (authority, path) = if slash < front.len() && slash + 1 < front.len() {
            (text_of(&part(&front, 0, slash)), Some(text_of(&part(&front, slash + 1, front.len()))))
        } else {
            (text_of(&front), None)
        };
        assert((authority@, text_view(path)) == authority_and_path(front@));
        let destination = match parse_ssh_destination(authority.as_str()) {
            Ok(destination) => destination,
            Err(err) => {
                return Err(err);
            },
        };
        let query = match read_query(path, &query_text) {
            Ok(query) => query,
            Err(err) => {
                return Err(err);
            },
        };
        proof {
            lemma_query_lengths(rest@);
        }
        assert(whole_query(rest@) == Ok::<QueryModel, Refusal>(query.model()));
        let remote_text = match query.remote {
            Some(text) => text,
            None => {
                return Err(
                    Error::Message(
                        owned("ssh endpoint requires remote=<endpoint> or ssh://HOST/<endpoint>"),
                    ),
                );
            },
        };
        let remote = match Self::parse_on(remote_text.as_str(), system) {
            Ok(remote) => remote,
            Err(err) => {
                return Err(err);
            },
        };
        let local = match query.local {
            Some(local_text) => match Self::parse_on(local_text.as_str(), system) {
                Ok(local) => Some(Box::new(local)),
                Err(err) => {
                    return Err(err);
                },
            },
            None => None,
        };
        Ok(Endpoint::Ssh { destination, remote: Box::new(remote), local, ssh_args: query.ssh_args })
    }
}

/// A text without a scheme is the path of a socket, and the short schemes mean the same as the long
/// ones. Systems without sockets refuse paths.
#[verifier::rlimit(40)]
pub proof fn paths_need_no_scheme(rest: Seq<char>, system: SystemFamily)
    ensures
        rest.len() > 0 && rest[0] == '/' ==> parsed_endpoint(rest, SystemFamily::Unix) == Ok::<
            EndpointModel,
            Refusal,
        >(EndpointModel::Unix(rest)),
        rest.len() > 0 && rest[0] == '/' ==> parsed_endpoint(rest, SystemFamily::Other) is Err,
        !has_prefix("unix:"@ + rest, "unix://"@) ==> parsed_endpoint("unix:"@ + rest, system)
            == Ok::<EndpointModel, Refusal>(EndpointModel::Unix(rest)),
        !has_prefix("tcp:"@ + rest, "tcp://"@) ==> parsed_endpoint("tcp:"@ + rest, system)
            == parsed_endpoint("tcp://"@ + rest, system),
{
    reveal_strlit("unix:");
    reveal_strlit("unix://");
    reveal_strlit("tcp:");
    reveal_strlit("tcp://");
    reveal_strlit("ssh://");
    let unix = "unix:"@ + rest;
    let tcp = "tcp:"@ + rest;
    let long = "tcp://"@ + rest;
    assert(unix[0] == 'u' && tcp[0] == 't' && long[0] == 't');
    assert(unix.subrange(0, 5) =~= "unix:"@);
    assert(tcp.subrange(0, 4) =~= "tcp:"@);
    assert(long.subrange(0, 6) =~= "tcp://"@);
    assert(without_prefix(unix, "unix:"@) =~= rest);
    assert(without_prefix(tcp, "tcp:"@) =~= rest);
    assert(without_prefix(long, "tcp://"@) =~= rest);
    if has_prefix(unix, "tcp:"@) {
        assert(unix.subrange(0, 4)[0] == unix[0]);
    }
    if has_prefix(unix, "tcp://"@) {
        assert(unix.subrange(0, 6)[0] == unix[0]);
    }
    if rest.len() > 0 && rest[0] == '/' {
        if has_prefix(rest, "tcp://"@) {
            assert(rest.subrange(0, 6)[0] == rest[0]);
        }
        if has_prefix(rest, "tcp:"@) {
            assert(rest.subrange(0, 4)[0] == rest[0]);
        }
        if has_prefix(rest, "unix://"@) {
            assert(rest.subrange(0, 7)[0] == rest[0]);
        }
        if has_prefix(rest, "unix:"@) {
            assert(rest.subrange(0, 5)[0] == rest[0]);
        }
        if has_prefix(rest, "ssh://"@) {
            assert(rest.subrange(0, 6)[0] == rest[0]);
        }
    }
}

/// Where to log in: what stands before the first `@` is the user, and a host without colons and
/// brackets is the rest.
pub proof fn users_stand_before_their_host(user: Seq<char>, host: Seq<char>)
    requires
        !user.contains('@'),
        !host.contains('@'),
        !host.contains(':'),
        host.len() > 0,
        host[0] != '[',
    ensures
        parsed_destination(user + seq!['@'] + host) == Ok::<DestinationModel, Refusal>(
            DestinationModel { user: Some(user), host, port: None },
        ),
        parsed_destination(host) == Ok::<DestinationModel, Refusal>(
            DestinationModel { user: None, host, port: None },
        ),
{
    let text = user + seq!['@'] + host;
    assert forall|j: int| 0 <= j < user.len() implies text[j] != '@' by {
        assert(text[j] == user[j]);
    }
    assert(text[user.len() as int] == '@');
    lemma_is_first_index(text, '@', user.len() as int);
    assert(text.subrange(0, user.len() as int) =~= user);
    assert(text.subrange(user.len() as int + 1, text.len() as int) =~= host);
    lemma_first_index(host, '@');
    lemma_no_last_index(host, ':');
}

proof fn lemma_no_last_index(text: Seq<char>, c: char)
    requires
        !text.contains(c),
    ensures
        last_index(text, c) == -1,
    decreases text.len(),
{
    if text.len() > 0 {
        assert(text[text.len() - 1] != c);
        assert forall|j: int| 0 <= j < text.len() - 1 implies text.drop_last()[j] != c by {
            assert(text.drop_last()[j] == text[j]);
        }
        lemma_no_last_index(text.drop_last(), c);
    }
}

/// The items of a query, in whatever order: later ones win, arguments add up, and empty ones say
/// nothing. Others are refused.
#[verifier::rlimit(40)]
pub proof fn queries_are_read_in_order(query: QueryModel, value: Seq<char>)
    ensures
        query_item(query, "remote="@ + value) == Ok::<QueryModel, Refusal>(
            QueryModel { remote: Some(value), ..query },
        ),
        query_item(query, "local="@ + value) == Ok::<QueryModel, Refusal>(
            QueryModel { local: Some(value), ..query },
        ),
        query_item(query, "ssh-arg="@ + value) == Ok::<QueryModel, Refusal>(
            QueryModel { ssh_args: query.ssh_args.push(value), ..query },
        ),
        query_item(query, Seq::empty()) == Ok::<QueryModel, Refusal>(query),
        value.len() > 0 && !value.contains('=') ==> query_item(query, value) is Err,
{
    reveal_strlit("remote=");
    reveal_strlit("local=");
    reveal_strlit("ssh-arg=");
    reveal_strlit("remote");
    reveal_strlit("local");
    reveal_strlit("ssh-arg");
    let a = "remote="@ + value;
    let b = "local="@ + value;
    let c = "ssh-arg="@ + value;
    lemma_is_first_index(a, '=', 6);
    lemma_is_first_index(b, '=', 5);
    lemma_is_first_index(c, '=', 7);
    assert(a.subrange(0, 6) =~= "remote"@);
    assert(b.subrange(0, 5) =~= "local"@);
    assert(c.subrange(0, 7) =~= "ssh-arg"@);
    assert(a.subrange(7, a.len() as int) =~= value);
    assert(b.subrange(6, b.len() as int) =~= value);
    assert(c.subrange(8, c.len() as int) =~= value);
    assert("remote"@.len() == 6 && "local"@.len() == 5 && "ssh-arg"@.len() == 7);
    lemma_first_index(value, '=');
}

} // verus!
