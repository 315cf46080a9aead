//! Internet addresses: how they are read and written.
use crate::utils::split::{join, lemma_join_push, lists, part, split, split_chars};
use crate::utils::text::{
    chars_of, decimal, digit, digits_value, first_index, index_of, parse_digits, push_decimal,
};
use vstd::prelude::*;

verus! {

#[derive(Debug, Clone, Copy, PartialEq, Eq)]
pub struct Ipv4Addr {
    pub octets: [u8; 4],
}

#[derive(Debug, Clone, Copy, PartialEq, Eq)]
pub struct Ipv6Addr {
    pub segments: [u16; 8],
}

/// An address and a port. An address of the sixth version may be meant for one of the networks of
/// the host only: the scope, which is zero where it is not.
#[derive(Debug, Clone, Copy, PartialEq, Eq)]
pub enum SocketAddr {
    V4 { ip: Ipv4Addr, port: u16 },
    V6 { ip: Ipv6Addr, port: u16, scope_id: u32 },
}

#[verifier::ext_equal]
pub enum AddrModel {
    V4 { octets: Seq<u8>, port: u16 },
    V6 { segments: Seq<u16>, port: u16, scope_id: u32 },
}

impl View for SocketAddr {
    type V = AddrModel;

    open spec fn view(&self) -> AddrModel {
        match *self {
            SocketAddr::V4 { ip, port } => AddrModel::V4 { octets: ip.octets@, port },
            SocketAddr::V6 { ip, port, scope_id } => AddrModel::V6 {
                segments: ip.segments@,
                port,
                scope_id,
            },
        }
    }
}

/// Whether only the host itself can reach the address.
pub open spec fn is_loopback(addr: AddrModel) -> bool {
    match addr {
        AddrModel::V4 { octets, port } => octets[0] == 127,
        AddrModel::V6 { segments, port, scope_id } => segments == seq![
            0u16,
            0u16,
            0u16,
            0u16,
            0u16,
            0u16,
            0u16,
            1u16,
        ],
    }
}

/// A number of an address of the fourth version: up to three digits, none of them a useless zero.
pub open spec fn octet_value(text: Seq<char>) -> Option<u8> {
    match digits_value(text) {
        Some(n) => if n <= 255 && text.len() <= 3 && (text.len() > 1 ==> text[0] != '0') {
            Some(n as u8)
        } else {
            None
        },
        None => None,
    }
}

pub open spec fn all_octets(pieces: Seq<Seq<char>>) -> bool {
    forall|i: int| 0 <= i < pieces.len() ==> octet_value(#[trigger] pieces[i]) is Some
}

/// An address of the fourth version: four numbers with dots between them.
pub open spec fn v4_octets(text: Seq<char>) -> Option<Seq<u8>> {
    let pieces = split(text, '.');
    if pieces.len() == 4 && all_octets(pieces) {
        Some(Seq::new(4, |i: int| octet_value(pieces[i])->0))
    } else {
        None
    }
}

/// The value of a digit in base 16; 16 for other characters.
pub open spec fn hex_digit(c: char) -> int {
    if '0' <= c <= '9' {
        c as int - 48
    } else if 'a' <= c <= 'f' {
        c as int - 87
    } else if 'A' <= c <= 'F' {
        c as int - 55
    } else {
        16
    }
}

/// The number that digits in base 16 stand for.
pub open spec fn hex_value(text: Seq<char>) -> Option<nat>
    decreases text.len(),
{
    if text.len() == 0 {
        Some(0)
    } else if hex_digit(text.last()) == 16 {
        None
    } else {
        match hex_value(text.drop_last()) {
            None => None,
            Some(n) => Some((n * 16 + hex_digit(text.last())) as nat),
        }
    }
}

/// A number of an address of the sixth version: one to four digits.
pub open spec fn group_value(text: Seq<char>) -> Option<u16> {
    if 1 <= text.len() <= 4 {
        match hex_value(text) {
            Some(n) => Some(n as u16),
            None => None,
        }
    } else {
        None
    }
}

pub open spec fn all_groups(pieces: Seq<Seq<char>>) -> bool {
    forall|i: int| 0 <= i < pieces.len() ==> group_value(#[trigger] pieces[i]) is Some
}

pub open spec fn groups(pieces: Seq<Seq<char>>) -> Option<Seq<u16>> {
    if all_groups(pieces) {
        Some(Seq::new(pieces.len(), |i: int| group_value(pieces[i])->0))
    } else {
        None
    }
}

/// Four octets as two groups.
pub open spec fn octet_groups(octets: Seq<u8>) -> Seq<u16> {
    seq![(octets[0] * 256 + octets[1]) as u16, (octets[2] * 256 + octets[3]) as u16]
}

/// Groups with colons between them; there may be none.
pub open spec fn head_groups(text: Seq<char>) -> Option<Seq<u16>> {
    if text.len() == 0 {
        Some(Seq::empty())
    } else {
        groups(split(text, ':'))
    }
}

/// Groups with colons between them, of which the last two may be an address of the fourth version.
pub open spec fn tail_groups(text: Seq<char>) -> Option<Seq<u16>> {
    let pieces = split(text, ':');
    match v4_octets(pieces.last()) {
        Some(octets) => match groups(pieces.drop_last()) {
            Some(g) => Some(g + octet_groups(octets)),
            None => None,
        },
        None => head_groups(text),
    }
}

/// Whether two colons in a row stand at `i`.
pub open spec fn is_gap_at(text: Seq<char>, i: int) -> bool {
    0 <= i && i + 1 < text.len() && text[i] == ':' && text[i + 1] == ':'
}

/// The position of the first two colons in a row, or the length of the text.
pub open spec fn gap_index(text: Seq<char>) -> int
    decreases text.len(),
{
    if text.len() == 0 {
        0
    } else if text.len() >= 2 && text[0] == ':' && text[1] == ':' {
        0
    } else {
        1 + gap_index(text.subrange(1, text.len() as int))
    }
}

pub open spec fn zeros(n: nat) -> Seq<u16> {
    Seq::new(n, |i: int| 0u16)
}

/// An address of the sixth version: eight groups, or fewer where two colons stand for zeros.
pub open spec fn v6_segments(text: Seq<char>) -> Option<Seq<u16>> {
    let gap = gap_index(text);
    if gap < text.len() {
        match (
            head_groups(text.subrange(0, gap)),
            tail_groups(text.subrange(gap + 2, text.len() as int)),
        ) {
            (Some(head), Some(tail)) => if head.len() + tail.len() <= 7 {
                Some(head + zeros((8 - head.len() - tail.len()) as nat) + tail)
            } else {
                None
            },
            _ => None,
        }
    } else {
        match tail_groups(text) {
            Some(all) => if all.len() == 8 {
                Some(all)
            } else {
                None
            },
            None => None,
        }
    }
}

/// Digits that make a number up to `max`.
pub open spec fn bounded(text: Seq<char>, max: int) -> Option<int> {
    match digits_value(text) {
        Some(n) => if n <= max {
            Some(n as int)
        } else {
            None
        },
        None => None,
    }
}

/// What stands between the brackets: an address, perhaps with a scope.
pub open spec fn scoped_segments(text: Seq<char>) -> Option<(Seq<u16>, u32)> {
    let percent = first_index(text, '%');
    if percent < text.len() {
        match (
            v6_segments(text.subrange(0, percent)),
            bounded(text.subrange(percent + 1, text.len() as int), 0xFFFF_FFFF),
        ) {
            (Some(segments), Some(scope)) => Some((segments, scope as u32)),
            _ => None,
        }
    } else {
        match v6_segments(text) {
            Some(segments) => Some((segments, 0)),
            None => None,
        }
    }
}

/// An address and a port: `1.2.3.4:80` or `[::1]:80`.
pub open spec fn parsed_addr(text: Seq<char>) -> Option<AddrModel> {
    if text.len() > 0 && text[0] == '[' {
        let end = first_index(text, ']');
        if end + 1 < text.len() && text[end + 1] == ':' {
            match (
                scoped_segments(text.subrange(1, end)),
                bounded(text.subrange(end + 2, text.len() as int), 65535),
            ) {
                (Some((segments, scope_id)), Some(port)) => Some(
                    AddrModel::V6 { segments, port: port as u16, scope_id },
                ),
                _ => None,
            }
        } else {
            None
        }
    } else {
        let colon = first_index(text, ':');
        if colon < text.len() {
            match (
                v4_octets(text.subrange(0, colon)),
                bounded(text.subrange(colon + 1, text.len() as int), 65535),
            ) {
                (Some(octets), Some(port)) => Some(AddrModel::V4 { octets, port: port as u16 }),
                _ => None,
            }
        } else {
            None
        }
    }
}

proof fn lemma_hex_bound(text: Seq<char>)
    requires
        hex_value(text) is Some,
        text.len() <= 4,
    ensures
        text.len() == 0 ==> hex_value(text)->0 == 0,
        text.len() <= 1 ==> hex_value(text)->0 < 0x10,
        text.len() <= 2 ==> hex_value(text)->0 < 0x100,
        text.len() <= 3 ==> hex_value(text)->0 < 0x1000,
        hex_value(text)->0 < 0x1_0000,
    decreases text.len(),
{
    if text.len() > 0 {
        lemma_hex_bound(text.drop_last());
    }
}

proof fn lemma_hex_prefix(text: Seq<char>, n: int)
    requires
        0 <= n <= text.len(),
        hex_value(text) is Some,
    ensures
        hex_value(text.subrange(0, n)) is Some,
    decreases text.len() - n,
{
    if n == text.len() {
        assert(text.subrange(0, n) =~= text);
    } else {
        lemma_hex_prefix(text.drop_last(), n);
        assert(text.drop_last().subrange(0, n) =~= text.subrange(0, n));
    }
}

fn read_octet(text: &Vec<char>) -> (r: Option<u8>)
    ensures
        r == octet_value(text@),
{
    assert(text@.subrange(0, text@.len() as int) =~= text@);
    let value = parse_digits(text, 0, 255);
    match value {
        Some(n) => if text.len() <= 3 && (text.len() <= 1 || text[0] != '0') {
            Some(n as u8)
        } else {
            None
        },
        None => None,
    }
}

fn read_v4(text: &Vec<char>) -> (r: Option<[u8; 4]>)
    ensures
        match r {
            Some(octets) => v4_octets(text@) == Some(octets@),
            None => v4_octets(text@) is None,
        },
{
    let pieces = split_chars(text, '.');
    let ghost all = split(text@, '.');
    assert(lists(pieces@) == all);
    if pieces.len() != 4 {
        return None;
    }
    assert(all[0] == pieces@[0]@ && all[1] == pieces@[1]@ && all[2] == pieces@[2]@ && all[3]
        == pieces@[3]@);
    match (
        read_octet(&pieces[0]),
        read_octet(&pieces[1]),
        read_octet(&pieces[2]),
        read_octet(&pieces[3]),
    ) {
        (Some(a), Some(b), Some(c), Some(d)) => {
            let octets: [u8; 4] = [a, b, c, d];
            assert(all_octets(all));
            assert(octets@ =~= Seq::new(4, |i: int| octet_value(all[i])->0));
            Some(octets)
        },
        _ => None,
    }
}

fn read_hex_digit(c: char) -> (r: u16)
    ensures
        r == hex_digit(c),
{
    if '0' <= c && c <= '9' {
        (c as u8 - 48) as u16
    } else if 'a' <= c && c <= 'f' {
        (c as u8 - 87) as u16
    } else if 'A' <= c && c <= 'F' {
        (c as u8 - 55) as u16
    } else {
        16
    }
}

fn read_group(text: &Vec<char>) -> (r: Option<u16>)
    ensures
        r == group_value(text@),
{
    if text.len() < 1 || text.len() > 4 {
        return None;
    }
    let mut value: u32 = 0;
    let mut i: usize = 0;
    assert(text@.subrange(0, 0) =~= Seq::<char>::empty());
    while i < text.len()
        invariant
            i <= text@.len() <= 4,
            1 <= text@.len(),
            hex_value(text@.subrange(0, i as int)) == Some(value as nat),
        decreases text@.len() - i,
    {
        let digit: u16 = read_hex_digit(text[i]);
        let ghost so_far = text@.subrange(0, i + 1);
        assert(so_far.last() == text@[i as int]);
        assert(so_far.drop_last() =~= text@.subrange(0, i as int));
        proof {
            lemma_hex_bound(text@.subrange(0, i as int));
            if hex_value(text@) is Some {
                lemma_hex_prefix(text@, i + 1);
            }
        }
        if digit == 16 {
            return None;
        }
        value = value * 16 + digit as u32;
        i = i + 1;
    }
    assert(text@.subrange(0, i as int) =~= text@);
    proof {
        lemma_hex_bound(text@);
    }
    Some(value as u16)
}

/// Reads the first `n` pieces as groups.
fn read_groups(pieces: &Vec<Vec<char>>, n: usize) -> (r: Option<Vec<u16>>)
    requires
        n <= pieces@.len(),
    ensures
        match r {
            Some(g) => groups(lists(pieces@).subrange(0, n as int)) == Some(g@),
            None => groups(lists(pieces@).subrange(0, n as int)) is None,
        },
{
    let ghost all = lists(pieces@).subrange(0, n as int);
    let mut out: Vec<u16> = Vec::new();
    let mut i: usize = 0;
    while i < n
        invariant
            i <= n <= pieces@.len(),
            all == lists(pieces@).subrange(0, n as int),
            out@.len() == i,
            forall|j: int| 0 <= j < i ==> group_value(#[trigger] all[j]) == Some(out@[j]),
        decreases n - i,
    {
        assert(all[i as int] == pieces@[i as int]@);
        match read_group(&pieces[i]) {
            Some(g) => {
                out.push(g);
            },
            None => {
                assert(group_value(all[i as int]) is None);
                return None;
            },
        }
        i = i + 1;
    }
    assert(all_groups(all));
    assert(out@ =~= Seq::new(all.len(), |j: int| group_value(all[j])->0));
    Some(out)
}

fn read_head(text: &Vec<char>) -> (r: Option<Vec<u16>>)
    ensures
        match r {
            Some(g) => head_groups(text@) == Some(g@),
            None => head_groups(text@) is None,
        },
{
    if text.len() == 0 {
        return Some(Vec::new());
    }
    let pieces = split_chars(text, ':');
    assert(lists(pieces@).subrange(0, pieces@.len() as int) =~= lists(pieces@));
    read_groups(&pieces, pieces.len())
}

fn octet_pair(high: u8, low: u8) -> (r: u16)
    ensures
        r == high * 256 + low,
{
    high as u16 * 256 + low as u16
}

fn read_tail(text: &Vec<char>) -> (r: Option<Vec<u16>>)
    ensures
        match r {
            Some(g) => tail_groups(text@) == Some(g@),
            None => tail_groups(text@) is None,
        },
{
    let pieces = split_chars(text, ':');
    let ghost all = split(text@, ':');
    let last: usize = pieces.len() - 1;
    assert(all.last() == pieces@[last as int]@);
    assert(all.drop_last() =~= lists(pieces@).subrange(0, last as int));
    match read_v4(&pieces[last]) {
        Some(octets) => match read_groups(&pieces, last) {
            Some(mut g) => {
                let ghost before = g@;
                g.push(octet_pair(octets[0], octets[1]));
                g.push(octet_pair(octets[2], octets[3]));
                assert(g@ =~= before + octet_groups(octets@));
                Some(g)
            },
            None => None,
        },
        None => read_head(text),
    }
}

/// `gap_index` is where the first two colons in a row are.
pub proof fn lemma_gap_index(text: Seq<char>)
    ensures
        0 <= gap_index(text) <= text.len(),
        forall|j: int| 0 <= j < gap_index(text) ==> !#[trigger] is_gap_at(text, j),
        gap_index(text) < text.len() ==> is_gap_at(text, gap_index(text)),
    decreases text.len(),
{
    if text.len() > 0 && !is_gap_at(text, 0) {
        let rest = text.subrange(1, text.len() as int);
        lemma_gap_index(rest);
        assert forall|j: int| 0 <= j < gap_index(text) implies !#[trigger] is_gap_at(text, j) by {
            if j > 0 {
                assert(!is_gap_at(rest, j - 1));
            }
        }
    }
}

/// A position is the first one of two colons where it holds them and no position before it does.
pub proof fn lemma_is_gap_index(text: Seq<char>, at: int)
    requires
        0 <= at <= text.len(),
        forall|j: int| 0 <= j < at ==> !#[trigger] is_gap_at(text, j),
        at < text.len() ==> is_gap_at(text, at),
    ensures
        gap_index(text) == at,
{
    lemma_gap_index(text);
    let gap = gap_index(text);
    if gap < at {
        assert(!is_gap_at(text, gap));
    }
    if at < gap {
        assert(!is_gap_at(text, at));
    }
}

fn find_gap(text: &Vec<char>) -> (r: usize)
    ensures
        r == gap_index(text@),
        r <= text@.len(),
        r < text@.len() ==> r + 2 <= text@.len(),
{
    let mut i: usize = 0;
    while i < text.len()
        invariant
            i <= text@.len(),
            forall|j: int| 0 <= j < i ==> !#[trigger] is_gap_at(text@, j),
        decreases text@.len() - i,
    {
        if text.len() - i >= 2 && text[i] == ':' && text[i + 1] == ':' {
            proof {
                lemma_is_gap_index(text@, i as int);
            }
            return i;
        }
        i = i + 1;
    }
    proof {
        lemma_is_gap_index(text@, i as int);
    }
    i
}

fn eight(g: &Vec<u16>) -> (r: [u16; 8])
    requires
        g@.len() == 8,
    ensures
        r@ == g@,
{
    let r: [u16; 8] = [g[0], g[1], g[2], g[3], g[4], g[5], g[6], g[7]];
    assert(r@ =~= g@);
    r
}

fn read_v6(text: &Vec<char>) -> (r: Option<[u16; 8]>)
    ensures
        match r {
            Some(segments) => v6_segments(text@) == Some(segments@),
            None => v6_segments(text@) is None,
        },
{
    let gap: usize = find_gap(text);
    if gap == text.len() {
        return match read_tail(text) {
            Some(all) => if all.len() == 8 {
                Some(eight(&all))
            } else {
                None
            },
            None => None,
        };
    }
    let head_text = part(text, 0, gap);
    let tail_text = part(text, gap + 2, text.len());
    match (read_head(&head_text), read_tail(&tail_text)) {
        (Some(head), Some(tail)) => {
            if head.len() > 7 || tail.len() > 7 - head.len() {
                return None;
            }
            let ghost head_list = head@;
            let ghost missing = (8 - head@.len() - tail@.len()) as nat;
            let mut all = head;
            let mut tail = tail;
            let ghost tail_list = tail@;
            let until: usize = 8 - tail.len();
            while all.len() < until
                invariant
                    head_list.len() <= all@.len() <= until <= 8,
                    all@ =~= head_list + zeros((all@.len() - head_list.len()) as nat),
                decreases until - all@.len(),
            {
                all.push(0);
            }
            all.append(&mut tail);
            assert(all@ =~= head_list + zeros(missing) + tail_list);
            Some(eight(&all))
        },
        _ => None,
    }
}

fn read_bounded(text: &Vec<char>, max: u64) -> (r: Option<u64>)
    ensures
        match r {
            Some(n) => bounded(text@, max as int) == Some(n as int),
            None => bounded(text@, max as int) is None,
        },
{
    assert(text@.subrange(0, text@.len() as int) =~= text@);
    parse_digits(text, 0, max)
}

fn read_scoped(text: &Vec<char>) -> (r: Option<([u16; 8], u32)>)
    ensures
        match r {
            Some((segments, scope)) => scoped_segments(text@) == Some((segments@, scope)),
            None => scoped_segments(text@) is None,
        },
{
    let percent: usize = index_of(text, '%');
    if percent == text.len() {
        return match read_v6(text) {
            Some(segments) => Some((segments, 0)),
            None => None,
        };
    }
    let addr = part(text, 0, percent);
    let scope = part(text, percent + 1, text.len());
    match (read_v6(&addr), read_bounded(&scope, 0xFFFF_FFFF)) {
        (Some(segments), Some(scope)) => Some((segments, scope as u32)),
        _ => None,
    }
}

fn same_segments(a: &Ipv6Addr, b: &Ipv6Addr) -> (r: bool)
    ensures
        r == (a.segments@ == b.segments@),
{
    let mut i: usize = 0;
    while i < 8
        invariant
            i <= 8,
            forall|j: int| 0 <= j < i ==> a.segments@[j] == b.segments@[j],
        decreases 8 - i,
    {
        if a.segments[i] != b.segments[i] {
            return false;
        }
        i = i + 1;
    }
    assert(a.segments@ =~= b.segments@);
    true
}

impl SocketAddr {
    /// Reads an address and a port.
    pub fn parse(text: &str) -> (r: Option<Self>)
        ensures
            match r {
                Some(addr) => parsed_addr(text@) == Some(addr@),
                None => parsed_addr(text@) is None,
            },
    {
        let chars = chars_of(text);
        if chars.len() > 0 && chars[0] == '[' {
            let end: usize = index_of(&chars, ']');
            if end < chars.len() && end + 1 < chars.len() && chars[end + 1] == ':' {
                let inside = part(&chars, 1, end);
                let port_text = part(&chars, end + 2, chars.len());
                match (read_scoped(&inside), read_bounded(&port_text, 65535)) {
                    (Some((segments, scope_id)), Some(port)) => Some(
                        SocketAddr::V6 { ip: Ipv6Addr { segments }, port: port as u16, scope_id },
                    ),
                    _ => None,
                }
            } else {
                None
            }
        } else {
            let colon: usize = index_of(&chars, ':');
            if colon == chars.len() {
                return None;
            }
            let ip_text = part(&chars, 0, colon);
            let port_text = part(&chars, colon + 1, chars.len());
            match (read_v4(&ip_text), read_bounded(&port_text, 65535)) {
                (Some(octets), Some(port)) => Some(
                    SocketAddr::V4 { ip: Ipv4Addr { octets }, port: port as u16 },
                ),
                _ => None,
            }
        }
    }

    /// Whether two addresses are the same.
    pub fn same(&self, other: &SocketAddr) -> (r: bool)
        ensures
            r == (self@ == other@),
    {
        match (self, other) {
            (SocketAddr::V4 { ip: a, port: p }, SocketAddr::V4 { ip: b, port: q }) => {
                let equal = a.octets[0] == b.octets[0] && a.octets[1] == b.octets[1] && a.octets[2]
                    == b.octets[2] && a.octets[3] == b.octets[3];
                if equal {
                    assert(a.octets@ =~= b.octets@);
                }
                equal && *p == *q
            },
            (
                SocketAddr::V6 { ip: a, port: p, scope_id: s },
                SocketAddr::V6 { ip: b, port: q, scope_id: t },
            ) => same_segments(a, b) && *p == *q && *s == *t,
            _ => false,
        }
    }

    pub fn is_loopback(&self) -> (r: bool)
        ensures
            r == is_loopback(self@),
    {
        match self {
            SocketAddr::V4 { ip, port: _ } => ip.octets[0] == 127,
            SocketAddr::V6 { ip, port: _, scope_id: _ } => {
                let s = &ip.segments;
                let r = s[0] == 0 && s[1] == 0 && s[2] == 0 && s[3] == 0 && s[4] == 0 && s[5] == 0
                    && s[6] == 0 && s[7] == 1;
                let ghost one = seq![0u16, 0u16, 0u16, 0u16, 0u16, 0u16, 0u16, 1u16];
                if r {
                    assert(s@ =~= one);
                } else {
                    assert(one[0] == 0 && one[1] == 0 && one[2] == 0 && one[3] == 0 && one[4] == 0
                        && one[5] == 0 && one[6] == 0 && one[7] == 1);
                }
                r
            },
        }
    }
}

/// A digit in base 16.
pub open spec fn hex_char(d: int) -> char {
    if d < 10 {
        (48 + d) as char
    } else {
        (87 + d) as char
    }
}

/// A number in base 16, without leading zeros.
pub open spec fn hex_text(n: nat) -> Seq<char>
    decreases n,
{
    if n < 16 {
        seq![hex_char(n as int)]
    } else {
        hex_text(n / 16).push(hex_char((n % 16) as int))
    }
}

pub open spec fn decimals(octets: Seq<u8>) -> Seq<Seq<char>> {
    Seq::new(octets.len(), |i: int| decimal(octets[i] as nat))
}

pub open spec fn v4_text(octets: Seq<u8>) -> Seq<char> {
    join(decimals(octets), '.')
}

pub open spec fn hex_texts(segments: Seq<u16>) -> Seq<Seq<char>> {
    Seq::new(segments.len(), |i: int| hex_text(segments[i] as nat))
}

pub open spec fn groups_text(segments: Seq<u16>) -> Seq<char> {
    join(hex_texts(segments), ':')
}

/// The number of zeros in a row from `i` on.
pub open spec fn zero_run(segments: Seq<u16>, i: int) -> int
    decreases segments.len() - i,
{
    if 0 <= i < segments.len() && segments[i] == 0 {
        1 + zero_run(segments, i + 1)
    } else {
        0
    }
}

/// Of the first `n` places, the first one from which the most zeros follow.
pub open spec fn longest_run(segments: Seq<u16>, n: int) -> int
    decreases n,
{
    if n <= 1 {
        0
    } else {
        let best = longest_run(segments, n - 1);
        if zero_run(segments, n - 1) > zero_run(segments, best) {
            n - 1
        } else {
            best
        }
    }
}

/// Whether an address stands for one of the fourth version.
pub open spec fn is_mapped(segments: Seq<u16>) -> bool {
    &&& segments[0] == 0
    &&& segments[1] == 0
    &&& segments[2] == 0
    &&& segments[3] == 0
    &&& segments[4] == 0
    &&& segments[5] == 0xFFFF
}

pub open spec fn mapped_octets(segments: Seq<u16>) -> Seq<u8> {
    seq![
        (segments[6] / 256) as u8,
        (segments[6] % 256) as u8,
        (segments[7] / 256) as u8,
        (segments[7] % 256) as u8,
    ]
}

/// The shortest text of an address: the first of the longest runs of zeros is left out, if it is
/// longer than one.
pub open spec fn v6_text(segments: Seq<u16>) -> Seq<char> {
    let start = longest_run(segments, 8);
    let run = zero_run(segments, start);
    if is_mapped(segments) {
        "::ffff:"@ + v4_text(mapped_octets(segments))
    } else if run > 1 {
        groups_text(segments.subrange(0, start)) + "::"@ + groups_text(
            segments.subrange(start + run, 8),
        )
    } else {
        groups_text(segments)
    }
}

pub open spec fn ip_text(addr: AddrModel) -> Seq<char> {
    match addr {
        AddrModel::V4 { octets, port } => v4_text(octets),
        AddrModel::V6 { segments, port, scope_id } => v6_text(segments),
    }
}

pub open spec fn port_of(addr: AddrModel) -> u16 {
    match addr {
        AddrModel::V4 { octets, port } => port,
        AddrModel::V6 { segments, port, scope_id } => port,
    }
}

pub open spec fn addr_text(addr: AddrModel) -> Seq<char> {
    match addr {
        AddrModel::V4 { octets, port } => v4_text(octets) + ":"@ + decimal(port as nat),
        AddrModel::V6 { segments, port, scope_id } => if scope_id == 0 {
            "["@ + v6_text(segments) + "]:"@ + decimal(port as nat)
        } else {
            "["@ + v6_text(segments) + "%"@ + decimal(scope_id as nat) + "]:"@ + decimal(
                port as nat,
            )
        },
    }
}

fn write_hex_char(d: u16) -> (r: char)
    requires
        d < 16,
    ensures
        r == hex_char(d as int),
{
    if d < 10 {
        (48 + d as u8) as char
    } else {
        (87 + d as u8) as char
    }
}

fn push_hex(out: &mut String, n: u16)
    ensures
        final(out)@ == old(out)@ + hex_text(n as nat),
    decreases n,
{
    let ghost before = out@;
    if n >= 16 {
        push_hex(out, n / 16);
    }
    out.push(write_hex_char(n % 16));
    assert(out@ =~= before + hex_text(n as nat));
}

fn push_v4(out: &mut String, octets: [u8; 4])
    ensures
        final(out)@ == old(out)@ + v4_text(octets@),
{
    let ghost before = out@;
    let mut i: usize = 0;
    while i < 4
        invariant
            i <= 4,
            out@ == before + join(decimals(octets@).subrange(0, i as int), '.'),
        decreases 4 - i,
    {
        let ghost written = decimals(octets@).subrange(0, i + 1);
        if i > 0 {
            out.push('.');
            proof {
                lemma_join_push(written, '.');
            }
        }
        push_decimal(out, octets[i] as u64);
        assert(written.drop_last() =~= decimals(octets@).subrange(0, i as int));
        assert(out@ =~= before + join(written, '.'));
        i = i + 1;
    }
    assert(decimals(octets@).subrange(0, 4) =~= decimals(octets@));
}

fn push_groups(out: &mut String, segments: [u16; 8], from: usize, to: usize)
    requires
        from <= to <= 8,
    ensures
        final(out)@ == old(out)@ + groups_text(segments@.subrange(from as int, to as int)),
{
    let ghost before = out@;
    let ghost all = hex_texts(segments@.subrange(from as int, to as int));
    let mut i: usize = from;
    while i < to
        invariant
            from <= i <= to <= 8,
            all == hex_texts(segments@.subrange(from as int, to as int)),
            out@ == before + join(all.subrange(0, i - from), ':'),
        decreases to - i,
    {
        let ghost written = all.subrange(0, i - from + 1);
        if i > from {
            out.push(':');
            proof {
                lemma_join_push(written, ':');
            }
        }
        push_hex(out, segments[i]);
        assert(written.drop_last() =~= all.subrange(0, i - from));
        assert(written.last() == hex_text(segments@[i as int] as nat));
        assert(out@ =~= before + join(written, ':'));
        i = i + 1;
    }
    assert(all.subrange(0, to - from) =~= all);
}

fn count_zeros(segments: [u16; 8], i: usize) -> (r: usize)
    requires
        i <= 8,
    ensures
        r == zero_run(segments@, i as int),
        i + r <= 8,
    decreases 8 - i,
{
    if i < 8 && segments[i] == 0 {
        1 + count_zeros(segments, i + 1)
    } else {
        0
    }
}

fn find_longest_run(segments: [u16; 8]) -> (r: usize)
    ensures
        r == longest_run(segments@, 8),
        r < 8,
{
    let mut best: usize = 0;
    let mut n: usize = 1;
    while n < 8
        invariant
            1 <= n <= 8,
            best < n,
            best == longest_run(segments@, n as int),
        decreases 8 - n,
    {
        if count_zeros(segments, n) > count_zeros(segments, best) {
            best = n;
        }
        n = n + 1;
    }
    best
}

fn push_v6(out: &mut String, segments: [u16; 8])
    ensures
        final(out)@ == old(out)@ + v6_text(segments@),
{
    let ghost before = out@;
    let s = &segments;
    if s[0] == 0 && s[1] == 0 && s[2] == 0 && s[3] == 0 && s[4] == 0 && s[5] == 0xFFFF {
        out.append("::ffff:");
        let octets: [u8; 4] = [
            (s[6] / 256) as u8,
            (s[6] % 256) as u8,
            (s[7] / 256) as u8,
            (s[7] % 256) as u8,
        ];
        assert(octets@ =~= mapped_octets(segments@));
        push_v4(out, octets);
        assert(out@ =~= before + v6_text(segments@));
        return ;
    }
    let start: usize = find_longest_run(segments);
    let run: usize = count_zeros(segments, start);
    if run > 1 {
        push_groups(out, segments, 0, start);
        out.append("::");
        push_groups(out, segments, start + run, 8);
    } else {
        push_groups(out, segments, 0, 8);
        assert(segments@.subrange(0, 8) =~= segments@);
    }
    assert(out@ =~= before + v6_text(segments@));
}

impl SocketAddr {
    pub fn port(&self) -> (r: u16)
        ensures
            r == port_of(self@),
    {
        match self {
            SocketAddr::V4 { ip: _, port } => *port,
            SocketAddr::V6 { ip: _, port, scope_id: _ } => *port,
        }
    }

    /// Writes the address without the port.
    pub fn push_ip(&self, out: &mut String)
        ensures
            final(out)@ == old(out)@ + ip_text(self@),
    {
        match self {
            SocketAddr::V4 { ip, port: _ } => push_v4(out, ip.octets),
            SocketAddr::V6 { ip, port: _, scope_id: _ } => push_v6(out, ip.segments),
        }
    }

    /// Writes the address and the port.
    pub fn push_text(&self, out: &mut String)
        ensures
            final(out)@ == old(out)@ + addr_text(self@),
    {
        let ghost before = out@;
        match self {
            SocketAddr::V4 { ip, port } => {
                push_v4(out, ip.octets);
                out.append(":");
                push_decimal(out, *port as u64);
            },
            SocketAddr::V6 { ip, port, scope_id } => {
                out.append("[");
                push_v6(out, ip.segments);
                if *scope_id != 0 {
                    out.append("%");
                    push_decimal(out, *scope_id as u64);
                }
                out.append("]:");
                push_decimal(out, *port as u64);
            },
        }
        assert(out@ =~= before + addr_text(self@));
    }

    pub fn display_text(&self) -> (r: String)
        ensures
            r@ == addr_text(self@),
    {
        let mut out = String::new();
        self.push_text(&mut out);
        assert(out@ =~= addr_text(self@));
        out
    }
}

/// Only the host itself reaches the addresses that begin with 127, and `::1`.
pub proof fn loopback_addresses(addr: AddrModel)
    ensures
        addr matches AddrModel::V4 { octets, port } ==> is_loopback(addr) == (octets[0] == 127),
        addr matches AddrModel::V6 { segments, port, scope_id } ==> (segments.len() == 8 ==> (
        is_loopback(addr) <==> segments[0] == 0 && segments[1] == 0 && segments[2] == 0
            && segments[3] == 0 && segments[4] == 0 && segments[5] == 0 && segments[6] == 0
            && segments[7] == 1)),
{
    if let AddrModel::V6 { segments, port, scope_id } = addr {
        if segments.len() == 8 && segments[0] == 0 && segments[1] == 0 && segments[2] == 0
            && segments[3] == 0 && segments[4] == 0 && segments[5] == 0 && segments[6] == 0
            && segments[7] == 1 {
            assert(segments =~= seq![0u16, 0u16, 0u16, 0u16, 0u16, 0u16, 0u16, 1u16]);
        }
    }
}

/// An address of the fourth version is four numbers with dots between them, and the port stands
/// behind a colon.
pub proof fn dots_stand_between_octets(a: u8, b: u8, c: u8, d: u8, port: u16)
    ensures
        v4_text(seq![a, b, c, d]) == decimal(a as nat) + seq!['.'] + decimal(b as nat) + seq!['.']
            + decimal(c as nat) + seq!['.'] + decimal(d as nat),
        addr_text(AddrModel::V4 { octets: seq![a, b, c, d], port }) == v4_text(seq![a, b, c, d])
            + ":"@ + decimal(port as nat),
{
    let pieces = decimals(seq![a, b, c, d]);
    let three = pieces.subrange(1, 4);
    let two = three.subrange(1, 3);
    let one = two.subrange(1, 2);
    assert(three[0] == decimal(b as nat) && two[0] == decimal(c as nat) && one[0] == decimal(
        d as nat,
    ));
    assert(join(one, '.') == one[0]);
    assert(join(two, '.') == two[0].push('.') + join(one, '.'));
    assert(join(three, '.') == three[0].push('.') + join(two, '.'));
    assert(join(pieces, '.') == pieces[0].push('.') + join(three, '.'));
    assert(v4_text(seq![a, b, c, d]) =~= decimal(a as nat) + seq!['.'] + decimal(b as nat)
        + seq!['.'] + decimal(c as nat) + seq!['.'] + decimal(d as nat));
}

/// A number of an address of the fourth version is at most 255, and has no useless zero in front.
pub proof fn octets_are_small(text: Seq<char>, n: nat)
    requires
        digits_value(text) == Some(n),
    ensures
        n > 255 ==> octet_value(text) is None,
        text.len() > 1 && text[0] == '0' ==> octet_value(text) is None,
        text.len() > 3 ==> octet_value(text) is None,
        n <= 255 && text.len() <= 3 && (text.len() == 1 || text[0] != '0') ==> octet_value(text)
            == Some(n as u8),
{
}

/// Digits in base 16 count up, in small letters from ten on, and are read in either case.
pub proof fn hex_digits_count_up(d: int)
    requires
        0 <= d < 16,
    ensures
        d < 10 ==> hex_char(d) as int == '0' as int + d,
        d >= 10 ==> hex_char(d) as int == 'a' as int + d - 10,
        hex_digit(hex_char(d)) == d,
        d >= 10 ==> hex_digit((('A' as int + d - 10) as u8) as char) == d,
        hex_digit('g') == 16 && hex_digit(':') == 16 && hex_digit('/') == 16,
{
}

/// More digits in base 16 stand behind the others.
pub proof fn hex_digits_have_their_place(n: nat, d: nat)
    requires
        d < 16,
        n > 0,
    ensures
        hex_text(16 * n + d) == hex_text(n) + hex_text(d),
{
    assert((16 * n + d) / 16 == n && (16 * n + d) % 16 == d);
    assert(hex_text(16 * n + d) =~= hex_text(n) + hex_text(d));
}

/// The zeros that are left out of a text are the longest run, and of several the first.
pub proof fn the_longest_run_is_left_out(segments: Seq<u16>, n: int, i: int)
    requires
        0 <= i < n,
    ensures
        0 <= longest_run(segments, n) < n,
        zero_run(segments, i) <= zero_run(segments, longest_run(segments, n)),
        i < longest_run(segments, n) ==> zero_run(segments, i) < zero_run(
            segments,
            longest_run(segments, n),
        ),
    decreases n,
{
    if n > 1 {
        if i < n - 1 {
            the_longest_run_is_left_out(segments, n - 1, i);
        } else {
            the_longest_run_is_left_out(segments, n - 1, 0);
        }
    }
}

/// A run of zeros counts the zeros from a place on.
pub proof fn runs_hold_zeros(segments: Seq<u16>, i: int, j: int)
    requires
        0 <= i <= segments.len(),
    ensures
        0 <= zero_run(segments, i) <= segments.len() - i,
        i <= j < i + zero_run(segments, i) ==> segments[j] == 0,
        i + zero_run(segments, i) < segments.len() ==> segments[i + zero_run(segments, i)] != 0,
    decreases segments.len() - i,
{
    if i < segments.len() && segments[i] == 0 {
        runs_hold_zeros(segments, i + 1, j);
    }
}

} // verus!
