//! Internet addresses survive being written and read.
use crate::utils::socket_addr::{
    addr_text, all_groups, all_octets, decimals, gap_index, group_value, groups_text, head_groups,
    hex_char, hex_digit, hex_text, hex_texts, hex_value, is_gap_at, is_mapped, lemma_is_gap_index,
    longest_run, mapped_octets, octet_groups, octet_value, parsed_addr, scoped_segments,
    tail_groups, v4_octets, v4_text, v6_segments, v6_text, zero_run, zeros, AddrModel,
};
use crate::utils::split::{join, lemma_split_first, lemma_split_whole, split, split_undoes_join, without};
use crate::utils::text::{decimal, digit, digits_value, is_digit, lemma_is_first_index};
use vstd::prelude::*;

verus! {

/// A number can be read back from its digits.
pub proof fn lemma_decimal(n: nat)
    ensures
        digits_value(decimal(n)) == Some(n),
        decimal(n).len() > 0,
        forall|i: int| 0 <= i < decimal(n).len() ==> is_digit(#[trigger] decimal(n)[i]),
        n < 10 ==> decimal(n).len() == 1,
        n < 100 ==> decimal(n).len() <= 2,
        n < 1000 ==> decimal(n).len() <= 3,
        n > 0 ==> decimal(n)[0] != '0',
    decreases n,
{
    if n >= 10 {
        lemma_decimal(n / 10);
        let d = digit((n % 10) as int);
        assert(decimal(n).last() == d);
        assert(decimal(n).drop_last() =~= decimal(n / 10));
        assert(n == n / 10 * 10 + n % 10);
        assert(d as nat - 48 == n % 10);
        assert(decimal(n)[0] == decimal(n / 10)[0]);
    } else {
        let d = digit(n as int);
        assert(decimal(n) == seq![d]);
        assert(decimal(n).last() == d);
        assert(d as nat - 48 == n);
    }
}

/// Whether a text consists of what addresses are made of.
spec fn plain(text: Seq<char>) -> bool {
    forall|i: int|
        0 <= i < text.len() ==> hex_digit(#[trigger] text[i]) < 16 || text[i] == ':' || text[i]
            == '.'
}

proof fn lemma_v4(octets: Seq<u8>)
    requires
        octets.len() == 4,
    ensures
        v4_octets(v4_text(octets)) == Some(octets),
        plain(v4_text(octets)),
        !v4_text(octets).contains(':'),
        v4_text(octets).len() > 0,
{
    let pieces = decimals(octets);
    assert forall|i: int| 0 <= i < pieces.len() implies octet_value(#[trigger] pieces[i]) == Some(
        octets[i],
    ) && !pieces[i].contains('.') && !pieces[i].contains(':') && plain(pieces[i])
        && pieces[i].len() > 0 by {
        lemma_decimal(octets[i] as nat);
        assert(pieces[i] == decimal(octets[i] as nat));
    }
    assert(without(pieces, '.'));
    split_undoes_join(pieces, '.');
    assert(all_octets(pieces));
    assert(Seq::new(4, |i: int| octet_value(pieces[i])->0) =~= octets);
    lemma_joined_chars(pieces, '.');
}

/// The characters of joined pieces are those of the pieces, and what joins them.
proof fn lemma_joined_chars(pieces: Seq<Seq<char>>, c: char)
    requires
        forall|i: int| 0 <= i < pieces.len() ==> plain(#[trigger] pieces[i]) && pieces[i].len() > 0,
        c == '.' || c == ':',
    ensures
        plain(join(pieces, c)),
        c == '.' && without(pieces, ':') ==> !join(pieces, c).contains(':'),
        pieces.len() > 0 ==> join(pieces, c).len() > 0,
    decreases pieces.len(),
{
    if pieces.len() == 1 {
        assert(join(pieces, c) == pieces[0]);
    } else if pieces.len() > 1 {
        let rest = pieces.subrange(1, pieces.len() as int);
        assert forall|i: int| 0 <= i < rest.len() implies plain(#[trigger] rest[i])
            && rest[i].len() > 0 by {
            assert(rest[i] == pieces[i + 1]);
        }
        lemma_joined_chars(rest, c);
        let text = join(pieces, c);
        let n = pieces[0].len() as int;
        assert forall|i: int| 0 <= i < text.len() implies hex_digit(#[trigger] text[i]) < 16
            || text[i] == ':' || text[i] == '.' by {
            if i < n {
                assert(text[i] == pieces[0][i]);
            } else if i == n {
                assert(text[i] == c);
            } else {
                assert(text[i] == join(rest, c)[i - n - 1]);
            }
        }
        if c == '.' && without(pieces, ':') {
            assert forall|i: int| 0 <= i < rest.len() implies !(#[trigger] rest[i]).contains(
                ':',
            ) by {
                assert(rest[i] == pieces[i + 1]);
            }
            assert forall|i: int| 0 <= i < text.len() implies #[trigger] text[i] != ':' by {
                if i < n {
                    assert(text[i] == pieces[0][i]);
                    assert(pieces[0].contains(pieces[0][i]));
                } else if i > n {
                    assert(text[i] == join(rest, c)[i - n - 1]);
                    assert(join(rest, c).contains(text[i]));
                }
            }
        }
    }
}

proof fn lemma_hex(n: nat)
    ensures
        hex_value(hex_text(n)) == Some(n),
        hex_text(n).len() > 0,
        forall|i: int| 0 <= i < hex_text(n).len() ==> hex_digit(#[trigger] hex_text(n)[i]) < 16,
        n < 0x10 ==> hex_text(n).len() <= 1,
        n < 0x100 ==> hex_text(n).len() <= 2,
        n < 0x1000 ==> hex_text(n).len() <= 3,
        n < 0x1_0000 ==> hex_text(n).len() <= 4,
    decreases n,
{
    let d = hex_char((n % 16) as int);
    assert(hex_digit(d) == n % 16);
    assert(hex_text(n).last() == d);
    if n >= 16 {
        lemma_hex(n / 16);
        assert(hex_text(n).drop_last() =~= hex_text(n / 16));
        assert(n == n / 16 * 16 + n % 16);
    } else {
        assert(hex_text(n).drop_last() =~= Seq::empty());
        assert(hex_value(hex_text(n).drop_last()) == Some(0nat));
        assert(n % 16 == n);
    }
}

/// The texts of groups: each can be read back, and none holds a separator.
proof fn lemma_hex_texts(segments: Seq<u16>)
    ensures
        forall|i: int|
            0 <= i < segments.len() ==> {
                &&& group_value(#[trigger] hex_texts(segments)[i]) == Some(segments[i])
                &&& !hex_texts(segments)[i].contains(':')
                &&& !hex_texts(segments)[i].contains('.')
                &&& plain(hex_texts(segments)[i])
                &&& hex_texts(segments)[i].len() > 0
            },
        without(hex_texts(segments), ':'),
{
    assert forall|i: int| 0 <= i < segments.len() implies {
        &&& group_value(#[trigger] hex_texts(segments)[i]) == Some(segments[i])
        &&& !hex_texts(segments)[i].contains(':')
        &&& !hex_texts(segments)[i].contains('.')
        &&& plain(hex_texts(segments)[i])
        &&& hex_texts(segments)[i].len() > 0
    } by {
        lemma_hex(segments[i] as nat);
        let text = hex_texts(segments)[i];
        assert(text == hex_text(segments[i] as nat));
        assert(hex_digit(':') == 16 && hex_digit('.') == 16);
    }
}

proof fn lemma_groups(segments: Seq<u16>)
    ensures
        head_groups(groups_text(segments)) == Some(segments),
        tail_groups(groups_text(segments)) == Some(segments),
        plain(groups_text(segments)),
        segments.len() > 0 ==> groups_text(segments).len() > 0,
        segments.len() == 0 ==> groups_text(segments).len() == 0,
{
    let pieces = hex_texts(segments);
    let text = groups_text(segments);
    lemma_hex_texts(segments);
    lemma_joined_chars(pieces, ':');
    if segments.len() > 0 {
        split_undoes_join(pieces, ':');
        assert(all_groups(pieces));
        assert(Seq::new(pieces.len(), |i: int| group_value(pieces[i])->0) =~= segments);
        lemma_split_whole(pieces.last(), '.');
        assert(v4_octets(pieces.last()) is None);
    } else {
        assert(text =~= Seq::empty());
        assert(segments =~= Seq::empty());
        lemma_split_whole(text, ':');
        lemma_split_whole(text, '.');
        assert(split(text, ':').last() == text);
        assert(v4_octets(text) is None);
    }
}

/// No two colons in a row, and none at either end.
spec fn no_gap(text: Seq<char>) -> bool {
    &&& forall|j: int| !#[trigger] is_gap_at(text, j)
    &&& text.len() > 0 ==> text[0] != ':' && text.last() != ':'
}

proof fn lemma_joined_no_gap(pieces: Seq<Seq<char>>)
    requires
        without(pieces, ':'),
        forall|i: int| 0 <= i < pieces.len() ==> (#[trigger] pieces[i]).len() > 0,
    ensures
        no_gap(join(pieces, ':')),
        pieces.len() > 0 ==> join(pieces, ':').len() > 0,
    decreases pieces.len(),
{
    let text = join(pieces, ':');
    if pieces.len() >= 1 {
        let first = pieces[0];
        assert forall|j: int| 0 <= j < first.len() implies #[trigger] first[j] != ':' by {
            assert(first.contains(first[j]));
        }
        if pieces.len() > 1 {
            let rest = pieces.subrange(1, pieces.len() as int);
            assert forall|i: int| 0 <= i < rest.len() implies (#[trigger] rest[i]).len() > 0
                && !rest[i].contains(':') by {
                assert(rest[i] == pieces[i + 1]);
            }
            lemma_joined_no_gap(rest);
            let tail = join(rest, ':');
            let n = first.len() as int;
            assert(text == first.push(':') + tail);
            assert forall|j: int| !#[trigger] is_gap_at(text, j) by {
                if 0 <= j < n {
                    assert(text[j] == first[j]);
                } else if j == n && j + 1 < text.len() {
                    assert(text[j + 1] == tail[0]);
                } else if n < j && j + 1 < text.len() {
                    assert(text[j] == tail[j - n - 1]);
                    assert(text[j + 1] == tail[j - n]);
                    assert(!is_gap_at(tail, j - n - 1));
                }
            }
            assert(text[0] == first[0]);
            assert(text.last() == tail.last());
        } else {
            assert(text == first);
            assert forall|j: int| !#[trigger] is_gap_at(text, j) by {
                if 0 <= j < first.len() {
                    assert(first[j] != ':');
                }
            }
        }
    }
}

proof fn lemma_groups_no_gap(segments: Seq<u16>)
    ensures
        no_gap(groups_text(segments)),
{
    lemma_hex_texts(segments);
    lemma_joined_no_gap(hex_texts(segments));
}

proof fn lemma_zero_run(segments: Seq<u16>, i: int)
    requires
        0 <= i <= segments.len(),
    ensures
        0 <= zero_run(segments, i) <= segments.len() - i,
        forall|j: int| i <= j < i + zero_run(segments, i) ==> segments[j] == 0,
    decreases segments.len() - i,
{
    if i < segments.len() && segments[i] == 0 {
        lemma_zero_run(segments, i + 1);
    }
}

proof fn lemma_longest_run(segments: Seq<u16>, n: int)
    requires
        1 <= n <= segments.len(),
    ensures
        0 <= longest_run(segments, n) < n,
    decreases n,
{
    if n > 1 {
        lemma_longest_run(segments, n - 1);
    }
}

/// The text around a gap is read as the groups in front of it and behind it.
proof fn lemma_gap(head: Seq<char>, tail: Seq<char>)
    requires
        no_gap(head),
    ensures
        ({
            let text = head + "::"@ + tail;
            &&& gap_index(text) == head.len()
            &&& head.len() < text.len()
            &&& text.subrange(0, head.len() as int) == head
            &&& text.subrange(head.len() as int + 2, text.len() as int) == tail
        }),
{
    reveal_strlit("::");
    let text = head + "::"@ + tail;
    let n = head.len() as int;
    assert forall|j: int| 0 <= j < n implies !#[trigger] is_gap_at(text, j) by {
        assert(text[j] == head[j]);
        assert(!is_gap_at(head, j));
        if j + 1 < n {
            assert(text[j + 1] == head[j + 1]);
        } else {
            assert(head[j] == head.last());
        }
    }
    assert(text[n] == ':' && text[n + 1] == ':');
    assert(is_gap_at(text, n));
    lemma_is_gap_index(text, n);
    assert(text.subrange(0, n) =~= head);
    assert(text.subrange(n + 2, text.len() as int) =~= tail);
}

proof fn lemma_mapped(segments: Seq<u16>)
    requires
        segments.len() == 8,
        is_mapped(segments),
    ensures
        v6_segments(v6_text(segments)) == Some(segments),
        plain(v6_text(segments)),
{
    reveal_strlit("::ffff:");
    reveal_strlit("::");
    let octets = mapped_octets(segments);
    let address = v4_text(octets);
    let group = seq!['f', 'f', 'f', 'f'];
    lemma_v4(octets);
    let tail = group.push(':') + address;
    let text = v6_text(segments);
    assert(text =~= Seq::<char>::empty() + "::"@ + tail);
    lemma_gap(Seq::empty(), tail);
    assert(!group.contains(':'));
    lemma_split_first(group, address, ':');
    lemma_split_whole(address, ':');
    let pieces = split(tail, ':');
    assert(pieces =~= seq![group, address]);
    assert(pieces.last() == address);
    assert(pieces.drop_last() =~= seq![group]);
    lemma_ffff();
    assert(all_groups(pieces.drop_last()));
    assert(Seq::new(1, |i: int| group_value(pieces.drop_last()[i])->0) =~= seq![0xFFFFu16]);
    assert(octet_groups(octets) =~= segments.subrange(6, 8)) by {
        assert(segments[6] / 256 * 256 + segments[6] % 256 == segments[6]);
        assert(segments[7] / 256 * 256 + segments[7] % 256 == segments[7]);
    }
    assert(tail_groups(tail) == Some(seq![0xFFFFu16] + segments.subrange(6, 8)));
    assert(Seq::<u16>::empty() + zeros(5) + (seq![0xFFFFu16] + segments.subrange(6, 8))
        =~= segments);
    assert forall|i: int| 0 <= i < text.len() implies hex_digit(#[trigger] text[i]) < 16 || text[i]
        == ':' || text[i] == '.' by {
        if i >= 7 {
            assert(text[i] == address[i - 7]);
        }
    }
}

proof fn lemma_ffff()
    ensures
        group_value(seq!['f', 'f', 'f', 'f']) == Some(0xFFFFu16),
{
    let text = seq!['f', 'f', 'f', 'f'];
    assert(text.drop_last() =~= seq!['f', 'f', 'f']);
    assert(text.drop_last().drop_last() =~= seq!['f', 'f']);
    assert(text.drop_last().drop_last().drop_last() =~= seq!['f']);
    assert(text.drop_last().drop_last().drop_last().drop_last() =~= Seq::empty());
    assert(hex_value(text.drop_last().drop_last().drop_last().drop_last()) == Some(0nat));
    assert(hex_value(text.drop_last().drop_last().drop_last()) == Some(0xFnat));
    assert(hex_value(text.drop_last().drop_last()) == Some(0xFFnat));
    assert(hex_value(text.drop_last()) == Some(0xFFFnat));
    assert(hex_value(text) == Some(0xFFFFnat));
}

proof fn lemma_v6(segments: Seq<u16>)
    requires
        segments.len() == 8,
    ensures
        v6_segments(v6_text(segments)) == Some(segments),
        plain(v6_text(segments)),
{
    let start = longest_run(segments, 8);
    let run = zero_run(segments, start);
    lemma_longest_run(segments, 8);
    lemma_zero_run(segments, start);
    let text = v6_text(segments);
    if is_mapped(segments) {
        lemma_mapped(segments);
    } else if run > 1 {
        let before = segments.subrange(0, start);
        let behind = segments.subrange(start + run, 8);
        let head = groups_text(before);
        let tail = groups_text(behind);
        lemma_groups(before);
        lemma_groups(behind);
        lemma_groups_no_gap(before);
        lemma_gap(head, tail);
        assert(before + zeros(run as nat) + behind =~= segments);
        reveal_strlit("::");
        assert forall|i: int| 0 <= i < text.len() implies hex_digit(#[trigger] text[i]) < 16
            || text[i] == ':' || text[i] == '.' by {
            if i < head.len() {
                assert(text[i] == head[i]);
            } else if i >= head.len() + 2 {
                assert(text[i] == tail[i - head.len() - 2]);
            }
        }
    } else {
        lemma_groups(segments);
        lemma_groups_no_gap(segments);
        lemma_is_gap_index(text, text.len() as int);
    }
}

proof fn lemma_v4_addr(octets: Seq<u8>, port: u16)
    requires
        octets.len() == 4,
    ensures
        parsed_addr(addr_text(AddrModel::V4 { octets, port })) == Some(
            AddrModel::V4 { octets, port },
        ),
{
    let text = addr_text(AddrModel::V4 { octets, port });
    reveal_strlit(":");
    lemma_v4(octets);
    lemma_decimal(port as nat);
    let ip = v4_text(octets);
    let n = ip.len() as int;
    assert forall|j: int| 0 <= j < n implies text[j] != ':' && text[j] != '[' by {
        assert(text[j] == ip[j]);
        assert(ip.contains(ip[j]));
        assert(hex_digit('[') == 16);
    }
    assert(text[n] == ':');
    lemma_is_first_index(text, ':', n);
    assert(text.subrange(0, n) =~= ip);
    assert(text.subrange(n + 1, text.len() as int) =~= decimal(port as nat));
}

/// What stands between the brackets.
spec fn inside_text(segments: Seq<u16>, scope_id: u32) -> Seq<char> {
    if scope_id == 0 {
        v6_text(segments)
    } else {
        v6_text(segments) + "%"@ + decimal(scope_id as nat)
    }
}

proof fn lemma_inside(segments: Seq<u16>, scope_id: u32)
    requires
        segments.len() == 8,
    ensures
        scoped_segments(inside_text(segments, scope_id)) == Some((segments, scope_id)),
        forall|j: int|
            0 <= j < inside_text(segments, scope_id).len() ==> inside_text(segments, scope_id)[j]
                != ']',
{
    reveal_strlit("%");
    lemma_v6(segments);
    lemma_decimal(scope_id as nat);
    let ip = v6_text(segments);
    let inside = inside_text(segments, scope_id);
    let n = inside.len() as int;
    let m = ip.len() as int;
    assert(hex_digit(']') == 16 && hex_digit('%') == 16);
    assert forall|j: int| 0 <= j < n implies inside[j] != ']' by {
        if j < m {
            assert(inside[j] == ip[j]);
        } else if j > m {
            assert(inside[j] == decimal(scope_id as nat)[j - m - 1]);
        }
    }
    assert forall|j: int| 0 <= j < m implies inside[j] != '%' by {
        assert(inside[j] == ip[j]);
    }
    lemma_is_first_index(inside, '%', m);
    if scope_id != 0 {
        assert(inside.subrange(0, m) =~= ip);
        assert(inside.subrange(m + 1, n) =~= decimal(scope_id as nat));
    }
}

proof fn lemma_v6_addr(segments: Seq<u16>, port: u16, scope_id: u32)
    requires
        segments.len() == 8,
    ensures
        parsed_addr(addr_text(AddrModel::V6 { segments, port, scope_id })) == Some(
            AddrModel::V6 { segments, port, scope_id },
        ),
{
    reveal_strlit("[");
    reveal_strlit("]:");
    lemma_inside(segments, scope_id);
    lemma_decimal(port as nat);
    let text = addr_text(AddrModel::V6 { segments, port, scope_id });
    let inside = inside_text(segments, scope_id);
    let n = inside.len() as int;
    assert(text =~= "["@ + inside + "]:"@ + decimal(port as nat));
    assert(text[0] == '[');
    assert forall|j: int| 0 <= j < n + 1 implies text[j] != ']' by {
        if j > 0 {
            assert(text[j] == inside[j - 1]);
        }
    }
    assert(text[n + 1] == ']' && text[n + 2] == ':');
    lemma_is_first_index(text, ']', n + 1);
    assert(text.subrange(1, n + 1) =~= inside);
    assert(text.subrange(n + 3, text.len() as int) =~= decimal(port as nat));
}

/// An address can be read back from its text.
pub proof fn addresses_survive_text(addr: AddrModel)
    requires
        match addr {
            AddrModel::V4 { octets, port } => octets.len() == 4,
            AddrModel::V6 { segments, port, scope_id } => segments.len() == 8,
        },
    ensures
        parsed_addr(addr_text(addr)) == Some(addr),
{
    match addr {
        AddrModel::V4 { octets, port } => {
            lemma_v4_addr(octets, port);
        },
        AddrModel::V6 { segments, port, scope_id } => {
            lemma_v6_addr(segments, port, scope_id);
        },
    }
}

} // verus!
