//! Texts in pieces: cutting at a character, and joining.
use crate::utils::text::{first_index, index_of, lemma_first_index, lemma_is_first_index};
use vstd::prelude::*;

verus! {

/// The pieces of a text between the places where `c` is. There is always at least one.
pub open spec fn split(text: Seq<char>, c: char) -> Seq<Seq<char>>
    decreases text.len(),
    via split_decreases
{
    let at = first_index(text, c);
    if at >= text.len() {
        seq![text]
    } else {
        seq![text.subrange(0, at)] + split(text.subrange(at + 1, text.len() as int), c)
    }
}

#[via_fn]
proof fn split_decreases(text: Seq<char>, c: char) {
    lemma_first_index(text, c);
}

/// Pieces with `c` between them.
pub open spec fn join(pieces: Seq<Seq<char>>, c: char) -> Seq<char>
    decreases pieces.len(),
{
    if pieces.len() == 0 {
        Seq::empty()
    } else if pieces.len() == 1 {
        pieces[0]
    } else {
        pieces[0].push(c) + join(pieces.subrange(1, pieces.len() as int), c)
    }
}

/// Whether no piece holds `c`.
pub open spec fn without(pieces: Seq<Seq<char>>, c: char) -> bool {
    forall|i: int| 0 <= i < pieces.len() ==> !(#[trigger] pieces[i]).contains(c)
}

/// A text in which nothing is to be cut is its only piece.
pub proof fn lemma_split_whole(text: Seq<char>, c: char)
    requires
        !text.contains(c),
    ensures
        split(text, c) == seq![text],
{
    lemma_first_index(text, c);
}

/// The first piece, and the pieces of the rest.
pub proof fn lemma_split_first(first: Seq<char>, rest: Seq<char>, c: char)
    requires
        !first.contains(c),
    ensures
        split(first.push(c) + rest, c) == seq![first] + split(rest, c),
{
    let text = first.push(c) + rest;
    assert forall|j: int| 0 <= j < first.len() implies text[j] != c by {
        assert(text[j] == first[j]);
    }
    assert(text[first.len() as int] == c);
    lemma_is_first_index(text, c, first.len() as int);
    assert(text.subrange(0, first.len() as int) =~= first);
    assert(text.subrange(first.len() as int + 1, text.len() as int) =~= rest);
}

/// One more piece at the end.
pub proof fn lemma_join_push(pieces: Seq<Seq<char>>, c: char)
    requires
        pieces.len() > 1,
    ensures
        join(pieces, c) == join(pieces.drop_last(), c).push(c) + pieces.last(),
    decreases pieces.len(),
{
    let rest = pieces.subrange(1, pieces.len() as int);
    let front = pieces.drop_last();
    if pieces.len() == 2 {
        assert(join(rest, c) == rest[0]);
        assert(join(front, c) == front[0]);
        assert(join(pieces, c) == pieces[0].push(c) + pieces[1]);
    } else {
        lemma_join_push(rest, c);
        let middle = front.subrange(1, front.len() as int);
        assert(rest.drop_last() =~= middle);
        assert(join(front, c) == pieces[0].push(c) + join(middle, c));
        assert(join(pieces, c) == pieces[0].push(c) + (join(middle, c).push(c) + pieces.last()));
        assert(join(pieces, c) =~= join(front, c).push(c) + pieces.last());
    }
}

/// What was joined is cut into the same pieces again.
pub proof fn split_undoes_join(pieces: Seq<Seq<char>>, c: char)
    requires
        pieces.len() > 0,
        without(pieces, c),
    ensures
        split(join(pieces, c), c) == pieces,
    decreases pieces.len(),
{
    if pieces.len() == 1 {
        lemma_split_whole(pieces[0], c);
        assert(seq![pieces[0]] =~= pieces);
    } else {
        let rest = pieces.subrange(1, pieces.len() as int);
        assert forall|i: int| 0 <= i < rest.len() implies !(#[trigger] rest[i]).contains(c) by {
            assert(rest[i] == pieces[i + 1]);
        }
        split_undoes_join(rest, c);
        lemma_split_first(pieces[0], join(rest, c), c);
        assert(seq![pieces[0]] + rest =~= pieces);
    }
}

/// No piece holds the character at which the text was cut.
pub proof fn lemma_split_pieces(text: Seq<char>, c: char)
    ensures
        split(text, c).len() > 0,
        without(split(text, c), c),
    decreases text.len(),
{
    lemma_first_index(text, c);
    let at = first_index(text, c);
    if at < text.len() {
        let rest = text.subrange(at + 1, text.len() as int);
        lemma_split_pieces(rest, c);
        assert forall|i: int| 0 <= i < split(text, c).len() implies !(#[trigger] split(
            text,
            c,
        )[i]).contains(c) by {
            if i > 0 {
                assert(split(text, c)[i] == split(rest, c)[i - 1]);
            }
        }
    }
}

pub open spec fn lists(pieces: Seq<Vec<char>>) -> Seq<Seq<char>> {
    Seq::new(pieces.len(), |i: int| pieces[i]@)
}

/// The characters from one place to another.
pub fn part(chars: &Vec<char>, from: usize, to: usize) -> (r: Vec<char>)
    requires
        from <= to <= chars@.len(),
    ensures
        r@ == chars@.subrange(from as int, to as int),
{
    let mut out: Vec<char> = Vec::new();
    let mut i: usize = from;
    while i < to
        invariant
            from <= i <= to <= chars@.len(),
            out@ == chars@.subrange(from as int, i as int),
        decreases to - i,
    {
        out.push(chars[i]);
        i = i + 1;
        assert(chars@.subrange(from as int, i as int) =~= chars@.subrange(from as int, i - 1).push(
            chars@[i - 1],
        ));
    }
    out
}

/// Cuts a text wherever `c` is.
pub fn split_chars(chars: &Vec<char>, c: char) -> (r: Vec<Vec<char>>)
    ensures
        lists(r@) == split(chars@, c),
        r@.len() > 0,
    decreases chars@.len(),
{
    let at: usize = index_of(chars, c);
    let mut out: Vec<Vec<char>> = Vec::new();
    if at == chars.len() {
        out.push(part(chars, 0, at));
        assert(chars@.subrange(0, at as int) =~= chars@);
        assert(lists(out@) =~= seq![chars@]);
        return out;
    }
    let first = part(chars, 0, at);
    let rest = part(chars, at + 1, chars.len());
    let ghost first_list = first@;
    out.push(first);
    let mut others = split_chars(&rest, c);
    let ghost other_lists = lists(others@);
    let ghost others_before = others@;
    out.append(&mut others);
    assert forall|i: int| 0 <= i < out@.len() implies lists(out@)[i] == (seq![first_list]
        + other_lists)[i] by {
        if i > 0 {
            assert(out@[i] == others_before[i - 1]);
        }
    }
    assert(lists(out@) =~= seq![first_list] + other_lists);
    out
}

/// Cutting a text loses nothing: its pieces give the text again.
pub proof fn join_undoes_split(text: Seq<char>, c: char)
    ensures
        join(split(text, c), c) == text,
    decreases text.len(),
{
    lemma_first_index(text, c);
    let at = first_index(text, c);
    if at < text.len() {
        let rest = text.subrange(at + 1, text.len() as int);
        join_undoes_split(rest, c);
        lemma_split_pieces(rest, c);
        let pieces = split(text, c);
        assert(pieces.subrange(1, pieces.len() as int) =~= split(rest, c));
        assert(pieces[0].push(c) + rest =~= text);
    }
}

/// Joined pieces hold the pieces one behind the other, with one `c` between each two.
pub proof fn pieces_keep_their_place(first: Seq<char>, second: Seq<char>, c: char)
    ensures
        join(seq![first, second], c) == first + seq![c] + second,
        join(seq![first], c) == first,
{
    let pieces = seq![first, second];
    assert(pieces.subrange(1, 2) =~= seq![second]);
    assert(join(pieces.subrange(1, 2), c) == second);
    assert(join(pieces, c) =~= first + seq![c] + second);
}

} // verus!
