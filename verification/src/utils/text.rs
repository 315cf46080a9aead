//! Text as sequences of characters: decimal numbers, comparison, prefixes and pieces.
use vstd::prelude::*;
use vstd::std_specs::iter::IteratorSpec;

verus! {

/// `String::push` puts one character behind the text.
pub assume_specification[ String::push ](text: &mut String, c: char)
    ensures
        final(text)@ == old(text)@.push(c),
;

/// A text in quotation marks, as `Debug` writes it, with special characters escaped.
pub uninterp spec fn debug_text(text: Seq<char>) -> Seq<char>;

/// Calls `Debug::fmt` of `str` through `format!`. The result depends on the text alone.
#[verifier::external_body]
pub(crate) fn quoted(text: &str) -> (r: String)
    ensures
        r@ == debug_text(text@),
{
    format!("{text:?}")
}

pub open spec fn digit(d: int) -> char {
    (48 + d) as char
}

/// A number in decimal digits, without leading zeros.
pub open spec fn decimal(n: nat) -> Seq<char>
    decreases n,
{
    if n < 10 {
        seq![digit(n as int)]
    } else {
        decimal(n / 10).push(digit((n % 10) as int))
    }
}

pub open spec fn signed_decimal(n: int) -> Seq<char> {
    if n < 0 {
        seq!['-'] + decimal((-n) as nat)
    } else {
        decimal(n as nat)
    }
}

fn digit_char(d: u8) -> (r: char)
    requires
        d < 10,
    ensures
        r == digit(d as int),
{
    (48 + d) as char
}

/// Puts a number behind a text.
pub fn push_decimal(text: &mut String, n: u64)
    ensures
        final(text)@ == old(text)@ + decimal(n as nat),
    decreases n,
{
    let ghost before = text@;
    if n >= 10 {
        push_decimal(text, n / 10);
    }
    text.push(digit_char((n % 10) as u8));
    assert(text@ =~= before + decimal(n as nat));
}

pub fn push_signed_decimal(text: &mut String, n: i64)
    ensures
        final(text)@ == old(text)@ + signed_decimal(n as int),
{
    let ghost before = text@;
    if n < 0 {
        text.push('-');
        let m: u64 = (-(n as i128)) as u64;
        push_decimal(text, m);
    } else {
        push_decimal(text, n as u64);
    }
    assert(text@ =~= before + signed_decimal(n as int));
}

/// The characters of a text.
pub fn chars_of(text: &str) -> (r: Vec<char>)
    ensures
        r@ == text@,
{
    let n: usize = text.unicode_len();
    let mut out: Vec<char> = Vec::with_capacity(n);
    let mut rest = text.chars();
    let ghost all = text@;
    loop
        invariant
            rest.obeys_prophetic_iter_laws(),
            rest.decrease() is Some,
            out@ + rest.remaining() == all,
        ensures
            out@ == all,
        decreases rest.decrease()->0,
    {
        let ghost before = rest.remaining();
        match rest.next() {
            Some(c) => {
                out.push(c);
                assert(out@ + rest.remaining() =~= all) by {
                    assert(before =~= seq![c] + rest.remaining());
                }
            },
            None => {
                assert(out@ =~= all);
                break;
            },
        }
    }
    out
}

/// A piece of a list of characters as a text.
pub fn text_between(chars: &Vec<char>, from: usize, to: usize) -> (r: String)
    requires
        from <= to <= chars@.len(),
    ensures
        r@ == chars@.subrange(from as int, to as int),
{
    let mut out = String::new();
    let mut i: usize = from;
    assert(out@ =~= chars@.subrange(from as int, from as int));
    while i < to
        invariant
            from <= i <= to <= chars@.len(),
            out@ == chars@.subrange(from as int, i as int),
        decreases to - i,
    {
        out.push(chars[i]);
        i = i + 1;
        assert(chars@.subrange(from as int, i as int) =~= chars@.subrange(from as int, i - 1).push(
            chars@[i - 1],
        ));
    }
    out
}

pub fn text_of(chars: &Vec<char>) -> (r: String)
    ensures
        r@ == chars@,
{
    let r = text_between(chars, 0, chars.len());
    assert(chars@.subrange(0, chars@.len() as int) =~= chars@);
    r
}

fn same_chars(a: &Vec<char>, b: &Vec<char>) -> (r: bool)
    ensures
        r == (a@ == b@),
{
    if a.len() != b.len() {
        return false;
    }
    let mut i: usize = 0;
    while i < a.len()
        invariant
            a@.len() == b@.len(),
            i <= a@.len(),
            forall|j: int| 0 <= j < i ==> a@[j] == b@[j],
        decreases a@.len() - i,
    {
        if a[i] != b[i] {
            return false;
        }
        i = i + 1;
    }
    assert(a@ =~= b@);
    true
}

pub fn same_text(a: &str, b: &str) -> (r: bool)
    ensures
        r == (a@ == b@),
{
    same_chars(&chars_of(a), &chars_of(b))
}

pub fn owned(text: &str) -> (r: String)
    ensures
        r@ == text@,
{
    String::from_str(text)
}

/// Two texts, one behind the other.
pub fn joined(a: &str, b: &str) -> (r: String)
    ensures
        r@ == a@ + b@,
{
    let mut out = String::from_str(a);
    out.append(b);
    out
}

pub open spec fn has_prefix(text: Seq<char>, prefix: Seq<char>) -> bool {
    prefix.len() <= text.len() && text.subrange(0, prefix.len() as int) == prefix
}

pub open spec fn without_prefix(text: Seq<char>, prefix: Seq<char>) -> Seq<char> {
    text.subrange(prefix.len() as int, text.len() as int)
}

/// What follows `prefix`, where the text begins with it.
pub fn strip_prefix(text: &str, prefix: &str) -> (r: Option<String>)
    ensures
        match r {
            Some(rest) => has_prefix(text@, prefix@) && rest@ == without_prefix(text@, prefix@),
            None => !has_prefix(text@, prefix@),
        },
{
    let t = chars_of(text);
    let p = chars_of(prefix);
    if t.len() < p.len() {
        return None;
    }
    let mut i: usize = 0;
    while i < p.len()
        invariant
            t@ == text@,
            p@ == prefix@,
            i <= p@.len() <= t@.len(),
            forall|j: int| 0 <= j < i ==> t@[j] == p@[j],
        decreases p@.len() - i,
    {
        if t[i] != p[i] {
            assert(t@.subrange(0, p@.len() as int)[i as int] != p@[i as int]);
            return None;
        }
        i = i + 1;
    }
    assert(t@.subrange(0, p@.len() as int) =~= p@);
    Some(text_between(&t, p.len(), t.len()))
}

/// The position of the first `c` in a text, or the length of the text.
pub open spec fn first_index(text: Seq<char>, c: char) -> int
    decreases text.len(),
{
    if text.len() == 0 {
        0
    } else if text[0] == c {
        0
    } else {
        1 + first_index(text.subrange(1, text.len() as int), c)
    }
}

/// `first_index` is where the first `c` is.
pub proof fn lemma_first_index(text: Seq<char>, c: char)
    ensures
        0 <= first_index(text, c) <= text.len(),
        forall|j: int| 0 <= j < first_index(text, c) ==> text[j] != c,
        first_index(text, c) < text.len() ==> text[first_index(text, c)] == c,
        (first_index(text, c) < text.len()) == text.contains(c),
    decreases text.len(),
{
    if text.len() > 0 && text[0] != c {
        let rest = text.subrange(1, text.len() as int);
        lemma_first_index(rest, c);
        assert forall|j: int| 0 <= j < first_index(text, c) implies text[j] != c by {
            if j > 0 {
                assert(rest[j - 1] == text[j]);
            }
        }
        if text.contains(c) {
            let j = choose|j: int| 0 <= j < text.len() && text[j] == c;
            assert(rest[j - 1] == c);
        }
    }
}

/// A position is the first one of `c` where it holds `c` and no position before it does.
pub proof fn lemma_is_first_index(text: Seq<char>, c: char, at: int)
    requires
        0 <= at <= text.len(),
        forall|j: int| 0 <= j < at ==> text[j] != c,
        at < text.len() ==> text[at] == c,
    ensures
        first_index(text, c) == at,
{
    lemma_first_index(text, c);
}

pub fn index_of(chars: &Vec<char>, c: char) -> (r: usize)
    ensures
        r == first_index(chars@, c),
        r <= chars@.len(),
        r < chars@.len() ==> chars@[r as int] == c,
{
    let mut i: usize = 0;
    while i < chars.len() && chars[i] != c
        invariant
            i <= chars@.len(),
            forall|j: int| 0 <= j < i ==> chars@[j] != c,
        decreases chars@.len() - i,
    {
        i = i + 1;
    }
    proof {
        lemma_is_first_index(chars@, c, i as int);
    }
    i
}

pub open spec fn lower_char(c: char) -> char {
    if 'A' <= c <= 'Z' {
        (c as u32 + 32) as char
    } else {
        c
    }
}

/// A text with its ASCII capitals made small.
pub open spec fn lowered(text: Seq<char>) -> Seq<char> {
    text.map_values(|c: char| lower_char(c))
}

pub fn to_lowered(text: &str) -> (r: String)
    ensures
        r@ == lowered(text@),
{
    let chars = chars_of(text);
    let mut out = String::new();
    let mut i: usize = 0;
    while i < chars.len()
        invariant
            chars@ == text@,
            i <= chars@.len(),
            out@ == lowered(chars@.subrange(0, i as int)),
        decreases chars@.len() - i,
    {
        let c = chars[i];
        let small = if 'A' <= c && c <= 'Z' {
            ((c as u8) + 32) as char
        } else {
            c
        };
        out.push(small);
        i = i + 1;
        assert(lowered(chars@.subrange(0, i as int)) =~= lowered(chars@.subrange(0, i - 1)).push(
            small,
        ));
    }
    assert(chars@.subrange(0, i as int) =~= chars@);
    out
}

pub open spec fn is_digit(c: char) -> bool {
    '0' <= c <= '9'
}

/// The number that digits stand for, or nothing where there are no digits or something else.
pub open spec fn digits_value(text: Seq<char>) -> Option<nat>
    decreases text.len(),
{
    if text.len() == 0 || !is_digit(text.last()) {
        None
    } else if text.len() == 1 {
        Some((text.last() as nat - 48) as nat)
    } else {
        match digits_value(text.drop_last()) {
            None => None,
            Some(n) => Some((n * 10 + (text.last() as nat - 48)) as nat),
        }
    }
}

/// An unsigned number as it is read from text: digits, perhaps behind a plus sign, not above `max`.
pub open spec fn parsed_number(text: Seq<char>, max: int) -> Option<int> {
    let digits = if text.len() > 0 && text[0] == '+' {
        text.subrange(1, text.len() as int)
    } else {
        text
    };
    match digits_value(digits) {
        Some(n) => if n <= max {
            Some(n as int)
        } else {
            None
        },
        None => None,
    }
}

/// More digits do not make a number smaller, and do not help where a character is no digit.
pub proof fn lemma_digits_prefix(text: Seq<char>, n: int)
    requires
        0 < n <= text.len(),
    ensures
        digits_value(text) is Some ==> digits_value(text.subrange(0, n)) is Some && digits_value(
            text.subrange(0, n),
        )->0 <= digits_value(text)->0,
    decreases text.len() - n,
{
    if n == text.len() {
        assert(text.subrange(0, n) =~= text);
    } else {
        assert(text.subrange(0, text.len() - 1) =~= text.drop_last());
        lemma_digits_prefix(text.drop_last(), n);
        assert(text.drop_last().subrange(0, n) =~= text.subrange(0, n));
    }
}

/// Reads a number that consists of digits only.
pub fn parse_digits(chars: &Vec<char>, from: usize, max: u64) -> (r: Option<u64>)
    requires
        from <= chars@.len(),
    ensures
        r == (match digits_value(chars@.subrange(from as int, chars@.len() as int)) {
            Some(n) => if n <= max {
                Some(n as u64)
            } else {
                None
            },
            None => None,
        }),
{
    let ghost all = chars@.subrange(from as int, chars@.len() as int);
    if from == chars.len() {
        return None;
    }
    let mut value: u128 = 0;
    let mut i: usize = from;
    while i < chars.len()
        invariant
            from <= i <= chars@.len(),
            from < chars@.len(),
            all == chars@.subrange(from as int, chars@.len() as int),
            i == from ==> value == 0,
            i > from ==> digits_value(all.subrange(0, i - from)) == Some(value as nat),
            value <= max,
        decreases chars@.len() - i,
    {
        let c = chars[i];
        let ghost part = all.subrange(0, i - from + 1);
        assert(part.last() == c);
        assert(part.drop_last() =~= all.subrange(0, i - from));
        proof {
            lemma_digits_prefix(all, i - from + 1);
        }
        if !('0' <= c && c <= '9') {
            return None;
        }
        value = value * 10 + (c as u8 - 48) as u128;
        if value > max as u128 {
            return None;
        }
        i = i + 1;
    }
    assert(all.subrange(0, i - from) =~= all);
    Some(value as u64)
}

/// Reads an unsigned number not above `max`.
pub fn parse_number(text: &str, max: u64) -> (r: Option<u64>)
    ensures
        match r {
            Some(n) => parsed_number(text@, max as int) == Some(n as int),
            None => parsed_number(text@, max as int) is None,
        },
{
    let chars = chars_of(text);
    let from: usize = if chars.len() > 0 && chars[0] == '+' {
        1
    } else {
        0
    };
    assert(chars@.subrange(0, chars@.len() as int) =~= chars@);
    parse_digits(&chars, from, max)
}

/// Capitals become the small letters of the same place in the alphabet, and nothing else changes.
pub proof fn small_letters_stay(text: Seq<char>, i: int, letter: int)
    requires
        0 <= i < text.len(),
        0 <= letter < 26,
    ensures
        lowered(text).len() == text.len(),
        text[i] as int == 'A' as int + letter ==> lowered(text)[i] as int == 'a' as int + letter,
        !('A' <= text[i] <= 'Z') ==> lowered(text)[i] == text[i],
{
}

/// A number of more than one digit has its last digit behind the others.
pub proof fn digits_have_their_place(n: nat, d: nat)
    requires
        d < 10,
    ensures
        decimal(d).len() == 1,
        decimal(d)[0] as int == '0' as int + d,
        n > 0 ==> decimal(10 * n + d) == decimal(n) + decimal(d),
{
    if n > 0 {
        assert((10 * n + d) / 10 == n && (10 * n + d) % 10 == d);
        assert(decimal(10 * n + d) =~= decimal(n) + decimal(d));
    }
}

/// A negative number is written as its amount behind a minus sign.
pub proof fn signs_stand_in_front(n: nat)
    requires
        n > 0,
    ensures
        signed_decimal(-(n as int)) == seq!['-'] + signed_decimal(n as int),
        signed_decimal(n as int) == decimal(n),
        signed_decimal(0) == decimal(0),
{
}

/// A digit more makes a number ten times as large, and adds its value.
pub proof fn digits_are_read_in_order(text: Seq<char>, c: char)
    ensures
        digits_value(Seq::empty()) is None,
        is_digit(c) ==> digits_value(seq![c]) == Some((c as int - '0' as int) as nat),
        !is_digit(c) ==> digits_value(text.push(c)) is None,
        is_digit(c) && text.len() > 0 ==> match digits_value(text) {
            Some(n) => digits_value(text.push(c)) == Some(
                (10 * n + (c as int - '0' as int)) as nat,
            ),
            None => digits_value(text.push(c)) is None,
        },
{
    assert(text.push(c).drop_last() =~= text);
}

/// A number is read if and only if it is not above the largest one allowed. A plus sign in front of it
/// changes nothing.
pub proof fn numbers_are_bounded(digits: Seq<char>, n: nat, max: int)
    requires
        digits_value(digits) == Some(n),
        digits[0] != '+',
    ensures
        parsed_number(digits, max) == (if n <= max {
            Some(n as int)
        } else {
            None
        }),
        parsed_number(seq!['+'] + digits, max) == parsed_number(digits, max),
{
    let text = seq!['+'] + digits;
    assert(text.subrange(1, text.len() as int) =~= digits);
}

} // verus!
