//! What a terminal shows of the text that a picture is drawn with.
use crate::client::backends::sgr_pixels::{
    cell_text, cells_text, change_text, colour_text, half_colour, has_cells, row_text, rows_text,
    screen_text, Canvas, Colour,
};
use crate::utils::socket_addr_text::lemma_decimal;
use crate::utils::split::{join, split, split_undoes_join, without};
use crate::utils::text::{decimal, digits_value, is_digit};
use vstd::prelude::*;

verus! {

/// Red, green and blue.
pub type Rgb = (nat, nat, nat);

/// A cell: the colours of its upper and its lower half, where they were set. An upper half block has
/// the one of the foreground and the other of the background.
pub type ShownCell = (Option<Rgb>, Option<Rgb>);

/// A terminal: the colours that it writes with, the control sequence that it is in the middle of,
/// and the lines on its screen, the last of which it writes on.
#[verifier::ext_equal]
pub struct Terminal {
    pub foreground: Option<Rgb>,
    pub background: Option<Rgb>,
    pub pending: Seq<char>,
    pub lines: Seq<Seq<ShownCell>>,
}

/// The colour that the parameters from the third on stand for.
pub open spec fn colour_parameters(parameters: Seq<Seq<char>>) -> Option<Rgb> {
    match (digits_value(parameters[2]), digits_value(parameters[3]), digits_value(parameters[4])) {
        (Some(red), Some(green), Some(blue)) => Some((red, green, blue)),
        _ => None,
    }
}

/// A control sequence, of which `final_char` is the last character: `J` clears the screen, `H` goes
/// to its beginning, and `m` sets a colour or sets them all back.
pub open spec fn obeyed(terminal: Terminal, final_char: char) -> Terminal {
    let sequence = terminal.pending;
    let parameters = split(sequence.subrange(2, sequence.len() as int), ';');
    let idle = Terminal { pending: Seq::empty(), ..terminal };
    if final_char == 'J' {
        Terminal { lines: seq![Seq::empty()], ..idle }
    } else if final_char == 'm' && parameters.len() == 1 {
        Terminal { foreground: None, background: None, ..idle }
    } else if final_char == 'm' && parameters.len() == 5 && parameters[0] == seq!['3', '8']
        && parameters[1] == seq!['2'] {
        Terminal { foreground: colour_parameters(parameters), ..idle }
    } else if final_char == 'm' && parameters.len() == 5 && parameters[0] == seq!['4', '8']
        && parameters[1] == seq!['2'] {
        Terminal { background: colour_parameters(parameters), ..idle }
    } else {
        idle
    }
}

pub open spec fn is_letter(c: char) -> bool {
    ('A' <= c && c <= 'Z') || ('a' <= c && c <= 'z')
}

/// A terminal after one more character.
pub open spec fn after_char(terminal: Terminal, c: char) -> Terminal {
    if c == '\x1b' {
        Terminal { pending: seq![c], ..terminal }
    } else if terminal.pending.len() > 0 {
        if is_letter(c) {
            obeyed(terminal, c)
        } else {
            Terminal { pending: terminal.pending.push(c), ..terminal }
        }
    } else if c == '\n' {
        Terminal { lines: terminal.lines.push(Seq::empty()), ..terminal }
    } else if terminal.lines.len() > 0 {
        let cell = if c == '▀' {
            (terminal.foreground, terminal.background)
        } else {
            (terminal.background, terminal.background)
        };
        Terminal {
            lines: terminal.lines.drop_last().push(terminal.lines.last().push(cell)),
            ..terminal
        }
    } else {
        terminal
    }
}

pub open spec fn after_text(terminal: Terminal, text: Seq<char>) -> Terminal
    decreases text.len(),
{
    if text.len() == 0 {
        terminal
    } else {
        after_char(after_text(terminal, text.drop_last()), text.last())
    }
}

proof fn lemma_after_both(terminal: Terminal, a: Seq<char>, b: Seq<char>)
    ensures
        after_text(terminal, a + b) == after_text(after_text(terminal, a), b),
    decreases b.len(),
{
    if b.len() == 0 {
        assert(a + b =~= a);
    } else {
        assert((a + b).drop_last() =~= a + b.drop_last());
        lemma_after_both(terminal, a, b.drop_last());
    }
}

/// Characters that end no control sequence.
pub open spec fn is_quiet(text: Seq<char>) -> bool {
    forall|i: int| 0 <= i < text.len() ==> !is_letter(#[trigger] text[i]) && text[i] != '\x1b'
}

proof fn lemma_pending(terminal: Terminal, text: Seq<char>)
    requires
        terminal.pending.len() > 0,
        is_quiet(text),
    ensures
        after_text(terminal, text) == (Terminal { pending: terminal.pending + text, ..terminal }),
    decreases text.len(),
{
    if text.len() == 0 {
        assert(terminal.pending + text =~= terminal.pending);
    } else {
        let front = text.drop_last();
        assert forall|i: int| 0 <= i < front.len() implies !is_letter(#[trigger] front[i])
            && front[i] != '\x1b' by {
            assert(front[i] == text[i]);
        }
        lemma_pending(terminal, front);
        assert(terminal.pending + text =~= (terminal.pending + front).push(text.last()));
        assert(!is_letter(text[text.len() - 1]));
    }
}

/// A control sequence from its beginning to its end.
proof fn lemma_sequence(terminal: Terminal, inner: Seq<char>, final_char: char)
    requires
        is_quiet(inner),
        is_letter(final_char),
    ensures
        after_text(terminal, seq!['\x1b', '['] + inner + seq![final_char]) == obeyed(
            Terminal { pending: seq!['\x1b', '['] + inner, ..terminal },
            final_char,
        ),
{
    let start = seq!['\x1b'];
    let begun = after_text(terminal, start);
    assert(start.drop_last() =~= Seq::<char>::empty());
    assert(after_text(terminal, start.drop_last()) == terminal);
    assert(begun == Terminal { pending: seq!['\x1b'], ..terminal });
    let rest = seq!['['] + inner;
    assert(is_quiet(rest)) by {
        assert forall|i: int| 0 <= i < rest.len() implies !is_letter(#[trigger] rest[i]) && rest[i]
            != '\x1b' by {
            if i > 0 {
                assert(rest[i] == inner[i - 1]);
            }
        }
    }
    lemma_pending(begun, rest);
    lemma_after_both(terminal, start, rest);
    let front = start + rest;
    assert(front =~= seq!['\x1b', '['] + inner);
    let whole = seq!['\x1b', '['] + inner + seq![final_char];
    assert(whole.drop_last() =~= front);
    assert(begun.pending + rest =~= front);
}

/// The parameters that set a colour, `kind` being which.
spec fn parameters_text(kind: Seq<char>, c: Colour) -> Seq<char> {
    kind + seq![';', '2', ';'] + decimal(c.red as nat) + ";"@ + decimal(c.green as nat) + ";"@
        + decimal(c.blue as nat)
}

spec fn parameters_of(kind: Seq<char>, c: Colour) -> Seq<Seq<char>> {
    seq![kind, seq!['2'], decimal(c.red as nat), decimal(c.green as nat), decimal(c.blue as nat)]
}

proof fn lemma_parameters_without(kind: Seq<char>, c: Colour)
    requires
        kind == seq!['3', '8'] || kind == seq!['4', '8'],
    ensures
        without(parameters_of(kind, c), ';'),
{
    let pieces = parameters_of(kind, c);
    lemma_decimal(c.red as nat);
    lemma_decimal(c.green as nat);
    lemma_decimal(c.blue as nat);
    assert forall|i: int| 0 <= i < pieces.len() implies !(#[trigger] pieces[i]).contains(';') by {
        assert forall|j: int| 0 <= j < pieces[i].len() implies pieces[i][j] != ';' by {
            if i >= 2 {
                assert(is_digit(pieces[i][j]));
            }
        }
    }
}

proof fn lemma_parameters_joined(kind: Seq<char>, c: Colour)
    ensures
        join(parameters_of(kind, c), ';') == parameters_text(kind, c),
{
    reveal_strlit(";");
    let pieces = parameters_of(kind, c);
    let (red, green, blue) = (c.red as nat, c.green as nat, c.blue as nat);
    let p1 = pieces.subrange(1, 5);
    let p2 = p1.subrange(1, 4);
    let p3 = p2.subrange(1, 3);
    let p4 = p3.subrange(1, 2);
    assert(join(p4, ';') == decimal(blue));
    assert(join(p3, ';') == decimal(green).push(';') + decimal(blue));
    assert(join(p2, ';') == decimal(red).push(';') + join(p3, ';'));
    assert(join(p1, ';') == seq!['2'].push(';') + join(p2, ';'));
    assert(join(pieces, ';') == kind.push(';') + join(p1, ';'));
    assert(join(pieces, ';') =~= parameters_text(kind, c));
}

proof fn lemma_quiet_both(a: Seq<char>, b: Seq<char>)
    requires
        is_quiet(a),
        is_quiet(b),
    ensures
        is_quiet(a + b),
{
    assert forall|i: int| 0 <= i < (a + b).len() implies !is_letter(#[trigger] (a + b)[i]) && (a
        + b)[i] != '\x1b' by {
        if i < a.len() {
            assert((a + b)[i] == a[i]);
        } else {
            assert((a + b)[i] == b[i - a.len()]);
        }
    }
}

proof fn lemma_quiet_decimal(n: nat)
    ensures
        is_quiet(decimal(n)),
{
    lemma_decimal(n);
    assert forall|i: int| 0 <= i < decimal(n).len() implies !is_letter(#[trigger] decimal(n)[i])
        && decimal(n)[i] != '\x1b' by {
        assert(is_digit(decimal(n)[i]));
    }
}

proof fn lemma_parameters_quiet(kind: Seq<char>, c: Colour)
    requires
        kind == seq!['3', '8'] || kind == seq!['4', '8'],
    ensures
        is_quiet(parameters_text(kind, c)),
{
    reveal_strlit(";");
    let (red, green, blue) = (decimal(c.red as nat), decimal(c.green as nat), decimal(c.blue as nat));
    lemma_quiet_decimal(c.red as nat);
    lemma_quiet_decimal(c.green as nat);
    lemma_quiet_decimal(c.blue as nat);
    let a = kind + seq![';', '2', ';'];
    assert(is_quiet(a));
    assert(is_quiet(";"@));
    lemma_quiet_both(a, red);
    lemma_quiet_both(a + red, ";"@);
    lemma_quiet_both(a + red + ";"@, green);
    lemma_quiet_both(a + red + ";"@ + green, ";"@);
    lemma_quiet_both(a + red + ";"@ + green + ";"@, blue);
}

proof fn lemma_colour_sequence(terminal: Terminal, introducer: Seq<char>, kind: Seq<char>, c: Colour)
    requires
        kind == seq!['3', '8'] || kind == seq!['4', '8'],
        introducer == seq!['\x1b', '['] + kind + seq![';', '2', ';'],
    ensures
        after_text(terminal, colour_text(introducer, c)) == ({
            let rgb = Some((c.red as nat, c.green as nat, c.blue as nat));
            if kind == seq!['3', '8'] {
                Terminal { foreground: rgb, pending: Seq::empty(), ..terminal }
            } else {
                Terminal { background: rgb, pending: Seq::empty(), ..terminal }
            }
        }),
{
    let pieces = parameters_of(kind, c);
    let inner = parameters_text(kind, c);
    lemma_parameters_without(kind, c);
    lemma_parameters_joined(kind, c);
    lemma_parameters_quiet(kind, c);
    split_undoes_join(pieces, ';');
    lemma_sequence(terminal, inner, 'm');
    let sequence = seq!['\x1b', '['] + inner;
    assert(sequence.subrange(2, sequence.len() as int) =~= inner);
    assert(colour_text(introducer, c) =~= sequence + seq!['m']) by {
        reveal_strlit("m");
    }
    lemma_decimal(c.red as nat);
    lemma_decimal(c.green as nat);
    lemma_decimal(c.blue as nat);
    assert(seq!['3', '8'][0] != seq!['4', '8'][0]);
}

/// The colour of the pixel that half a cell stands for: the pixels are spread evenly over the cells.
pub open spec fn pixel_shown(canvas: Canvas, col: int, half: int) -> Rgb {
    let x = col * canvas.width / canvas.cols;
    let y = half * canvas.height / (canvas.rows * 2);
    let at = (y * canvas.width + x) * 4;
    (canvas.rgba[at] as nat, canvas.rgba[at + 1] as nat, canvas.rgba[at + 2] as nat)
}

/// The first `n` cells of a line of the picture.
pub open spec fn line_shown(canvas: Canvas, row: int, n: int) -> Seq<ShownCell> {
    Seq::new(
        n as nat,
        |col: int|
            (
                Some(pixel_shown(canvas, col, row * 2)),
                Some(pixel_shown(canvas, col, row * 2 + 1)),
            ),
    )
}

/// The first `n` lines of the picture.
pub open spec fn lines_shown(canvas: Canvas, n: int) -> Seq<Seq<ShownCell>> {
    Seq::new(n as nat, |row: int| line_shown(canvas, row, canvas.cols))
}

proof fn lemma_change(terminal: Terminal, canvas: Canvas, fore: bool, col: int, half: int)
    requires
        terminal.pending.len() == 0,
        0 <= col,
        col > 0 ==> (if fore {
            terminal.foreground
        } else {
            terminal.background
        }) == Some(pixel_shown(canvas, col - 1, half)),
    ensures
        after_text(
            terminal,
            change_text(
                canvas,
                if fore {
                    "\x1b[38;2;"@
                } else {
                    "\x1b[48;2;"@
                },
                col,
                half,
            ),
        ) == (if fore {
            Terminal { foreground: Some(pixel_shown(canvas, col, half)), ..terminal }
        } else {
            Terminal { background: Some(pixel_shown(canvas, col, half)), ..terminal }
        }),
{
    reveal_strlit("\x1b[38;2;");
    reveal_strlit("\x1b[48;2;");
    let (introducer, kind) = if fore {
        ("\x1b[38;2;"@, seq!['3', '8'])
    } else {
        ("\x1b[48;2;"@, seq!['4', '8'])
    };
    assert(introducer =~= seq!['\x1b', '['] + kind + seq![';', '2', ';']);
    lemma_colour_sequence(terminal, introducer, kind, half_colour(canvas, col, half));
    assert(terminal.pending =~= Seq::<char>::empty());
    assert(seq!['3', '8'][0] != seq!['4', '8'][0]);
}

proof fn lemma_cells(terminal: Terminal, canvas: Canvas, row: int, n: int)
    requires
        terminal.pending.len() == 0,
        terminal.lines.len() > 0,
        terminal.lines.last().len() == 0,
        0 <= n,
    ensures
        ({
            let after = after_text(terminal, cells_text(canvas, row, n));
            &&& after.pending.len() == 0
            &&& after.lines == terminal.lines.drop_last().push(line_shown(canvas, row, n))
            &&& n > 0 ==> after.foreground == Some(pixel_shown(canvas, n - 1, row * 2))
                && after.background == Some(pixel_shown(canvas, n - 1, row * 2 + 1))
        }),
    decreases n,
{
    if n == 0 {
        assert(terminal.lines.last() =~= line_shown(canvas, row, 0));
        assert(terminal.lines =~= terminal.lines.drop_last().push(line_shown(canvas, row, 0)));
    } else {
        lemma_cells(terminal, canvas, row, n - 1);
        let col = n - 1;
        let before = after_text(terminal, cells_text(canvas, row, col));
        let fore = change_text(canvas, "\x1b[38;2;"@, col, row * 2);
        let back = change_text(canvas, "\x1b[48;2;"@, col, row * 2 + 1);
        reveal_strlit("▀");
        let block = "▀"@;
        lemma_after_both(terminal, cells_text(canvas, row, col), cell_text(canvas, col, row));
        lemma_after_both(before, fore + back, block);
        lemma_after_both(before, fore, back);
        lemma_change(before, canvas, true, col, row * 2);
        let set = after_text(before, fore);
        lemma_change(set, canvas, false, col, row * 2 + 1);
        let both = after_text(set, back);
        assert(block.drop_last() =~= Seq::<char>::empty());
        assert(after_text(both, block.drop_last()) == both);
        assert(after_text(both, block) == after_char(both, block[0]));
        assert(cells_text(canvas, row, n) == cells_text(canvas, row, col) + cell_text(
            canvas,
            col,
            row,
        ));
        assert(line_shown(canvas, row, n) =~= line_shown(canvas, row, col).push(
            (
                Some(pixel_shown(canvas, col, row * 2)),
                Some(pixel_shown(canvas, col, row * 2 + 1)),
            ),
        ));
        let after = after_text(terminal, cells_text(canvas, row, n));
        assert(after == after_char(both, block[0]));
        assert(after.lines =~= terminal.lines.drop_last().push(line_shown(canvas, row, n)));
    }
}

proof fn lemma_reset(terminal: Terminal)
    ensures
        after_text(terminal, "\x1b[0m"@) == (Terminal {
            foreground: None,
            background: None,
            pending: Seq::empty(),
            ..terminal
        }),
{
    reveal_strlit("\x1b[0m");
    let inner = seq!['0'];
    lemma_sequence(terminal, inner, 'm');
    assert("\x1b[0m"@ =~= seq!['\x1b', '['] + inner + seq!['m']);
    let sequence = seq!['\x1b', '['] + inner;
    assert(sequence.subrange(2, 3) =~= inner);
    let pieces = seq![inner];
    assert(without(pieces, ';'));
    split_undoes_join(pieces, ';');
    assert(join(pieces, ';') == inner);
}

proof fn lemma_rows(terminal: Terminal, canvas: Canvas, n: int)
    requires
        terminal.pending.len() == 0,
        terminal.lines == seq![Seq::<ShownCell>::empty()],
        has_cells(canvas),
        0 <= n <= canvas.rows,
    ensures
        ({
            let after = after_text(terminal, rows_text(canvas, n));
            &&& after.pending.len() == 0
            &&& after.lines == (if n < canvas.rows {
                lines_shown(canvas, n).push(Seq::empty())
            } else {
                lines_shown(canvas, n)
            })
            &&& n > 0 ==> after.foreground is None && after.background is None
        }),
    decreases n,
{
    if n == 0 {
        assert(terminal.lines =~= lines_shown(canvas, 0).push(Seq::empty()));
    } else {
        let row = n - 1;
        lemma_rows(terminal, canvas, row);
        let before = after_text(terminal, rows_text(canvas, row));
        lemma_after_both(terminal, rows_text(canvas, row), row_text(canvas, row));
        let cells = cells_text(canvas, row, canvas.cols);
        let tail = if row + 1 < canvas.rows {
            "\n"@
        } else {
            Seq::empty()
        };
        lemma_after_both(before, cells + "\x1b[0m"@, tail);
        lemma_after_both(before, cells, "\x1b[0m"@);
        lemma_cells(before, canvas, row, canvas.cols);
        let drawn = after_text(before, cells);
        lemma_reset(drawn);
        let idle = after_text(drawn, "\x1b[0m"@);
        assert(lines_shown(canvas, n) =~= lines_shown(canvas, row).push(
            line_shown(canvas, row, canvas.cols),
        ));
        assert(before.lines.drop_last() =~= lines_shown(canvas, row));
        assert(idle.lines == lines_shown(canvas, n));
        if row + 1 < canvas.rows {
            reveal_strlit("\n");
            assert("\n"@.drop_last() =~= Seq::<char>::empty());
            assert(after_text(idle, "\n"@.drop_last()) == idle);
            assert(after_text(idle, "\n"@) == after_char(idle, '\n'));
        }
    }
}

/// Whatever a terminal showed before, it then shows the picture: as many lines as the screen has
/// rows, as many cells in each as it has columns, and the halves of each cell in the colours of their
/// pixels. The colours are set back at the end.
pub proof fn terminals_show_the_picture(terminal: Terminal, canvas: Canvas)
    requires
        has_cells(canvas),
    ensures
        ({
            let after = after_text(terminal, screen_text(canvas));
            &&& after.lines == lines_shown(canvas, canvas.rows)
            &&& after.foreground is None
            &&& after.background is None
            &&& after.pending.len() == 0
        }),
{
    reveal_strlit("\x1b[2J\x1b[H\x1b[0m");
    reveal_strlit("\x1b[0m");
    let clear = seq!['\x1b', '['] + seq!['2'] + seq!['J'];
    let home = seq!['\x1b', '['] + Seq::<char>::empty() + seq!['H'];
    let reset = "\x1b[0m"@;
    let start = "\x1b[2J\x1b[H\x1b[0m"@;
    assert(start =~= clear + home + reset);
    lemma_sequence(terminal, seq!['2'], 'J');
    let cleared = after_text(terminal, clear);
    lemma_sequence(cleared, Seq::empty(), 'H');
    let at_home = after_text(cleared, home);
    lemma_reset(at_home);
    lemma_after_both(terminal, clear + home, reset);
    lemma_after_both(terminal, clear, home);
    let ready = after_text(terminal, start);
    assert(ready.lines == seq![Seq::<ShownCell>::empty()]);
    lemma_after_both(terminal, start, rows_text(canvas, canvas.rows));
    lemma_rows(ready, canvas, canvas.rows);
}

} // verus!
