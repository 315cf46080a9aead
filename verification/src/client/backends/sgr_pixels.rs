//! A backend that draws a window with coloured half blocks, two pixels to a cell.
use crate::client::backends::terminal::ScreenSize;
use crate::error::Error;
use crate::utils::text::{decimal, owned, push_decimal};
use vstd::prelude::*;

verus! {

/// The size that a terminal reports, which must not be zero.
pub fn usable_size(size: ScreenSize) -> (r: Result<ScreenSize, Error>)
    ensures
        if size.cols > 0 && size.rows > 0 {
            r == Ok::<ScreenSize, Error>(size)
        } else {
            r matches Err(Error::Message(text)) && text@ == "terminal reported zero size"@
        },
{
    if size.cols > 0 && size.rows > 0 {
        Ok(size)
    } else {
        Err(Error::Message(owned("terminal reported zero size")))
    }
}

#[derive(Debug, Clone, Copy, PartialEq, Eq, Structural)]
pub struct Colour {
    pub red: u8,
    pub green: u8,
    pub blue: u8,
}

/// Pixels, and the cells on which they are drawn.
pub struct Canvas {
    pub rgba: Seq<u8>,
    pub width: int,
    pub height: int,
    pub cols: int,
    pub rows: int,
}

/// Where the colour of a pixel begins.
pub open spec fn pixel_index(width: int, x: int, y: int) -> int {
    (y * width + x) * 4
}

pub open spec fn pixel(rgba: Seq<u8>, width: int, x: int, y: int) -> Colour {
    let at = pixel_index(width, x, y);
    Colour { red: rgba[at], green: rgba[at + 1], blue: rgba[at + 2] }
}

/// The colour of half a cell. There are twice as many halves above each other as rows.
pub open spec fn half_colour(canvas: Canvas, col: int, half: int) -> Colour {
    pixel(
        canvas.rgba,
        canvas.width,
        col * canvas.width / canvas.cols,
        half * canvas.height / (canvas.rows * 2),
    )
}

pub open spec fn colour_text(introducer: Seq<char>, colour: Colour) -> Seq<char> {
    introducer + decimal(colour.red as nat) + ";"@ + decimal(colour.green as nat) + ";"@ + decimal(
        colour.blue as nat,
    ) + "m"@
}

/// The change of colour in front of a cell: only where the cell to the left has another colour.
pub open spec fn change_text(canvas: Canvas, introducer: Seq<char>, col: int, half: int) -> Seq<
    char,
> {
    if col == 0 || half_colour(canvas, col - 1, half) != half_colour(canvas, col, half) {
        colour_text(introducer, half_colour(canvas, col, half))
    } else {
        Seq::empty()
    }
}

pub open spec fn cell_text(canvas: Canvas, col: int, row: int) -> Seq<char> {
    change_text(canvas, "\x1b[38;2;"@, col, row * 2) + change_text(
        canvas,
        "\x1b[48;2;"@,
        col,
        row * 2 + 1,
    ) + "▀"@
}

/// The first `n` cells of a row.
pub open spec fn cells_text(canvas: Canvas, row: int, n: int) -> Seq<char>
    decreases n,
{
    if n <= 0 {
        Seq::empty()
    } else {
        cells_text(canvas, row, n - 1) + cell_text(canvas, n - 1, row)
    }
}

/// A row, and the step to the next one.
pub open spec fn row_text(canvas: Canvas, row: int) -> Seq<char> {
    cells_text(canvas, row, canvas.cols) + "\x1b[0m"@ + if row + 1 < canvas.rows {
        "\n"@
    } else {
        Seq::empty()
    }
}

/// The first `n` rows.
pub open spec fn rows_text(canvas: Canvas, n: int) -> Seq<char>
    decreases n,
{
    if n <= 0 {
        Seq::empty()
    } else {
        rows_text(canvas, n - 1) + row_text(canvas, n - 1)
    }
}

/// What the terminal gets: the screen is cleared, then come the rows.
pub open spec fn screen_text(canvas: Canvas) -> Seq<char> {
    "\x1b[2J\x1b[H\x1b[0m"@ + rows_text(canvas, canvas.rows)
}

pub open spec fn has_cells(canvas: Canvas) -> bool {
    canvas.cols > 0 && canvas.rows > 0 && canvas.width > 0 && canvas.height > 0
}

/// Whether the pixels that are drawn are there; the last of them is that of the last half cell.
pub open spec fn is_drawable(canvas: Canvas) -> bool {
    &&& canvas.rows * 2 <= usize::MAX
    &&& canvas.cols * canvas.width <= usize::MAX
    &&& canvas.rows * 2 * canvas.height <= usize::MAX
    &&& pixel_index(
        canvas.width,
        (canvas.cols - 1) * canvas.width / canvas.cols,
        (canvas.rows * 2 - 1) * canvas.height / (canvas.rows * 2),
    ) + 2 < canvas.rgba.len()
}

/// No half cell asks for a later pixel than the last one.
proof fn lemma_half_in_bounds(canvas: Canvas, col: int, half: int)
    requires
        has_cells(canvas),
        is_drawable(canvas),
        0 <= col < canvas.cols,
        0 <= half < canvas.rows * 2,
    ensures
        0 <= col * canvas.width <= usize::MAX,
        0 <= half * canvas.height <= usize::MAX,
        0 <= col * canvas.width / canvas.cols,
        0 <= half * canvas.height / (canvas.rows * 2),
        0 <= half * canvas.height / (canvas.rows * 2) * canvas.width,
        0 <= pixel_index(
            canvas.width,
            col * canvas.width / canvas.cols,
            half * canvas.height / (canvas.rows * 2),
        ),
        pixel_index(
            canvas.width,
            col * canvas.width / canvas.cols,
            half * canvas.height / (canvas.rows * 2),
        ) + 2 < canvas.rgba.len(),
{
    let halves = canvas.rows * 2;
    let (width, height, cols) = (canvas.width, canvas.height, canvas.cols);
    assert(0 <= col * width <= (cols - 1) * width <= cols * width) by (nonlinear_arith)
        requires
            0 <= col <= cols - 1,
            0 < width,
    ;
    assert(0 <= half * height <= (halves - 1) * height <= halves * height) by (nonlinear_arith)
        requires
            0 <= half <= halves - 1,
            0 < height,
    ;
    vstd::arithmetic::div_mod::lemma_div_is_ordered(col * width, (cols - 1) * width, cols);
    vstd::arithmetic::div_mod::lemma_div_is_ordered(half * height, (halves - 1) * height, halves);
    vstd::arithmetic::div_mod::lemma_div_pos_is_pos(col * width, cols);
    vstd::arithmetic::div_mod::lemma_div_pos_is_pos(half * height, halves);
    let y = half * height / halves;
    let last_y = (halves - 1) * height / halves;
    assert(0 <= y * width <= last_y * width) by (nonlinear_arith)
        requires
            0 <= y <= last_y,
            0 < width,
    ;
}

fn read_pixel(rgba: &[u8], width: usize, x: usize, y: usize) -> (r: Colour)
    requires
        y * width >= 0,
        pixel_index(width as int, x as int, y as int) + 2 < rgba@.len(),
    ensures
        r == pixel(rgba@, width as int, x as int, y as int),
{
    let len: usize = rgba.len();
    assert(y * width + x <= len);
    let at: usize = (y * width + x) * 4;
    Colour { red: rgba[at], green: rgba[at + 1], blue: rgba[at + 2] }
}

fn push_colour(output: &mut String, introducer: &str, colour: Colour)
    ensures
        final(output)@ == old(output)@ + colour_text(introducer@, colour),
{
    let ghost before = output@;
    output.append(introducer);
    push_decimal(output, colour.red as u64);
    output.append(";");
    push_decimal(output, colour.green as u64);
    output.append(";");
    push_decimal(output, colour.blue as u64);
    output.append("m");
    assert(output@ =~= before + colour_text(introducer@, colour));
}

/// Draws a picture on the screen: the text for the terminal, unless there is nothing to draw.
pub fn render_rgba(screen: ScreenSize, rgba: &[u8], src_width: usize, src_height: usize) -> (r:
    Option<String>)
    requires
        ({
            let canvas = Canvas {
                rgba: rgba@,
                width: src_width as int,
                height: src_height as int,
                cols: screen.cols as int,
                rows: screen.rows as int,
            };
            has_cells(canvas) ==> is_drawable(canvas)
        }),
    ensures
        ({
            let canvas = Canvas {
                rgba: rgba@,
                width: src_width as int,
                height: src_height as int,
                cols: screen.cols as int,
                rows: screen.rows as int,
            };
            if has_cells(canvas) {
                r matches Some(text) && text@ == screen_text(canvas)
            } else {
                r is None
            }
        }),
{
    let out_cols: usize = screen.cols;
    let out_rows: usize = screen.rows;
    if out_cols == 0 || out_rows == 0 || src_width == 0 || src_height == 0 {
        return None;
    }
    let ghost canvas = Canvas {
        rgba: rgba@,
        width: src_width as int,
        height: src_height as int,
        cols: screen.cols as int,
        rows: screen.rows as int,
    };
    let mut output = owned("\x1b[2J\x1b[H\x1b[0m");
    let mut row: usize = 0;
    while row < out_rows
        invariant
            row <= out_rows,
            has_cells(canvas),
            is_drawable(canvas),
            canvas.rows == out_rows,
            canvas.cols == out_cols,
            canvas.width == src_width,
            canvas.height == src_height,
            canvas.rgba == rgba@,
            output@ == "\x1b[2J\x1b[H\x1b[0m"@ + rows_text(canvas, row as int),
        decreases out_rows - row,
    {
        let ghost start = output@;
        let text = render_row(rgba, src_width, src_height, out_cols, out_rows, row);
        output.append(text.as_str());
        row = row + 1;
        assert(output@ =~= "\x1b[2J\x1b[H\x1b[0m"@ + rows_text(canvas, row as int));
    }
    Some(output)
}

fn render_row(
    rgba: &[u8],
    src_width: usize,
    src_height: usize,
    out_cols: usize,
    out_rows: usize,
    row: usize,
) -> (r: String)
    requires
        row < out_rows,
        has_cells(
            Canvas {
                rgba: rgba@,
                width: src_width as int,
                height: src_height as int,
                cols: out_cols as int,
                rows: out_rows as int,
            },
        ),
        is_drawable(
            Canvas {
                rgba: rgba@,
                width: src_width as int,
                height: src_height as int,
                cols: out_cols as int,
                rows: out_rows as int,
            },
        ),
    ensures
        r@ == row_text(
            Canvas {
                rgba: rgba@,
                width: src_width as int,
                height: src_height as int,
                cols: out_cols as int,
                rows: out_rows as int,
            },
            row as int,
        ),
{
    let ghost canvas = Canvas {
        rgba: rgba@,
        width: src_width as int,
        height: src_height as int,
        cols: out_cols as int,
        rows: out_rows as int,
    };
    let out_pixel_height: usize = out_rows * 2;
    let y_top: usize = row * 2;
    let y_bottom: usize = y_top + 1;
    let mut output = String::new();
    let mut last_fg: Option<Colour> = None;
    let mut last_bg: Option<Colour> = None;
    let mut col: usize = 0;
    assert(output@ =~= cells_text(canvas, row as int, 0));
    while col < out_cols
        invariant
            col <= out_cols,
            row < out_rows,
            y_top == row * 2,
            y_bottom == y_top + 1,
            out_pixel_height == out_rows * 2,
            has_cells(canvas),
            is_drawable(canvas),
            canvas.rows == out_rows,
            canvas.cols == out_cols,
            canvas.width == src_width,
            canvas.height == src_height,
            canvas.rgba == rgba@,
            output@ == cells_text(canvas, row as int, col as int),
            last_fg == (if col == 0 {
                None
            } else {
                Some(half_colour(canvas, col - 1, row * 2))
            }),
            last_bg == (if col == 0 {
                None
            } else {
                Some(half_colour(canvas, col - 1, row * 2 + 1))
            }),
        decreases out_cols - col,
    {
        let ghost start = output@;
        proof {
            lemma_half_in_bounds(canvas, col as int, y_top as int);
            lemma_half_in_bounds(canvas, col as int, y_bottom as int);
        }
        let src_x: usize = col * src_width / out_cols;
        let src_y_top: usize = y_top * src_height / out_pixel_height;
        let src_y_bottom: usize = y_bottom * src_height / out_pixel_height;
        let fg = read_pixel(rgba, src_width, src_x, src_y_top);
        let bg = read_pixel(rgba, src_width, src_x, src_y_bottom);
        if last_fg != Some(fg) {
            push_colour(&mut output, "\x1b[38;2;", fg);
            last_fg = Some(fg);
        }
        assert(output@ =~= start + change_text(canvas, "\x1b[38;2;"@, col as int, row * 2));
        if last_bg != Some(bg) {
            push_colour(&mut output, "\x1b[48;2;", bg);
            last_bg = Some(bg);
        }
        output.append("▀");
        col = col + 1;
        assert(output@ =~= start + cell_text(canvas, col - 1, row as int));
    }
    output.append("\x1b[0m");
    if row + 1 < out_rows {
        output.append("\n");
    }
    assert(output@ =~= row_text(canvas, row as int));
    output
}

/// Pixels that fill their size can be drawn on any screen that numbers can measure.
pub proof fn full_pictures_are_drawable(canvas: Canvas)
    requires
        has_cells(canvas),
        canvas.width * canvas.height * 4 <= canvas.rgba.len(),
        canvas.rows * 2 <= usize::MAX,
        canvas.cols * canvas.width <= usize::MAX,
        canvas.rows * 2 * canvas.height <= usize::MAX,
    ensures
        is_drawable(canvas),
{
    let halves = canvas.rows * 2;
    let (width, height, cols) = (canvas.width, canvas.height, canvas.cols);
    lemma_scaled_is_below(cols, width);
    lemma_scaled_is_below(halves, height);
    let x = (cols - 1) * width / cols;
    let y = (halves - 1) * height / halves;
    assert(y * width + x < width * height) by (nonlinear_arith)
        requires
            0 <= y <= height - 1,
            x <= width - 1,
            0 < width,
    ;
}

/// The last of `n` points, spread evenly over `size`, is within.
proof fn lemma_scaled_is_below(n: int, size: int)
    requires
        n > 0,
        size > 0,
    ensures
        0 <= (n - 1) * size / n < size,
{
    assert(0 <= (n - 1) * size < size * n) by (nonlinear_arith)
        requires
            n > 0,
            size > 0,
    ;
    vstd::arithmetic::div_mod::lemma_div_pos_is_pos((n - 1) * size, n);
    assert((n - 1) * size / n < size) by (nonlinear_arith)
        requires
            0 <= (n - 1) * size < size * n,
            n > 0,
    ;
}

/// Whether the pixels that are drawn are there.
pub fn can_draw(screen: ScreenSize, rgba: &[u8], src_width: usize, src_height: usize) -> (r: bool)
    ensures
        r == ({
            let canvas = Canvas {
                rgba: rgba@,
                width: src_width as int,
                height: src_height as int,
                cols: screen.cols as int,
                rows: screen.rows as int,
            };
            has_cells(canvas) ==> is_drawable(canvas)
        }),
{
    if screen.cols == 0 || screen.rows == 0 || src_width == 0 || src_height == 0 {
        return true;
    }
    let (cols, width, height): (u128, u128, u128) = (
        screen.cols as u128,
        src_width as u128,
        src_height as u128,
    );
    let limit: u128 = usize::MAX as u128;
    let halves: u128 = screen.rows as u128 * 2;
    if halves > limit {
        return false;
    }
    proof {
        let most: int = 0xFFFF_FFFF_FFFF_FFFF;
        assert(cols * width <= most * most) by (nonlinear_arith)
            requires
                0 < cols <= most,
                0 < width <= most,
                most == 0xFFFF_FFFF_FFFF_FFFF,
        ;
        assert(halves * height <= most * most) by (nonlinear_arith)
            requires
                0 < halves <= most,
                0 < height <= most,
                most == 0xFFFF_FFFF_FFFF_FFFF,
        ;
        assert((cols - 1) * width <= cols * width) by (nonlinear_arith)
            requires
                0 < width,
        ;
        assert((halves - 1) * height <= halves * height) by (nonlinear_arith)
            requires
                0 < height,
        ;
        assert(0 <= (cols - 1) * width) by (nonlinear_arith)
            requires
                0 < cols,
                0 < width,
        ;
        assert(0 <= (halves - 1) * height) by (nonlinear_arith)
            requires
                0 < halves,
                0 < height,
        ;
        lemma_scaled_is_below(cols as int, width as int);
        lemma_scaled_is_below(halves as int, height as int);
    }
    if cols * width > limit || halves * height > limit {
        return false;
    }
    let x: u128 = (cols - 1) * width / cols;
    let y: u128 = (halves - 1) * height / halves;
    proof {
        let most: int = 0xFFFF_FFFF_FFFF_FFFF;
        assert(y * width <= most * most) by (nonlinear_arith)
            requires
                0 <= y <= most,
                0 < width <= most,
                most == 0xFFFF_FFFF_FFFF_FFFF,
        ;
    }
    let last: u128 = y * width + x;
    let len: u128 = rgba.len() as u128;
    len >= 3 && last <= (len - 3) / 4
}

} // verus!
