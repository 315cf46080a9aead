//! Where surfaces are shown: in rows from left to right, as wide as the window allows.
use crate::models::surface::WlSurfaceId;
use crate::protocols::wprs::geometry::{Point, Rectangle, Size};
use vstd::prelude::*;

verus! {

/// Where a surface is shown.
#[derive(Debug, Clone, Copy, PartialEq, Eq, Structural)]
pub struct SurfaceLayout {
    pub id: WlSurfaceId,
    pub rect: Rectangle<i32>,
}

/// A surface and its size.
#[derive(Debug, Clone, Copy, PartialEq, Eq, Structural)]
pub struct SurfaceSize {
    pub id: WlSurfaceId,
    pub width: i32,
    pub height: i32,
}

/// The space between surfaces.
pub const PADDING: i32 = 8;

pub open spec fn at_least_one(n: i32) -> int {
    if n < 1 {
        1
    } else {
        n as int
    }
}

/// Where a surface is shown, and where the next one would go.
pub struct Cell {
    pub id: WlSurfaceId,
    pub x: int,
    pub y: int,
    pub width: int,
    pub height: int,
}

pub struct Arranged {
    pub cells: Seq<Cell>,
    pub x: int,
    pub y: int,
    pub row_height: int,
}

pub open spec fn max(a: int, b: int) -> int {
    if a < b {
        b
    } else {
        a
    }
}

/// Whether one more surface goes into a new row: it would stick out of the window, and is not the
/// first of its row.
pub open spec fn starts_row(p: Arranged, size: SurfaceSize, max_width: int) -> bool {
    p.x + at_least_one(size.width) > max_width && p.x > 0
}

/// Puts one more surface behind those that have a place: in a new row where it would stick out of
/// the window, unless it is the first of its row.
pub open spec fn with_surface(p: Arranged, size: SurfaceSize, max_width: int) -> Arranged {
    let width = at_least_one(size.width);
    let height = at_least_one(size.height);
    let new_row = starts_row(p, size, max_width);
    let x = if new_row {
        0
    } else {
        p.x
    };
    let y = if new_row {
        p.y + p.row_height + PADDING
    } else {
        p.y
    };
    let row_height = if new_row {
        0
    } else {
        p.row_height
    };
    Arranged {
        cells: p.cells.push(Cell { id: size.id, x, y, width, height }),
        x: x + width + PADDING,
        y,
        row_height: max(row_height, height),
    }
}

/// The places of surfaces in the order given.
pub open spec fn arranged(sizes: Seq<SurfaceSize>, max_width: int) -> Arranged
    decreases sizes.len(),
{
    if sizes.len() == 0 {
        Arranged { cells: Seq::empty(), x: 0, y: 0, row_height: 0 }
    } else {
        with_surface(arranged(sizes.drop_last(), max_width), sizes.last(), max_width)
    }
}

/// Whether all places can be told in numbers of 32 bits.
pub open spec fn representable(sizes: Seq<SurfaceSize>, max_width: int) -> bool
    decreases sizes.len(),
{
    sizes.len() > 0 ==> ({
        let p = arranged(sizes.drop_last(), max_width);
        let n = arranged(sizes, max_width);
        &&& representable(sizes.drop_last(), max_width)
        &&& p.x + at_least_one(sizes.last().width) <= i32::MAX
        &&& n.x <= i32::MAX
        &&& starts_row(p, sizes.last(), max_width) ==> p.y + p.row_height + PADDING <= i32::MAX
    })
}

pub open spec fn shows(layout: SurfaceLayout, cell: Cell) -> bool {
    &&& layout.id == cell.id
    &&& layout.rect.loc.x == cell.x
    &&& layout.rect.loc.y == cell.y
    &&& layout.rect.size.w == cell.width
    &&& layout.rect.size.h == cell.height
}

pub open spec fn shows_all(layouts: Seq<SurfaceLayout>, cells: Seq<Cell>) -> bool {
    &&& layouts.len() == cells.len()
    &&& forall|i: int| 0 <= i < cells.len() ==> shows(#[trigger] layouts[i], cells[i])
}

proof fn lemma_nonnegative(sizes: Seq<SurfaceSize>, max_width: int)
    ensures
        arranged(sizes, max_width).x >= 0,
        arranged(sizes, max_width).y >= 0,
        arranged(sizes, max_width).row_height >= 0,
        arranged(sizes, max_width).cells.len() == sizes.len(),
    decreases sizes.len(),
{
    if sizes.len() > 0 {
        lemma_nonnegative(sizes.drop_last(), max_width);
    }
}

proof fn lemma_representable_prefix(sizes: Seq<SurfaceSize>, max_width: int, n: int)
    requires
        representable(sizes, max_width),
        0 <= n <= sizes.len(),
    ensures
        representable(sizes.subrange(0, n), max_width),
    decreases sizes.len() - n,
{
    if n < sizes.len() {
        lemma_representable_prefix(sizes.drop_last(), max_width, n);
        assert(sizes.drop_last().subrange(0, n) =~= sizes.subrange(0, n));
    } else {
        assert(sizes.subrange(0, n) =~= sizes);
    }
}

/// Finds places for surfaces in a window of a given width.
pub fn arrange(sizes: &Vec<SurfaceSize>, window_width: i32) -> (r: Vec<SurfaceLayout>)
    requires
        representable(sizes@, at_least_one(window_width)),
    ensures
        shows_all(r@, arranged(sizes@, at_least_one(window_width)).cells),
{
    let max_width: i32 = if window_width < 1 {
        1
    } else {
        window_width
    };
    let mut layouts: Vec<SurfaceLayout> = Vec::new();
    let mut x: i32 = 0;
    let mut y: i32 = 0;
    let mut row_height: i32 = 0;
    let mut i: usize = 0;
    assert(sizes@.subrange(0, 0) =~= Seq::empty());
    while i < sizes.len()
        invariant
            i <= sizes@.len(),
            max_width == at_least_one(window_width),
            representable(sizes@, max_width as int),
            ({
                let p = arranged(sizes@.subrange(0, i as int), max_width as int);
                &&& x == p.x
                &&& y == p.y
                &&& row_height == p.row_height
                &&& x >= 0
                &&& y >= 0
                &&& row_height >= 0
                &&& shows_all(layouts@, p.cells)
            }),
        decreases sizes@.len() - i,
    {
        let ghost now = sizes@.subrange(0, i + 1);
        let ghost p = arranged(sizes@.subrange(0, i as int), max_width as int);
        proof {
            assert(now.drop_last() =~= sizes@.subrange(0, i as int));
            lemma_representable_prefix(sizes@, max_width as int, i + 1);
            lemma_nonnegative(now, max_width as int);
        }
        let width: i32 = if sizes[i].width < 1 {
            1
        } else {
            sizes[i].width
        };
        let height: i32 = if sizes[i].height < 1 {
            1
        } else {
            sizes[i].height
        };
        if x + width > max_width && x > 0 {
            x = 0;
            y = y + (row_height + PADDING);
            row_height = 0;
        }
        layouts.push(
            SurfaceLayout {
                id: sizes[i].id,
                rect: Rectangle { loc: Point { x, y }, size: Size { w: width, h: height } },
            },
        );
        x = x + (width + PADDING);
        row_height = if row_height < height {
            height
        } else {
            row_height
        };
        i = i + 1;
    }
    assert(sizes@.subrange(0, i as int) =~= sizes@);
    layouts
}

/// Whether places for surfaces can be told in numbers of 32 bits.
pub fn can_arrange(sizes: &Vec<SurfaceSize>, window_width: i32) -> (r: bool)
    ensures
        r == representable(sizes@, at_least_one(window_width)),
{
    let max_width: i64 = if window_width < 1 {
        1
    } else {
        window_width as i64
    };
    let mut x: i64 = 0;
    let mut y: i64 = 0;
    let mut row_height: i64 = 0;
    let mut i: usize = 0;
    assert(sizes@.subrange(0, 0) =~= Seq::empty());
    while i < sizes.len()
        invariant
            i <= sizes@.len(),
            max_width == at_least_one(window_width),
            representable(sizes@.subrange(0, i as int), max_width as int),
            ({
                let p = arranged(sizes@.subrange(0, i as int), max_width as int);
                &&& x == p.x
                &&& y == p.y
                &&& row_height == p.row_height
                &&& 0 <= x <= i32::MAX
                &&& 0 <= y <= i32::MAX
                &&& 0 <= row_height <= i32::MAX
            }),
        decreases sizes@.len() - i,
    {
        let ghost now = sizes@.subrange(0, i + 1);
        proof {
            assert(now.drop_last() =~= sizes@.subrange(0, i as int));
            if representable(sizes@, max_width as int) {
                lemma_representable_prefix(sizes@, max_width as int, i + 1);
            }
        }
        let width: i64 = if sizes[i].width < 1 {
            1
        } else {
            sizes[i].width as i64
        };
        let height: i64 = if sizes[i].height < 1 {
            1
        } else {
            sizes[i].height as i64
        };
        if x + width > i32::MAX as i64 {
            return false;
        }
        if x + width > max_width && x > 0 {
            if y + row_height + PADDING as i64 > i32::MAX as i64 {
                return false;
            }
            x = 0;
            y = y + row_height + PADDING as i64;
            row_height = 0;
        }
        x = x + width + PADDING as i64;
        if x > i32::MAX as i64 {
            return false;
        }
        row_height = if row_height < height {
            height
        } else {
            row_height
        };
        i = i + 1;
    }
    assert(sizes@.subrange(0, i as int) =~= sizes@);
    true
}

pub open spec fn apart(a: Cell, b: Cell) -> bool {
    ||| a.x + a.width <= b.x
    ||| b.x + b.width <= a.x
    ||| a.y + a.height <= b.y
    ||| b.y + b.height <= a.y
}

proof fn lemma_behind_all(sizes: Seq<SurfaceSize>, max_width: int, i: int)
    requires
        0 <= i < sizes.len(),
    ensures
        ({
            let p = arranged(sizes, max_width);
            let c = p.cells[i];
            &&& p.cells.len() == sizes.len()
            &&& c.y <= p.y
            &&& c.width >= 1
            &&& c.height >= 1
            &&& c.y == p.y ==> c.x + c.width + PADDING <= p.x && c.height <= p.row_height
            &&& c.y < p.y ==> c.y + c.height + PADDING <= p.y
        }),
    decreases sizes.len(),
{
    lemma_nonnegative(sizes, max_width);
    lemma_nonnegative(sizes.drop_last(), max_width);
    if i < sizes.len() - 1 {
        lemma_behind_all(sizes.drop_last(), max_width, i);
    }
}

/// No two surfaces are shown in the same place.
pub proof fn places_are_apart(sizes: Seq<SurfaceSize>, max_width: int, i: int, j: int)
    requires
        0 <= i < j < sizes.len(),
    ensures
        apart(arranged(sizes, max_width).cells[i], arranged(sizes, max_width).cells[j]),
    decreases sizes.len(),
{
    lemma_nonnegative(sizes, max_width);
    lemma_nonnegative(sizes.drop_last(), max_width);
    if j < sizes.len() - 1 {
        places_are_apart(sizes.drop_last(), max_width, i, j);
    } else {
        lemma_behind_all(sizes.drop_last(), max_width, i);
    }
}

/// A surface sticks out of the window to the right only where it is the first of its row.
pub proof fn rows_keep_to_the_window(sizes: Seq<SurfaceSize>, max_width: int, i: int)
    requires
        0 <= i < sizes.len(),
    ensures
        ({
            let c = arranged(sizes, max_width).cells[i];
            c.x == 0 || c.x + c.width <= max_width
        }),
    decreases sizes.len(),
{
    lemma_nonnegative(sizes, max_width);
    lemma_nonnegative(sizes.drop_last(), max_width);
    if i < sizes.len() - 1 {
        rows_keep_to_the_window(sizes.drop_last(), max_width, i);
    }
}

/// Surfaces keep their order and their size in the layout. The first one is in the corner, and each
/// other one either eight pixels right of the one before it, in the same row, or at the beginning of
/// a new row.
pub proof fn places_follow_each_other(sizes: Seq<SurfaceSize>, next: SurfaceSize, max_width: int)
    ensures
        ({
            let before = arranged(sizes, max_width).cells;
            let after = arranged(sizes.push(next), max_width).cells;
            let cell = after.last();
            &&& after.len() == before.len() + 1
            &&& after.drop_last() == before
            &&& before.len() == sizes.len()
            &&& cell.id == next.id
            &&& next.width >= 1 ==> cell.width == next.width
            &&& next.height >= 1 ==> cell.height == next.height
            &&& next.width < 1 ==> cell.width == 1
            &&& next.height < 1 ==> cell.height == 1
            &&& sizes.len() == 0 ==> cell.x == 0 && cell.y == 0
            &&& sizes.len() > 0 ==> ({
                let last = before.last();
                let right = last.x + last.width + 8;
                if right + cell.width <= max_width {
                    cell.x == right && cell.y == last.y
                } else {
                    cell.x == 0 && cell.y >= last.y + last.height + 8
                }
            })
        }),
{
    assert(sizes.push(next).drop_last() =~= sizes);
    lemma_nonnegative(sizes, max_width);
    let before = arranged(sizes, max_width).cells;
    assert(before.push(arranged(sizes.push(next), max_width).cells.last()).drop_last() =~= before);
    if sizes.len() > 0 {
        lemma_nonnegative(sizes.drop_last(), max_width);
    }
}

/// Whether a surface is the highest of those above a place.
pub open spec fn reaches(cells: Seq<Cell>, y: int) -> bool {
    exists|i: int| 0 <= i < cells.len() && (#[trigger] cells[i]).y + cells[i].height + 8 == y
}

proof fn lemma_row_height(sizes: Seq<SurfaceSize>, max_width: int)
    requires
        sizes.len() > 0,
    ensures
        reaches(
            arranged(sizes, max_width).cells,
            arranged(sizes, max_width).y + arranged(sizes, max_width).row_height + PADDING,
        ),
    decreases sizes.len(),
{
    let front = sizes.drop_last();
    let p = arranged(front, max_width);
    let n = arranged(sizes, max_width);
    lemma_nonnegative(front, max_width);
    assert(n.cells.last() == n.cells[n.cells.len() - 1]);
    if n.row_height != n.cells.last().height {
        assert(front.len() > 0);
        lemma_row_height(front, max_width);
        let i = choose|i: int|
            0 <= i < p.cells.len() && (#[trigger] p.cells[i]).y + p.cells[i].height + 8 == p.y
                + p.row_height + PADDING;
        assert(n.cells[i] == p.cells[i]);
    }
}

/// A new row begins eight pixels below the highest surface of the row above it, and not further
/// down.
pub proof fn rows_follow_each_other(sizes: Seq<SurfaceSize>, next: SurfaceSize, max_width: int)
    requires
        sizes.len() > 0,
    ensures
        ({
            let before = arranged(sizes, max_width).cells;
            let cell = arranged(sizes.push(next), max_width).cells.last();
            cell.y != before.last().y ==> reaches(before, cell.y)
        }),
{
    assert(sizes.push(next).drop_last() =~= sizes);
    lemma_row_height(sizes, max_width);
}

} // verus!
