use vstd::prelude::*;
use crate::grid::{glyph_text, Glyph, Grid};

verus! {

/// The first `n` cells of row `y`, each followed by a space.
pub open spec fn row_text(g: Grid, y: int, n: nat) -> Seq<char>
    decreases n,
{
    if n == 0 {
        Seq::empty()
    } else {
        row_text(g, y, (n - 1) as nat) + glyph_text(g.cell(n - 1, y)) + seq![' ']
    }
}

/// The first `m` rows of the grid as text, each row ended by a line break.
pub open spec fn rows_text(g: Grid, m: nat) -> Seq<char>
    decreases m,
{
    if m == 0 {
        Seq::empty()
    } else {
        rows_text(g, (m - 1) as nat) + row_text(g, m - 1, g.spec_width()) + seq!['\n']
    }
}

/// The whole frame as one block of text.
pub open spec fn frame_text(g: Grid) -> Seq<char> {
    rows_text(g, g.spec_height())
}

/// The frame as one block of text for a full reprint: every cell's symbol
/// followed by a space, row by row, each row ended by a line break.
pub fn frame_to_text(grid: &Grid) -> (r: String)
    requires
        grid.wf(),
    ensures
        r@ == frame_text(*grid),
{
    proof {
        reveal_strlit(" ");
        reveal_strlit("\n");
        assert(" "@ =~= seq![' ']);
        assert("\n"@ =~= seq!['\n']);
    }
    let mut out = String::new();
    let height = grid.height();
    let width = grid.width();
    let mut y: usize = 0;
    while y < height
        invariant
            grid.wf(),
            height == grid.spec_height(),
            width == grid.spec_width(),
            y <= height,
            out@ == rows_text(*grid, y as nat),
            " "@ == seq![' '],
            "\n"@ == seq!['\n'],
        decreases height - y,
    {
        let mut x: usize = 0;
        while x < width
            invariant
                grid.wf(),
                height == grid.spec_height(),
                width == grid.spec_width(),
                y < height,
                x <= width,
                out@ == rows_text(*grid, y as nat) + row_text(*grid, y as int, x as nat),
                " "@ == seq![' '],
            decreases width - x,
        {
            out.append(grid.get(x, y).symbol());
            out.append(" ");
            assert(row_text(*grid, y as int, (x + 1) as nat) == row_text(*grid, y as int, x as nat)
                + glyph_text(grid.cell(x as int, y as int)) + seq![' ']);
            assert(out@ =~= rows_text(*grid, y as nat) + row_text(*grid, y as int, (x + 1) as nat));
            x = x + 1;
        }
        out.append("\n");
        assert(rows_text(*grid, (y + 1) as nat) == rows_text(*grid, y as nat) + row_text(
            *grid,
            y as int,
            width as nat,
        ) + seq!['\n']);
        assert(out@ =~= rows_text(*grid, (y + 1) as nat));
        y = y + 1;
    }
    out
}

/// How a cell is coloured on screen.
#[derive(Clone, Copy, Debug, PartialEq, Eq, Structural)]
pub enum Paint {
    /// The terminal's own colour.
    Plain,
    /// Edge cells when colour is on.
    Yellow,
    /// Vertex cells when colour is on.
    Red,
}

/// The colour of a glyph: with colour on, edges, vertices and empty cells
/// each get their own; with colour off, all are plain.
pub open spec fn paint_spec(g: Glyph, color: bool) -> Paint {
    if !color {
        Paint::Plain
    } else {
        match g {
            Glyph::Edge => Paint::Yellow,
            Glyph::Vertex => Paint::Red,
            Glyph::Blank => Paint::Plain,
        }
    }
}

pub fn paint_of(g: Glyph, color: bool) -> (r: Paint)
    ensures
        r == paint_spec(g, color),
{
    if !color {
        Paint::Plain
    } else {
        match g {
            Glyph::Edge => Paint::Yellow,
            Glyph::Vertex => Paint::Red,
            Glyph::Blank => Paint::Plain,
        }
    }
}

/// One cell to print at a terminal position.
#[derive(Clone, Copy, Debug, PartialEq, Eq, Structural)]
pub struct CellDraw {
    pub column: u16,
    pub row: u16,
    pub glyph: Glyph,
    pub paint: Paint,
}

/// The widest grid whose cells all have a terminal column: cell `x` goes to
/// column `2 * x`.
pub const MAX_DRAW_WIDTH: usize = 32768;

/// The tallest grid whose cells all have a terminal row: row `y` goes to
/// row `y + 1`, below the status line.
pub const MAX_DRAW_HEIGHT: usize = 65535;

/// Where cell `(x, y)` is drawn, and how.
pub open spec fn cell_draw(g: Grid, x: int, y: int, color: bool) -> CellDraw {
    CellDraw {
        column: (2 * x) as u16,
        row: (y + 1) as u16,
        glyph: g.cell(x, y),
        paint: paint_spec(g.cell(x, y), color),
    }
}

/// The cursor-addressed form of the frame: for each row, in order, each of
/// its cells with its terminal position (column `2 * x`, row `y + 1`), its
/// glyph and its colour.
pub fn frame_to_draws(grid: &Grid, color: bool) -> (r: Vec<Vec<CellDraw>>)
    requires
        grid.wf(),
        grid.spec_width() <= MAX_DRAW_WIDTH,
        grid.spec_height() <= MAX_DRAW_HEIGHT,
    ensures
        r@.len() == grid.spec_height(),
        forall|y: int| 0 <= y < r@.len() ==> #[trigger] r@[y]@.len() == grid.spec_width(),
        forall|x: int, y: int|
            grid.in_bounds(x, y) ==> #[trigger] r@[y]@[x] == cell_draw(*grid, x, y, color),
        forall|x: int, y: int|
            grid.in_bounds(x, y) ==> r@[y]@[x].column == 2 * x && #[trigger] r@[y]@[x].row == y + 1,
{
    let height = grid.height();
    let width = grid.width();
    let mut rows: Vec<Vec<CellDraw>> = Vec::new();
    let mut y: usize = 0;
    while y < height
        invariant
            grid.wf(),
            height == grid.spec_height(),
            width == grid.spec_width(),
            width <= MAX_DRAW_WIDTH,
            height <= MAX_DRAW_HEIGHT,
            y <= height,
            rows@.len() == y,
            forall|j: int| 0 <= j < y ==> #[trigger] rows@[j]@.len() == width,
            forall|i: int, j: int|
                0 <= i < width && 0 <= j < y ==> #[trigger] rows@[j]@[i] == cell_draw(
                    *grid,
                    i,
                    j,
                    color,
                ),
        decreases height - y,
    {
        let mut row: Vec<CellDraw> = Vec::new();
        let mut x: usize = 0;
        while x < width
            invariant
                grid.wf(),
                height == grid.spec_height(),
                width == grid.spec_width(),
                width <= MAX_DRAW_WIDTH,
                height <= MAX_DRAW_HEIGHT,
                y < height,
                x <= width,
                row@.len() == x,
                forall|i: int|
                    0 <= i < x ==> #[trigger] row@[i] == cell_draw(*grid, i, y as int, color),
            decreases width - x,
        {
            let g = grid.get(x, y);
            row.push(
                CellDraw {
                    column: (2 * x) as u16,
                    row: (y + 1) as u16,
                    glyph: g,
                    paint: paint_of(g, color),
                },
            );
            x = x + 1;
        }
        rows.push(row);
        y = y + 1;
    }
    rows
}

} // verus!
