use vstd::prelude::*;

verus! {

/// What one cell of the grid shows.
#[derive(Clone, Copy, Debug, PartialEq, Eq, Structural)]
pub enum Glyph {
    /// An empty cell, shown as a space.
    Blank,
    /// A cell on an edge, shown as `X`.
    Edge,
    /// A cell holding a vertex, shown as `O`.
    Vertex,
}

/// The characters that stand for a glyph on screen.
pub open spec fn glyph_text(g: Glyph) -> Seq<char> {
    match g {
        Glyph::Blank => seq![' '],
        Glyph::Edge => seq!['X'],
        Glyph::Vertex => seq!['O'],
    }
}

impl Glyph {
    /// The symbol printed for this glyph.
    pub fn symbol(&self) -> (r: &'static str)
        ensures
            r@ == glyph_text(*self),
    {
        match self {
            Glyph::Blank => {
                proof {
                    reveal_strlit(" ");
                }
                " "
            },
            Glyph::Edge => {
                proof {
                    reveal_strlit("X");
                }
                "X"
            },
            Glyph::Vertex => {
                proof {
                    reveal_strlit("O");
                }
                "O"
            },
        }
    }
}

/// A frame buffer of `width` columns and `height` rows of glyphs.
///
/// Cell `(x, y)` is column `x` of row `y`.
pub struct Grid {
    width: usize,
    height: usize,
    rows: Vec<Vec<Glyph>>,
}

impl Grid {
    /// Number of columns.
    pub closed spec fn spec_width(&self) -> nat {
        self.width as nat
    }

    /// Number of rows.
    pub closed spec fn spec_height(&self) -> nat {
        self.height as nat
    }

    /// The glyph at column `x` of row `y`.
    pub closed spec fn cell(&self, x: int, y: int) -> Glyph {
        self.rows@[y]@[x]
    }

    /// Every row holds exactly `width` cells and there are `height` rows.
    pub closed spec fn wf(&self) -> bool {
        &&& self.rows@.len() == self.height
        &&& forall|y: int| 0 <= y < self.height ==> #[trigger] self.rows@[y]@.len() == self.width
    }

    pub open spec fn in_bounds(&self, x: int, y: int) -> bool {
        0 <= x < self.spec_width() && 0 <= y < self.spec_height()
    }

    /// Same dimensions as `other`.
    pub open spec fn same_shape(&self, other: &Grid) -> bool {
        self.spec_width() == other.spec_width() && self.spec_height() == other.spec_height()
    }

    /// A grid of the given size with every cell blank.
    pub fn new(width: usize, height: usize) -> (r: Grid)
        ensures
            r.wf(),
            r.spec_width() == width,
            r.spec_height() == height,
            forall|x: int, y: int| r.in_bounds(x, y) ==> r.cell(x, y) == Glyph::Blank,
    {
        let mut rows: Vec<Vec<Glyph>> = Vec::new();
        let mut y: usize = 0;
        while y < height
            invariant
                y <= height,
                rows@.len() == y,
                forall|j: int| 0 <= j < y ==> #[trigger] rows@[j]@.len() == width,
                forall|j: int, i: int|
                    0 <= j < y && 0 <= i < width ==> #[trigger] rows@[j]@[i] == Glyph::Blank,
            decreases height - y,
        {
            let mut row: Vec<Glyph> = Vec::new();
            let mut x: usize = 0;
            while x < width
                invariant
                    x <= width,
                    row@.len() == x,
                    forall|i: int| 0 <= i < x ==> #[trigger] row@[i] == Glyph::Blank,
                decreases width - x,
            {
                row.push(Glyph::Blank);
                x = x + 1;
            }
            rows.push(row);
            y = y + 1;
        }
        Grid { width, height, rows }
    }

    pub fn width(&self) -> (r: usize)
        ensures
            r == self.spec_width(),
    {
        self.width
    }

    pub fn height(&self) -> (r: usize)
        ensures
            r == self.spec_height(),
    {
        self.height
    }

    /// The glyph at column `x` of row `y`.
    pub fn get(&self, x: usize, y: usize) -> (r: Glyph)
        requires
            self.wf(),
            self.in_bounds(x as int, y as int),
        ensures
            r == self.cell(x as int, y as int),
    {
        self.rows[y][x]
    }

    /// Writes `g` at `(x, y)`; a position outside the grid is ignored.
    pub fn set(&mut self, x: usize, y: usize, g: Glyph)
        requires
            old(self).wf(),
        ensures
            final(self).wf(),
            final(self).same_shape(old(self)),
            forall|i: int, j: int|
                final(self).in_bounds(i, j) ==> #[trigger] final(self).cell(i, j) == if i == x && j == y {
                    g
                } else {
                    old(self).cell(i, j)
                },
    {
        if y < self.height && x < self.width {
            self.rows[y][x] = g;
        }
    }

    /// Resets every cell to blank, keeping the dimensions.
    pub fn clear(&mut self)
        requires
            old(self).wf(),
        ensures
            final(self).wf(),
            final(self).same_shape(old(self)),
            forall|x: int, y: int|
                final(self).in_bounds(x, y) ==> final(self).cell(x, y) == Glyph::Blank,
    {
        let mut y: usize = 0;
        while y < self.height
            invariant
                self.wf(),
                self.same_shape(old(self)),
                y <= self.height,
                forall|i: int, j: int|
                    0 <= j < y && 0 <= i < self.width ==> #[trigger] self.cell(i, j) == Glyph::Blank,
            decreases self.height - y,
        {
            let mut x: usize = 0;
            while x < self.width
                invariant
                    self.wf(),
                    self.same_shape(old(self)),
                    y < self.height,
                    x <= self.width,
                    forall|i: int, j: int|
                        0 <= j < y && 0 <= i < self.width ==> #[trigger] self.cell(i, j) == Glyph::Blank,
                    forall|i: int| 0 <= i < x ==> #[trigger] self.cell(i, y as int) == Glyph::Blank,
                decreases self.width - x,
            {
                self.set(x, y, Glyph::Blank);
                x = x + 1;
            }
            y = y + 1;
        }
    }
}

/// Writes `new_value` into cell `(x, y)` of `grid` when that cell exists;
/// a position outside the grid, negative ones included, leaves it unchanged.
pub fn change_cell(grid: &mut Grid, x: i64, y: i64, new_value: Glyph)
    requires
        old(grid).wf(),
    ensures
        final(grid).wf(),
        final(grid).same_shape(old(grid)),
        forall|i: int, j: int|
            final(grid).in_bounds(i, j) ==> #[trigger] final(grid).cell(i, j) == if i == x && j == y {
                new_value
            } else {
                old(grid).cell(i, j)
            },
{
    if 0 <= x && 0 <= y && (x as u64) < (grid.width() as u64) && (y as u64) < (grid.height() as u64) {
        grid.set(x as usize, y as usize, new_value);
    }
}

} // verus!
