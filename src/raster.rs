use vstd::prelude::*;
use crate::grid::{change_cell, Glyph, Grid};

verus! {

pub open spec fn abs_diff(a: int, b: int) -> int {
    if a <= b {
        b - a
    } else {
        a - b
    }
}

/// Direction of travel from `a` toward `b`: `1` when `a < b`, else `-1`.
pub open spec fn direction(a: int, b: int) -> int {
    if a < b {
        1
    } else {
        -1
    }
}

/// One step of the line walk: from position `(x, y)` with error term `err`,
/// the new position and error term.
pub open spec fn line_step(x: int, y: int, err: int, dx: int, dy: int, sx: int, sy: int) -> (
    int,
    int,
    int,
) {
    let e2 = 2 * err;
    let (err1, nx) = if e2 > -dy {
        (err - dy, x + sx)
    } else {
        (err, x)
    };
    let (err2, ny) = if e2 < dx {
        (err1 + dx, y + sy)
    } else {
        (err1, y)
    };
    (nx, ny, err2)
}

/// The cells visited by the walk from `(x, y)` toward `(x2, y2)`, each taken
/// after its step, for at most `fuel` steps.
pub open spec fn line_trace(
    x: int,
    y: int,
    err: int,
    x2: int,
    y2: int,
    dx: int,
    dy: int,
    sx: int,
    sy: int,
    fuel: nat,
) -> Seq<(int, int)>
    decreases fuel,
{
    if fuel == 0 || (x == x2 && y == y2) {
        Seq::empty()
    } else {
        let (nx, ny, nerr) = line_step(x, y, err, dx, dy, sx, sy);
        seq![(nx, ny)] + line_trace(nx, ny, nerr, x2, y2, dx, dy, sx, sy, (fuel - 1) as nat)
    }
}

/// The cells of the line from `(x1, y1)` to `(x2, y2)` in the order the
/// integer walk visits them: the start cell is left out, the end cell is the
/// last one.
pub open spec fn line_cells(x1: int, y1: int, x2: int, y2: int) -> Seq<(int, int)> {
    let dx = abs_diff(x1, x2);
    let dy = abs_diff(y1, y2);
    line_trace(
        x1,
        y1,
        dx - dy,
        x2,
        y2,
        dx,
        dy,
        direction(x1, x2),
        direction(y1, y2),
        (dx + dy) as nat,
    )
}

/// A position of the walk that has taken `i` steps along x and `j` along y.
pub open spec fn walk_state(
    x: int,
    y: int,
    err: int,
    x2: int,
    y2: int,
    dx: int,
    dy: int,
    sx: int,
    sy: int,
    i: int,
    j: int,
) -> bool {
    &&& 0 <= i <= dx
    &&& 0 <= j <= dy
    &&& sx == 1 || sx == -1
    &&& sy == 1 || sy == -1
    &&& x2 == x + (if sx == 1 {
        dx - i
    } else {
        i - dx
    })
    &&& y2 == y + (if sy == 1 {
        dy - j
    } else {
        j - dy
    })
    &&& err == dx - dy + j * dx - i * dy
}

/// A step taken before the end moves at least one coordinate, never past
/// the end, and keeps the error term within `2 * (dx + dy)`.
proof fn lemma_step(
    x: int,
    y: int,
    err: int,
    x2: int,
    y2: int,
    dx: int,
    dy: int,
    sx: int,
    sy: int,
    i: int,
    j: int,
)
    requires
        walk_state(x, y, err, x2, y2, dx, dy, sx, sy, i, j),
        !(x == x2 && y == y2),
        -2 * (dx + dy) <= err <= 2 * (dx + dy),
    ensures
        ({
            let (nx, ny, nerr) = line_step(x, y, err, dx, dy, sx, sy);
            let ni = if nx == x {
                i
            } else {
                i + 1
            };
            let nj = if ny == y {
                j
            } else {
                j + 1
            };
            &&& walk_state(nx, ny, nerr, x2, y2, dx, dy, sx, sy, ni, nj)
            &&& ni + nj > i + j
            &&& -2 * (dx + dy) <= nerr <= 2 * (dx + dy)
        }),
{
    let e2 = 2 * err;
    if i == dx && j < dy {
        assert(dx * (1 + j - dy) <= 0) by (nonlinear_arith)
            requires
                dx >= 0,
                1 + j - dy <= 0,
        ;
        assert(err == dx * (1 + j - dy) - dy) by (nonlinear_arith)
            requires
                err == dx - dy + j * dx - i * dy,
                i == dx,
        ;
    }
    if j == dy && i < dx {
        assert(dy * (dx - i - 1) >= 0) by (nonlinear_arith)
            requires
                dy >= 0,
                dx - i - 1 >= 0,
        ;
        assert(err == dx + dy * (dx - i - 1)) by (nonlinear_arith)
            requires
                err == dx - dy + j * dx - i * dy,
                j == dy,
        ;
    }
    assert((i + 1) * dy == i * dy + dy) by (nonlinear_arith);
    assert((j + 1) * dx == j * dx + dx) by (nonlinear_arith);
}

/// Along the longer axis the walk moves at every step, so the number of cells
/// left is the distance left along that axis.
proof fn lemma_trace_len(
    x: int,
    y: int,
    err: int,
    x2: int,
    y2: int,
    dx: int,
    dy: int,
    sx: int,
    sy: int,
    i: int,
    j: int,
    fuel: nat,
)
    requires
        walk_state(x, y, err, x2, y2, dx, dy, sx, sy, i, j),
        -2 * (dx + dy) <= err <= 2 * (dx + dy),
        fuel >= (dx - i) + (dy - j),
        dx == dy ==> err == 0,
        dx > dy ==> 2 * err > -dy,
        dy > dx ==> 2 * err < dx,
    ensures
        line_trace(x, y, err, x2, y2, dx, dy, sx, sy, fuel).len() == if dx >= dy {
            dx - i
        } else {
            dy - j
        },
    decreases fuel,
{
    if x == x2 && y == y2 {
    } else {
        lemma_step(x, y, err, x2, y2, dx, dy, sx, sy, i, j);
        let (nx, ny, nerr) = line_step(x, y, err, dx, dy, sx, sy);
        let ni = if nx == x {
            i
        } else {
            i + 1
        };
        let nj = if ny == y {
            j
        } else {
            j + 1
        };
        lemma_trace_len(nx, ny, nerr, x2, y2, dx, dy, sx, sy, ni, nj, (fuel - 1) as nat);
    }
}

/// The line from `(x1, y1)` to `(x2, y2)` has as many cells as the larger
/// of the two coordinate distances.
pub proof fn lemma_line_len(x1: int, y1: int, x2: int, y2: int)
    ensures
        line_cells(x1, y1, x2, y2).len() == if abs_diff(x1, x2) >= abs_diff(y1, y2) {
            abs_diff(x1, x2)
        } else {
            abs_diff(y1, y2)
        },
{
    let dx = abs_diff(x1, x2);
    let dy = abs_diff(y1, y2);
    lemma_trace_len(
        x1,
        y1,
        dx - dy,
        x2,
        y2,
        dx,
        dy,
        direction(x1, x2),
        direction(y1, y2),
        0,
        0,
        (dx + dy) as nat,
    );
}

/// Drawing from A to B and from B to A writes the same number of cells
/// (start excluded in both directions).
pub proof fn lemma_line_reverse_same_len(x1: int, y1: int, x2: int, y2: int)
    ensures
        line_cells(x1, y1, x2, y2).len() == line_cells(x2, y2, x1, y1).len(),
{
    lemma_line_len(x1, y1, x2, y2);
    lemma_line_len(x2, y2, x1, y1);
}

/// A line whose two ends are the same cell has no cells.
pub proof fn lemma_degenerate_line_empty(x: int, y: int)
    ensures
        line_cells(x, y, x, y) == Seq::<(int, int)>::empty(),
{
}

/// How far coordinate `c` still lies from `end` when walking in direction `s`.
pub open spec fn remaining(c: int, end: int, s: int) -> int {
    if s == 1 {
        end - c
    } else {
        c - end
    }
}

/// Every cell of the walk lies between the current position and the end, and
/// along the longer axis the k-th cell is `k + 1` steps on.
proof fn lemma_trace_cells(
    x: int,
    y: int,
    err: int,
    x2: int,
    y2: int,
    dx: int,
    dy: int,
    sx: int,
    sy: int,
    i: int,
    j: int,
    fuel: nat,
)
    requires
        walk_state(x, y, err, x2, y2, dx, dy, sx, sy, i, j),
        -2 * (dx + dy) <= err <= 2 * (dx + dy),
        fuel >= (dx - i) + (dy - j),
        dx == dy ==> err == 0,
        dx > dy ==> 2 * err > -dy,
        dy > dx ==> 2 * err < dx,
    ensures
        ({
            let t = line_trace(x, y, err, x2, y2, dx, dy, sx, sy, fuel);
            &&& forall|k: int|
                0 <= k < t.len() ==> 0 <= #[trigger] remaining(t[k].0, x2, sx) <= dx - i && 0
                    <= remaining(t[k].1, y2, sy) <= dy - j
            &&& dx >= dy ==> forall|k: int|
                0 <= k < t.len() ==> #[trigger] remaining(t[k].0, x2, sx) == dx - i - k - 1
            &&& dy > dx ==> forall|k: int|
                0 <= k < t.len() ==> #[trigger] remaining(t[k].1, y2, sy) == dy - j - k - 1
        }),
    decreases fuel,
{
    if x == x2 && y == y2 {
    } else {
        lemma_step(x, y, err, x2, y2, dx, dy, sx, sy, i, j);
        let (nx, ny, nerr) = line_step(x, y, err, dx, dy, sx, sy);
        let ni = if nx == x {
            i
        } else {
            i + 1
        };
        let nj = if ny == y {
            j
        } else {
            j + 1
        };
        lemma_trace_cells(nx, ny, nerr, x2, y2, dx, dy, sx, sy, ni, nj, (fuel - 1) as nat);
        let rest = line_trace(nx, ny, nerr, x2, y2, dx, dy, sx, sy, (fuel - 1) as nat);
        let t = line_trace(x, y, err, x2, y2, dx, dy, sx, sy, fuel);
        assert(t == seq![(nx, ny)] + rest);
        assert forall|k: int| 1 <= k < t.len() implies t[k] == rest[k - 1] by {}
    }
}

/// The cells of a line lie in the box spanned by its two ends and none of
/// them repeats.
pub proof fn lemma_line_cells_in_box_distinct(x1: int, y1: int, x2: int, y2: int)
    ensures
        line_cells(x1, y1, x2, y2).no_duplicates(),
        forall|k: int|
            0 <= k < line_cells(x1, y1, x2, y2).len() ==> {
                let p = #[trigger] line_cells(x1, y1, x2, y2)[k];
                &&& (x1 <= p.0 <= x2 || x2 <= p.0 <= x1)
                &&& (y1 <= p.1 <= y2 || y2 <= p.1 <= y1)
            },
{
    let dx = abs_diff(x1, x2);
    let dy = abs_diff(y1, y2);
    let sx = direction(x1, x2);
    let sy = direction(y1, y2);
    lemma_trace_cells(x1, y1, dx - dy, x2, y2, dx, dy, sx, sy, 0, 0, (dx + dy) as nat);
    let t = line_cells(x1, y1, x2, y2);
    assert forall|k: int, l: int| 0 <= k < t.len() && 0 <= l < t.len() && k != l implies t[k]
        != t[l] by {
        if dx >= dy {
            assert(remaining(t[k].0, x2, sx) != remaining(t[l].0, x2, sx));
        } else {
            assert(remaining(t[k].1, y2, sy) != remaining(t[l].1, y2, sy));
        }
    }
    assert forall|k: int| 0 <= k < t.len() implies {
        let p = #[trigger] t[k];
        &&& (x1 <= p.0 <= x2 || x2 <= p.0 <= x1)
        &&& (y1 <= p.1 <= y2 || y2 <= p.1 <= y1)
    } by {
        assert(0 <= remaining(t[k].0, x2, sx) <= dx);
        assert(0 <= remaining(t[k].1, y2, sy) <= dy);
    }
}

/// `after` is `before` with the line from `(x1, y1)` to `(x2, y2)` drawn in:
/// the cells of the line inside the grid are edges, all others unchanged.
pub open spec fn line_drawn(before: Grid, after: Grid, x1: int, y1: int, x2: int, y2: int) -> bool {
    &&& after.wf()
    &&& after.same_shape(&before)
    &&& forall|i: int, j: int|
        after.in_bounds(i, j) ==> #[trigger] after.cell(i, j) == if line_cells(x1, y1, x2, y2).contains(
            (i, j),
        ) {
            Glyph::Edge
        } else {
            before.cell(i, j)
        }
}

/// Every cell of `g` is blank.
pub open spec fn all_blank(g: Grid) -> bool {
    forall|i: int, j: int| g.in_bounds(i, j) ==> #[trigger] g.cell(i, j) == Glyph::Blank
}

/// The positions of `g` that hold an edge.
pub open spec fn edge_set(g: Grid) -> Set<(int, int)> {
    Set::new(|p: (int, int)| g.in_bounds(p.0, p.1) && g.cell(p.0, p.1) == Glyph::Edge)
}

/// On a blank grid, a line between two cells of the grid leaves exactly its
/// own cells as edges.
proof fn lemma_drawn_edges(g0: Grid, g1: Grid, x1: int, y1: int, x2: int, y2: int)
    requires
        all_blank(g0),
        g0.in_bounds(x1, y1),
        g0.in_bounds(x2, y2),
        line_drawn(g0, g1, x1, y1, x2, y2),
    ensures
        edge_set(g1) == line_cells(x1, y1, x2, y2).to_set(),
        edge_set(g1).len() == line_cells(x1, y1, x2, y2).len(),
{
    let t = line_cells(x1, y1, x2, y2);
    lemma_line_cells_in_box_distinct(x1, y1, x2, y2);
    assert forall|p: (int, int)| #[trigger] edge_set(g1).contains(p) <==> t.to_set().contains(p) by {
        if t.contains(p) {
            let k = choose|k: int| 0 <= k < t.len() && t[k] == p;
            assert(g1.in_bounds(p.0, p.1));
        }
    }
    assert(edge_set(g1) =~= t.to_set());
    t.unique_seq_to_set();
}

/// Drawing a line on a blank grid from A to B, or from B to A, leaves the
/// same number of edge cells: as many as the larger of the two coordinate
/// distances (the start cell is never drawn). Both ends lie in the grid.
pub proof fn lemma_reverse_line_same_edge_count(
    g0: Grid,
    g1: Grid,
    g2: Grid,
    x1: int,
    y1: int,
    x2: int,
    y2: int,
)
    requires
        g0.wf(),
        all_blank(g0),
        g0.in_bounds(x1, y1),
        g0.in_bounds(x2, y2),
        line_drawn(g0, g1, x1, y1, x2, y2),
        line_drawn(g0, g2, x2, y2, x1, y1),
    ensures
        edge_set(g1).finite(),
        edge_set(g1).len() == edge_set(g2).len(),
        edge_set(g1).len() == if abs_diff(x1, x2) >= abs_diff(y1, y2) {
            abs_diff(x1, x2)
        } else {
            abs_diff(y1, y2)
        },
{
    lemma_drawn_edges(g0, g1, x1, y1, x2, y2);
    lemma_drawn_edges(g0, g2, x2, y2, x1, y1);
    lemma_line_len(x1, y1, x2, y2);
    lemma_line_len(x2, y2, x1, y1);
}

proof fn lemma_push_contains<A>(s: Seq<A>, v: A)
    ensures
        forall|p: A| #[trigger] s.push(v).contains(p) <==> (s.contains(p) || p == v),
{
    assert forall|p: A| #[trigger] s.push(v).contains(p) <==> (s.contains(p) || p == v) by {
        if s.contains(p) {
            let k = choose|k: int| 0 <= k < s.len() && s[k] == p;
            assert(s.push(v)[k] == p);
        }
        if p == v {
            assert(s.push(v)[s.len() as int] == p);
        }
        if s.push(v).contains(p) {
            let k = choose|k: int| 0 <= k < s.push(v).len() && s.push(v)[k] == p;
            if k < s.len() {
                assert(s[k] == p);
            }
        }
    }
}

/// Draws the line from `(x1, y1)` to `(x2, y2)` into `grid`: every cell of
/// [`line_cells`] that lies inside the grid becomes an edge. The start cell
/// is not written; positions outside the grid, negative ones included, are
/// skipped.
pub fn draw_line(p1: (i64, i64), p2: (i64, i64), grid: &mut Grid)
    requires
        old(grid).wf(),
    ensures
        line_drawn(*old(grid), *final(grid), p1.0 as int, p1.1 as int, p2.0 as int, p2.1 as int),
{
    let (x1, y1) = p1;
    let (x2, y2) = p2;
    let x_up = x1 < x2;
    let y_up = y1 < y2;
    let dx: i128 = if x_up {
        x2 as i128 - x1 as i128
    } else {
        x1 as i128 - x2 as i128
    };
    let dy: i128 = if y_up {
        y2 as i128 - y1 as i128
    } else {
        y1 as i128 - y2 as i128
    };
    let ghost sx = direction(x1 as int, x2 as int);
    let ghost sy = direction(y1 as int, y2 as int);
    let ghost cells = line_cells(x1 as int, y1 as int, x2 as int, y2 as int);
    let mut x: i64 = x1;
    let mut y: i64 = y1;
    let mut err: i128 = dx - dy;
    let ghost mut i: int = 0;
    let ghost mut j: int = 0;
    let ghost mut visited: Seq<(int, int)> = Seq::empty();
    assert(cells == visited + line_trace(
        x as int,
        y as int,
        err as int,
        x2 as int,
        y2 as int,
        dx as int,
        dy as int,
        sx,
        sy,
        (dx + dy) as nat,
    ));
    while !(x == x2 && y == y2)
        invariant
            grid.wf(),
            grid.same_shape(old(grid)),
            dx == abs_diff(x1 as int, x2 as int),
            dy == abs_diff(y1 as int, y2 as int),
            sx == direction(x1 as int, x2 as int),
            sy == direction(y1 as int, y2 as int),
            x_up == (x1 < x2),
            y_up == (y1 < y2),
            walk_state(
                x as int,
                y as int,
                err as int,
                x2 as int,
                y2 as int,
                dx as int,
                dy as int,
                sx,
                sy,
                i,
                j,
            ),
            -2 * (dx + dy) <= err <= 2 * (dx + dy),
            visited.len() <= i + j,
            cells == visited + line_trace(
                x as int,
                y as int,
                err as int,
                x2 as int,
                y2 as int,
                dx as int,
                dy as int,
                sx,
                sy,
                (dx + dy - visited.len()) as nat,
            ),
            forall|a: int, b: int|
                grid.in_bounds(a, b) ==> #[trigger] grid.cell(a, b) == if visited.contains((a, b)) {
                    Glyph::Edge
                } else {
                    old(grid).cell(a, b)
                },
        decreases dx + dy - (i + j),
    {
        proof {
            lemma_step(
                x as int,
                y as int,
                err as int,
                x2 as int,
                y2 as int,
                dx as int,
                dy as int,
                sx,
                sy,
                i,
                j,
            );
        }
        let ghost old_state = (x as int, y as int, err as int);
        let ghost fuel = (dx + dy - visited.len()) as nat;
        let e2: i128 = 2 * err;
        let ghost (nx, ny, nerr) = line_step(x as int, y as int, err as int, dx as int, dy as int, sx, sy);
        if e2 > -dy {
            err = err - dy;
            x = if x_up {
                x + 1
            } else {
                x - 1
            };
            proof {
                i = i + 1;
            }
        }
        if e2 < dx {
            err = err + dx;
            y = if y_up {
                y + 1
            } else {
                y - 1
            };
            proof {
                j = j + 1;
            }
        }
        assert(x == nx && y == ny && err == nerr);
        proof {
            let rest = line_trace(
                x as int,
                y as int,
                err as int,
                x2 as int,
                y2 as int,
                dx as int,
                dy as int,
                sx,
                sy,
                (fuel - 1) as nat,
            );
            assert(line_trace(
                old_state.0,
                old_state.1,
                old_state.2,
                x2 as int,
                y2 as int,
                dx as int,
                dy as int,
                sx,
                sy,
                fuel,
            ) == seq![(nx, ny)] + rest);
            assert(cells == visited.push((nx, ny)) + rest);
            lemma_push_contains(visited, (nx, ny));
            visited = visited.push((nx, ny));
        }
        change_cell(grid, x, y, Glyph::Edge);
    }
    assert(line_trace(
        x as int,
        y as int,
        err as int,
        x2 as int,
        y2 as int,
        dx as int,
        dy as int,
        sx,
        sy,
        (dx + dy - visited.len()) as nat,
    ) == Seq::<(int, int)>::empty());
    assert(cells == visited);
}

} // verus!
