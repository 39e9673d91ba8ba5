use vstd::prelude::*;
use crate::geometry::{edge_valid, Wireframe};
use crate::grid::{change_cell, Glyph, Grid};
use crate::raster::{draw_line, line_cells};

verus! {

/// A projected vertex: the cell it falls in, which may lie outside the grid
/// on any side.
pub type Cell = (i64, i64);

pub open spec fn cell_pos(c: Cell) -> (int, int) {
    (c.0 as int, c.1 as int)
}

/// The cells of edge `e` when the vertices land on `points`.
pub open spec fn edge_cells(points: Seq<Cell>, e: (usize, usize)) -> Seq<(int, int)> {
    let a = cell_pos(points[e.0 as int]);
    let b = cell_pos(points[e.1 as int]);
    line_cells(a.0, a.1, b.0, b.1)
}

/// Some edge among the first `n` passes through `pos`.
pub open spec fn on_edge(points: Seq<Cell>, edges: Seq<(usize, usize)>, n: int, pos: (int, int)) -> bool {
    exists|k: int| 0 <= k < n && #[trigger] edge_cells(points, edges[k]).contains(pos)
}

/// Some vertex among the first `n` lands on `pos`.
pub open spec fn on_vertex(points: Seq<Cell>, n: int, pos: (int, int)) -> bool {
    exists|k: int| 0 <= k < n && cell_pos(#[trigger] points[k]) == pos
}

/// What a frame shows at `pos`: a vertex where one lands, else an edge where
/// one passes, else nothing.
pub open spec fn frame_glyph(points: Seq<Cell>, edges: Seq<(usize, usize)>, pos: (int, int)) -> Glyph {
    if on_vertex(points, points.len() as int, pos) {
        Glyph::Vertex
    } else if on_edge(points, edges, edges.len() as int, pos) {
        Glyph::Edge
    } else {
        Glyph::Blank
    }
}

/// Renders one frame of `shape` into `grid`, its vertices having landed on
/// `points`: the grid is cleared, every edge is drawn, then every vertex is
/// marked on top. Vertices and line cells that fall outside the grid,
/// negative ones included, are skipped.
pub fn render_frame(grid: &mut Grid, shape: &Wireframe, points: &Vec<Cell>)
    requires
        old(grid).wf(),
        shape.wf(),
        points@.len() == shape.spec_vertices().len(),
    ensures
        final(grid).wf(),
        final(grid).same_shape(old(grid)),
        forall|x: int, y: int|
            final(grid).in_bounds(x, y) ==> #[trigger] final(grid).cell(x, y) == frame_glyph(
                points@,
                shape.spec_edges(),
                (x, y),
            ),
        forall|k: int|
            0 <= k < points@.len() && final(grid).in_bounds(points@[k].0 as int, points@[k].1 as int)
                ==> final(grid).cell(#[trigger] points@[k].0 as int, points@[k].1 as int)
                == Glyph::Vertex,
{
    grid.clear();
    let edges = shape.edges();
    let ghost es = edges@;
    let mut k: usize = 0;
    while k < edges.len()
        invariant
            grid.wf(),
            grid.same_shape(old(grid)),
            shape.wf(),
            es == shape.spec_edges(),
            edges@ == es,
            points@.len() == shape.spec_vertices().len(),
            k <= es.len(),
            forall|x: int, y: int|
                grid.in_bounds(x, y) ==> #[trigger] grid.cell(x, y) == if on_edge(
                    points@,
                    es,
                    k as int,
                    (x, y),
                ) {
                    Glyph::Edge
                } else {
                    Glyph::Blank
                },
        decreases es.len() - k,
    {
        let (a, b) = edges[k];
        assert(edge_valid(es[k as int], shape.spec_vertices().len()));
        let ghost prev = *grid;
        draw_line(points[a], points[b], grid);
        assert forall|x: int, y: int| grid.in_bounds(x, y) implies #[trigger] grid.cell(x, y) == if on_edge(
            points@,
            es,
            k + 1,
            (x, y),
        ) {
            Glyph::Edge
        } else {
            Glyph::Blank
        } by {
            if edge_cells(points@, es[k as int]).contains((x, y)) {
                assert(on_edge(points@, es, k + 1, (x, y)));
            } else if on_edge(points@, es, k as int, (x, y)) {
                let m = choose|m: int| 0 <= m < k && #[trigger] edge_cells(points@, es[m]).contains((x, y));
                assert(on_edge(points@, es, k + 1, (x, y)));
            } else {
                assert(!on_edge(points@, es, k + 1, (x, y)));
            }
        }
        k = k + 1;
    }
    let mut v: usize = 0;
    while v < points.len()
        invariant
            grid.wf(),
            grid.same_shape(old(grid)),
            es == shape.spec_edges(),
            v <= points@.len(),
            forall|x: int, y: int|
                grid.in_bounds(x, y) ==> #[trigger] grid.cell(x, y) == if on_vertex(points@, v as int, (x, y)) {
                    Glyph::Vertex
                } else if on_edge(points@, es, es.len() as int, (x, y)) {
                    Glyph::Edge
                } else {
                    Glyph::Blank
                },
        decreases points@.len() - v,
    {
        let (px, py) = points[v];
        change_cell(grid, px, py, Glyph::Vertex);
        assert forall|x: int, y: int| grid.in_bounds(x, y) implies #[trigger] grid.cell(x, y) == if on_vertex(
            points@,
            v + 1,
            (x, y),
        ) {
            Glyph::Vertex
        } else if on_edge(points@, es, es.len() as int, (x, y)) {
            Glyph::Edge
        } else {
            Glyph::Blank
        } by {
            if x == px && y == py {
                assert(cell_pos(points@[v as int]) == (x, y));
                assert(on_vertex(points@, v + 1, (x, y)));
            } else if on_vertex(points@, v as int, (x, y)) {
                let m = choose|m: int| 0 <= m < v && cell_pos(#[trigger] points@[m]) == (x, y);
                assert(on_vertex(points@, v + 1, (x, y)));
            } else {
                assert(!on_vertex(points@, v + 1, (x, y)));
            }
        }
        v = v + 1;
    }
    assert forall|k: int|
        0 <= k < points@.len() && grid.in_bounds(points@[k].0 as int, points@[k].1 as int) implies grid.cell(
        #[trigger] points@[k].0 as int,
        points@[k].1 as int,
    ) == Glyph::Vertex by {
        assert(on_vertex(points@, points@.len() as int, cell_pos(points@[k])));
    }
}

/// A frame does not depend on the order of the edges: two edge lists with
/// the same edges give the same glyph at every position, and a position
/// shows a vertex exactly when some vertex lands on it. Since
/// [`render_frame`] leaves `frame_glyph` in every cell, vertices take
/// priority over edges whatever order the edges are drawn in.
pub proof fn lemma_frame_ignores_edge_order(
    points: Seq<Cell>,
    edges1: Seq<(usize, usize)>,
    edges2: Seq<(usize, usize)>,
)
    requires
        edges1.to_set() == edges2.to_set(),
    ensures
        forall|pos: (int, int)|
            #[trigger] frame_glyph(points, edges1, pos) == frame_glyph(points, edges2, pos),
        forall|pos: (int, int)|
            (#[trigger] frame_glyph(points, edges1, pos) == Glyph::Vertex) <==> on_vertex(
                points,
                points.len() as int,
                pos,
            ),
{
    assert forall|pos: (int, int)|
        on_edge(points, edges1, edges1.len() as int, pos) ==> on_edge(
            points,
            edges2,
            edges2.len() as int,
            pos,
        ) by {
        lemma_on_edge_subset(points, edges1, edges2, pos);
    }
    assert forall|pos: (int, int)|
        on_edge(points, edges2, edges2.len() as int, pos) ==> on_edge(
            points,
            edges1,
            edges1.len() as int,
            pos,
        ) by {
        lemma_on_edge_subset(points, edges2, edges1, pos);
    }
}

proof fn lemma_on_edge_subset(
    points: Seq<Cell>,
    edges1: Seq<(usize, usize)>,
    edges2: Seq<(usize, usize)>,
    pos: (int, int),
)
    requires
        edges1.to_set() == edges2.to_set(),
    ensures
        on_edge(points, edges1, edges1.len() as int, pos) ==> on_edge(
            points,
            edges2,
            edges2.len() as int,
            pos,
        ),
{
    if on_edge(points, edges1, edges1.len() as int, pos) {
        let k = choose|k: int|
            0 <= k < edges1.len() && #[trigger] edge_cells(points, edges1[k]).contains(pos);
        assert(edges1.to_set().contains(edges1[k]));
        assert(edges2.to_set().contains(edges1[k]));
        assert(edges2.contains(edges1[k]));
        let m = choose|m: int| 0 <= m < edges2.len() && edges2[m] == edges1[k];
        assert(edge_cells(points, edges2[m]).contains(pos));
    }
}

} // verus!
