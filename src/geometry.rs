use vstd::prelude::*;

verus! {

/// A corner of the solid: integer coordinates, later scaled per axis.
pub type Vertex = (i32, i32, i32);

/// A straight edge between the vertices at two indices.
pub type Edge = (usize, usize);

/// An edge is usable with `n` vertices when both ends index a vertex and
/// the two ends differ.
pub open spec fn edge_valid(e: Edge, n: nat) -> bool {
    e.0 < n && e.1 < n && e.0 != e.1
}

/// Two corners of the unit cube are adjacent when they differ in exactly one
/// coordinate.
pub open spec fn cube_adjacent(a: Vertex, b: Vertex) -> bool {
    (if a.0 != b.0 {
        1int
    } else {
        0
    }) + (if a.1 != b.1 {
        1int
    } else {
        0
    }) + (if a.2 != b.2 {
        1int
    } else {
        0
    }) == 1
}

/// The eight corners of the cube with coordinates in `{-1, 1}`.
pub open spec fn cube_vertices() -> Seq<Vertex> {
    seq![
        (-1i32, -1i32, -1i32),
        (1, -1i32, -1i32),
        (-1i32, 1, -1i32),
        (1, 1, -1i32),
        (-1i32, -1i32, 1),
        (1, -1i32, 1),
        (-1i32, 1, 1),
        (1, 1, 1),
    ]
}

/// The twelve edges of the cube, as pairs of indices into [`cube_vertices`].
pub open spec fn cube_edges() -> Seq<Edge> {
    seq![
        (0usize, 1usize),
        (0, 2),
        (0, 4),
        (1, 3),
        (1, 5),
        (2, 3),
        (2, 6),
        (3, 7),
        (4, 5),
        (4, 6),
        (5, 7),
        (6, 7),
    ]
}

/// A solid given by its vertices and the edges between them.
pub struct Wireframe {
    vertices: Vec<Vertex>,
    edges: Vec<Edge>,
}

impl Wireframe {
    pub closed spec fn spec_vertices(&self) -> Seq<Vertex> {
        self.vertices@
    }

    pub closed spec fn spec_edges(&self) -> Seq<Edge> {
        self.edges@
    }

    /// Every edge joins two distinct existing vertices.
    pub open spec fn wf(&self) -> bool {
        forall|k: int|
            0 <= k < self.spec_edges().len() ==> edge_valid(
                #[trigger] self.spec_edges()[k],
                self.spec_vertices().len(),
            )
    }

    /// The solid with these vertices and edges, or `None` when some edge
    /// names a missing vertex or joins a vertex to itself.
    pub fn new(vertices: Vec<Vertex>, edges: Vec<Edge>) -> (r: Option<Wireframe>)
        ensures
            r.is_some() <==> (forall|k: int|
                0 <= k < edges@.len() ==> edge_valid(#[trigger] edges@[k], vertices@.len())),
            r matches Some(w) ==> w.spec_vertices() == vertices@ && w.spec_edges() == edges@
                && w.wf(),
    {
        let n = vertices.len();
        let mut k: usize = 0;
        while k < edges.len()
            invariant
                n == vertices@.len(),
                k <= edges@.len(),
                forall|m: int| 0 <= m < k ==> edge_valid(#[trigger] edges@[m], n as nat),
            decreases edges@.len() - k,
        {
            let (a, b) = edges[k];
            if !(a < n && b < n && a != b) {
                assert(!edge_valid(edges@[k as int], n as nat));
                return None;
            }
            k = k + 1;
        }
        Some(Wireframe { vertices, edges })
    }

    /// The unit cube: eight corners in `{-1, 1}` cubed and twelve edges, each
    /// joining two corners that differ in one coordinate.
    pub fn cube() -> (r: Wireframe)
        ensures
            r.wf(),
            r.spec_vertices() == cube_vertices(),
            r.spec_edges() == cube_edges(),
            forall|k: int|
                0 <= k < r.spec_edges().len() ==> cube_adjacent(
                    r.spec_vertices()[#[trigger] r.spec_edges()[k].0 as int],
                    r.spec_vertices()[r.spec_edges()[k].1 as int],
                ),
    {
        let vertices: Vec<Vertex> = vec![
            (-1, -1, -1),
            (1, -1, -1),
            (-1, 1, -1),
            (1, 1, -1),
            (-1, -1, 1),
            (1, -1, 1),
            (-1, 1, 1),
            (1, 1, 1),
        ];
        let edges: Vec<Edge> = vec![
            (0, 1),
            (0, 2),
            (0, 4),
            (1, 3),
            (1, 5),
            (2, 3),
            (2, 6),
            (3, 7),
            (4, 5),
            (4, 6),
            (5, 7),
            (6, 7),
        ];
        let r = Wireframe { vertices, edges };
        assert(r.spec_vertices() =~= cube_vertices());
        assert(r.spec_edges() =~= cube_edges());
        r
    }

    /// The vertices, by index.
    pub fn vertices(&self) -> (r: &Vec<Vertex>)
        ensures
            r@ == self.spec_vertices(),
    {
        &self.vertices
    }

    /// The edges, as pairs of vertex indices.
    pub fn edges(&self) -> (r: &Vec<Edge>)
        ensures
            r@ == self.spec_edges(),
    {
        &self.edges
    }
}

} // verus!
