use wirecube::{
    change_cell, frame_to_draws, frame_to_text, paint_of, render_frame, CellDraw, Glyph, Grid,
    Paint, Wireframe,
};

#[test]
fn cube_has_eight_corners_and_twelve_edges() {
    let cube = Wireframe::cube();
    assert_eq!(cube.vertices().len(), 8);
    assert_eq!(cube.edges().len(), 12);
    assert_eq!(cube.vertices()[0], (-1, -1, -1));
    assert_eq!(cube.vertices()[7], (1, 1, 1));
    for &(a, b) in cube.edges() {
        let va = cube.vertices()[a];
        let vb = cube.vertices()[b];
        let differing = (va.0 != vb.0) as u32 + (va.1 != vb.1) as u32 + (va.2 != vb.2) as u32;
        assert_eq!(differing, 1);
    }
}

#[test]
fn wireframe_rejects_bad_edges() {
    let verts = vec![(0, 0, 0), (1, 0, 0)];
    assert!(Wireframe::new(verts.clone(), vec![(0, 2)]).is_none());
    assert!(Wireframe::new(verts.clone(), vec![(1, 1)]).is_none());
    let ok = Wireframe::new(verts, vec![(0, 1)]).unwrap();
    assert_eq!(ok.edges(), &vec![(0, 1)]);
}

#[test]
fn vertex_overrides_edge_in_same_cell() {
    // The edge 0-1 passes through (2, 2), where vertex 2 lands.
    let shape = Wireframe::new(vec![(0, 0, 0), (1, 1, 1), (2, 2, 2)], vec![(0, 1)]).unwrap();
    let points = vec![(0, 0), (4, 4), (2, 2)];
    let mut grid = Grid::new(6, 6);
    render_frame(&mut grid, &shape, &points);
    assert_eq!(grid.get(2, 2), Glyph::Vertex);
    assert_eq!(grid.get(1, 1), Glyph::Edge);
    assert_eq!(grid.get(3, 3), Glyph::Edge);
    assert_eq!(grid.get(0, 0), Glyph::Vertex);
    assert_eq!(grid.get(4, 4), Glyph::Vertex);
    assert_eq!(grid.get(5, 0), Glyph::Blank);
}

#[test]
fn render_clears_previous_frame_and_skips_outside_points() {
    let shape = Wireframe::new(vec![(0, 0, 0), (1, 1, 1)], vec![(0, 1)]).unwrap();
    let mut grid = Grid::new(5, 5);
    change_cell(&mut grid, 4, 0, Glyph::Edge);
    let points = vec![(1, 1), (40, 1)];
    render_frame(&mut grid, &shape, &points);
    assert_eq!(grid.get(4, 0), Glyph::Blank);
    assert_eq!(grid.get(1, 1), Glyph::Vertex);
    for x in 2..5 {
        assert_eq!(grid.get(x, 1), Glyph::Edge);
    }
    assert_eq!(grid.width(), 5);
    assert_eq!(grid.height(), 5);
}

#[test]
fn render_cube_marks_all_corners() {
    let cube = Wireframe::cube();
    let points = vec![(2, 2), (8, 2), (2, 8), (8, 8), (4, 4), (10, 4), (4, 10), (10, 10)];
    let mut grid = Grid::new(13, 13);
    render_frame(&mut grid, &cube, &points);
    for &(x, y) in &points {
        assert_eq!(grid.get(x as usize, y as usize), Glyph::Vertex);
    }
    assert_eq!(grid.get(5, 2), Glyph::Edge);
    assert_eq!(grid.get(0, 0), Glyph::Blank);
}

#[test]
fn text_frame_layout() {
    let mut grid = Grid::new(2, 2);
    change_cell(&mut grid, 1, 0, Glyph::Edge);
    change_cell(&mut grid, 0, 1, Glyph::Vertex);
    assert_eq!(frame_to_text(&grid), "  X \nO   \n");
}

#[test]
fn text_frame_of_empty_grid() {
    assert_eq!(frame_to_text(&Grid::new(0, 0)), "");
    assert_eq!(frame_to_text(&Grid::new(0, 2)), "\n\n");
}

#[test]
fn draws_are_cursor_addressed_and_coloured() {
    let mut grid = Grid::new(3, 2);
    change_cell(&mut grid, 2, 1, Glyph::Edge);
    change_cell(&mut grid, 1, 0, Glyph::Vertex);
    let rows = frame_to_draws(&grid, true);
    assert_eq!(rows.len(), 2);
    assert_eq!(rows[0].len(), 3);
    assert_eq!(
        rows[1][2],
        CellDraw { column: 4, row: 2, glyph: Glyph::Edge, paint: Paint::Yellow }
    );
    assert_eq!(
        rows[0][1],
        CellDraw { column: 2, row: 1, glyph: Glyph::Vertex, paint: Paint::Red }
    );
    assert_eq!(
        rows[0][0],
        CellDraw { column: 0, row: 1, glyph: Glyph::Blank, paint: Paint::Plain }
    );
    let plain = frame_to_draws(&grid, false);
    assert_eq!(plain[1][2].paint, Paint::Plain);
    assert_eq!(plain[0][1].paint, Paint::Plain);
}

#[test]
fn paints() {
    assert_eq!(paint_of(Glyph::Edge, true), Paint::Yellow);
    assert_eq!(paint_of(Glyph::Vertex, true), Paint::Red);
    assert_eq!(paint_of(Glyph::Blank, true), Paint::Plain);
    assert_eq!(paint_of(Glyph::Vertex, false), Paint::Plain);
}

#[test]
fn vertex_at_negative_cell_is_dropped() {
    let shape = Wireframe::new(vec![(0, 0, 0), (1, 1, 1)], vec![(0, 1)]).unwrap();
    let mut grid = Grid::new(4, 4);
    let points = vec![(-1, 2), (3, 2)];
    render_frame(&mut grid, &shape, &points);
    assert_eq!(grid.get(0, 2), Glyph::Edge);
    assert_eq!(grid.get(3, 2), Glyph::Vertex);
    let mut vertices = 0;
    for y in 0..4 {
        for x in 0..4 {
            if grid.get(x, y) == Glyph::Vertex {
                vertices += 1;
            }
        }
    }
    assert_eq!(vertices, 1);
}

#[test]
fn edge_order_does_not_change_the_frame() {
    let vertices = vec![(0, 0, 0), (1, 0, 0), (0, 1, 0), (1, 1, 0)];
    let forward = Wireframe::new(vertices.clone(), vec![(0, 3), (1, 2), (0, 1)]).unwrap();
    let backward = Wireframe::new(vertices, vec![(0, 1), (1, 2), (0, 3)]).unwrap();
    let points = vec![(0, 0), (6, 0), (0, 6), (6, 6)];
    let mut g1 = Grid::new(7, 7);
    let mut g2 = Grid::new(7, 7);
    render_frame(&mut g1, &forward, &points);
    render_frame(&mut g2, &backward, &points);
    for y in 0..7 {
        for x in 0..7 {
            assert_eq!(g1.get(x, y), g2.get(x, y));
        }
    }
    assert_eq!(g1.get(3, 3), Glyph::Edge);
    assert_eq!(g1.get(6, 6), Glyph::Vertex);
}
