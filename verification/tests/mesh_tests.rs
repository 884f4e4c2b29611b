use roguelib::CellGrid;
use roguelib::gridmesh::build_grid_mesh;

#[test]
fn mesh_has_two_vertices_per_boundary() {
    let g = CellGrid::new(1920, 1080, 24, 32, 0, 0);
    let mesh = build_grid_mesh(&g);
    assert_eq!(mesh.len() as u32, 2 * (g.rows + g.columns));
    assert_eq!(mesh.len(), 226);
}

#[test]
fn resize_rebuilds_mesh_to_new_counts() {
    // Resizing the viewport replaces the grid; the new cell counts follow
    // the floor-division invariant and the rebuilt mesh matches them.
    let g = CellGrid::new(800, 600, 24, 32, 0, 0);
    assert_eq!(g.columns, 800 / 24);
    assert_eq!(g.rows, 600 / 32);
    let mesh = build_grid_mesh(&g);
    assert_eq!(mesh.len() as u32, 2 * (g.rows + g.columns));
    assert_eq!(mesh.len(), 2 * (18 + 33));
}

#[test]
fn row_lines_span_the_viewport_width() {
    let g = CellGrid::new(1920, 1080, 24, 32, 0, 0);
    let mesh = build_grid_mesh(&g);
    // First row boundary, at pixel y = 0: from the left edge to the right
    // edge, at the top of clip space (y numerator = viewport height).
    assert_eq!(mesh[0].x_num, -1920);
    assert_eq!(mesh[0].y_num, 1080);
    assert_eq!(mesh[1].x_num, 1920);
    assert_eq!(mesh[1].y_num, 1080);
    // Second row boundary, at pixel y = 32.
    assert_eq!(mesh[2].y_num, 1080 - 2 * 32);
    // The numerators divide to the clip range ends.
    assert_eq!(mesh[0].x_num as f32 / 1920.0, -1.0);
    assert_eq!(mesh[1].x_num as f32 / 1920.0, 1.0);
}

#[test]
fn column_lines_span_the_viewport_height() {
    let g = CellGrid::new(1920, 1080, 24, 32, 0, 0);
    let mesh = build_grid_mesh(&g);
    let first_column = 2 * g.rows as usize;
    // First column boundary, at pixel x = 0: from top to bottom.
    assert_eq!(mesh[first_column].x_num, -1920);
    assert_eq!(mesh[first_column].y_num, -1080);
    assert_eq!(mesh[first_column + 1].x_num, -1920);
    assert_eq!(mesh[first_column + 1].y_num, 1080);
    // Second column boundary, at pixel x = 24.
    assert_eq!(mesh[first_column + 2].x_num, 2 * 24 - 1920);
}

#[test]
fn padded_grid_offsets_its_lines() {
    let g = CellGrid::new(1920, 1080, 24, 32, 0, 24);
    let mesh = build_grid_mesh(&g);
    // First row boundary sits one padding down: y = 24.
    assert_eq!(mesh[0].y_num, 1080 - 2 * 24);
}
