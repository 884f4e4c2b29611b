use roguelib::CellGrid;

fn grid_1080p() -> CellGrid {
    CellGrid::new(1920, 1080, 24, 32, 0, 0)
}

#[test]
fn screen_1080p_cell_counts() {
    let g = grid_1080p();
    assert_eq!(g.columns, 80);
    assert_eq!(g.rows, 33);
}

#[test]
fn index_zero_is_origin() {
    let g = grid_1080p();
    assert_eq!(g.index_to_position(0), (0, 0));
}

#[test]
fn index_81_is_row_1_col_1() {
    let g = grid_1080p();
    assert_eq!(g.index_to_position(81), (24, 32));
}

#[test]
fn index_wraps_row_major() {
    let g = grid_1080p();
    assert_eq!(g.index_to_position(79), (79 * 24, 0));
    assert_eq!(g.index_to_position(80), (0, 32));
}

#[test]
fn padding_offsets_every_cell() {
    let g = CellGrid::new(1920, 1080, 24, 32, 5, 7);
    assert_eq!(g.columns, (1920 - 5) / 24);
    assert_eq!(g.rows, (1080 - 7) / 32);
    assert_eq!(g.index_to_position(0), (5, 7));
    assert_eq!(g.index_to_position(1), (24 + 5, 7));
}

#[test]
fn round_trip_recovers_row_and_column() {
    let g = grid_1080p();
    for index in [0u32, 1, 79, 80, 81, 137, 2639] {
        let (x, y) = g.index_to_position(index);
        let col = (x - g.pad_x as u64) / g.cell_w as u64;
        let row = (y - g.pad_y as u64) / g.cell_h as u64;
        assert_eq!(col, (index % g.columns) as u64);
        assert_eq!(row, (index / g.columns) as u64);
        assert_eq!(row * g.columns as u64 + col, index as u64);
    }
}

#[test]
fn distinct_indices_get_distinct_positions() {
    let g = grid_1080p();
    let total = g.columns * g.rows;
    let samples = [0u32, 1, 79, 80, 81, 160, total - 1];
    for &i in &samples {
        for &j in &samples {
            if i != j {
                assert_ne!(g.index_to_position(i), g.index_to_position(j));
            }
        }
    }
}

#[test]
fn overrun_index_lands_below_viewport() {
    // The soft-overflow policy: indices past the grid still get positions,
    // in rows below the visible screen, and are clipped rather than rejected.
    let g = grid_1080p();
    let total = g.columns * g.rows;
    let (x, y) = g.index_to_position(total);
    assert_eq!(x, 0);
    assert_eq!(y, g.rows as u64 * g.cell_h as u64);
    assert!(y + g.cell_h as u64 > g.screen_h as u64);
}
