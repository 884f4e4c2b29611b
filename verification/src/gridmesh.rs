//! The grid mesh builder: a line-list marking the cell boundaries, one
//! vertex pair per row boundary (left edge to right edge) and one per column
//! boundary (top to bottom).  Positions use the same exact clip-space
//! numerators as the text batch, so grid lines and glyph quads stay
//! pixel-aligned.  The mesh depends only on the grid, so it is rebuilt only
//! when the grid changes — on a resize or a font swap — not every frame.

use vstd::prelude::*;
use crate::grid::CellGrid;

verus! {

/// An opaque line color, one byte per channel.
#[derive(Clone, Copy, Debug, PartialEq, Eq, Structural)]
pub struct Rgb {
    pub r: u8,
    pub g: u8,
    pub b: u8,
}

/// One vertex of the grid line list, in exact clip-space numerators over
/// the viewport dimensions, as in the text batch.
#[derive(Clone, Copy, Debug, PartialEq, Eq, Structural)]
pub struct GridLineVertex {
    /// Numerator of the clip x; the denominator is the viewport width.
    pub x_num: i128,
    /// Numerator of the clip y; the denominator is the viewport height.
    pub y_num: i128,
    pub color: Rgb,
}

/// The color the cell boundaries are drawn in.
pub open spec fn spec_line_color() -> Rgb {
    Rgb { r: 255, g: 255, b: 255 }
}

/// The vertex pairs of the first `k` row boundaries: row boundary `j` is a
/// horizontal line at pixel `y = j * cell_h + pad_y`, running from the left
/// viewport edge to the right one, with the same vertical flip as the text
/// batch.
pub open spec fn spec_row_lines(g: CellGrid, k: int) -> Seq<GridLineVertex>
    decreases k,
{
    if k <= 0 {
        Seq::<GridLineVertex>::empty()
    } else {
        let y = (k - 1) * g.cell_h + g.pad_y;
        spec_row_lines(g, k - 1) + seq![
            (GridLineVertex {
                x_num: (-(g.screen_w as int)) as i128,
                y_num: (g.screen_h - 2 * y) as i128,
                color: spec_line_color(),
            }),
            (GridLineVertex {
                x_num: g.screen_w as i128,
                y_num: (g.screen_h - 2 * y) as i128,
                color: spec_line_color(),
            }),
        ]
    }
}

/// The vertex pairs of the first `k` column boundaries: column boundary `j`
/// is a vertical line at pixel `x = j * cell_w + pad_x`, running from the
/// top viewport edge to the bottom one.
pub open spec fn spec_column_lines(g: CellGrid, k: int) -> Seq<GridLineVertex>
    decreases k,
{
    if k <= 0 {
        Seq::<GridLineVertex>::empty()
    } else {
        let x = (k - 1) * g.cell_w + g.pad_x;
        spec_column_lines(g, k - 1) + seq![
            (GridLineVertex {
                x_num: (2 * x - g.screen_w) as i128,
                y_num: (-(g.screen_h as int)) as i128,
                color: spec_line_color(),
            }),
            (GridLineVertex {
                x_num: (2 * x - g.screen_w) as i128,
                y_num: g.screen_h as i128,
                color: spec_line_color(),
            }),
        ]
    }
}

/// The whole mesh: all row boundaries, then all column boundaries.
pub open spec fn spec_grid_mesh(g: CellGrid) -> Seq<GridLineVertex> {
    spec_row_lines(g, g.rows as int) + spec_column_lines(g, g.columns as int)
}

/// The mesh size follows the grid exactly: two vertices per row boundary
/// and two per column boundary.  A new viewport gives a new grid under the
/// floor-division invariant, and the rebuilt mesh's vertex count matches the
/// new cell counts.
pub proof fn lemma_mesh_len_matches_grid(g: CellGrid)
    ensures
        spec_grid_mesh(g).len() == 2 * (g.rows + g.columns),
{
    lemma_row_lines_len(g, g.rows as int);
    lemma_column_lines_len(g, g.columns as int);
}

/// Each row boundary contributes exactly two vertices.
proof fn lemma_row_lines_len(g: CellGrid, k: int)
    requires
        k >= 0,
    ensures
        spec_row_lines(g, k).len() == 2 * k,
    decreases k,
{
    if k > 0 {
        lemma_row_lines_len(g, k - 1);
    }
}

/// Each column boundary contributes exactly two vertices.
proof fn lemma_column_lines_len(g: CellGrid, k: int)
    requires
        k >= 0,
    ensures
        spec_column_lines(g, k).len() == 2 * k,
    decreases k,
{
    if k > 0 {
        lemma_column_lines_len(g, k - 1);
    }
}

/// Build the line list for a grid.  The vertex count is tied to the cell
/// counts: two vertices per row boundary and two per column boundary, so a
/// resize that changes `columns` or `rows` changes the mesh accordingly.
pub fn build_grid_mesh(g: &CellGrid) -> (out: Vec<GridLineVertex>)
    ensures
        out@ == spec_grid_mesh(*g),
        out@.len() == 2 * (g.rows + g.columns),
{
    let color = Rgb { r: 255, g: 255, b: 255 };
    let mut out: Vec<GridLineVertex> = Vec::new();
    let mut j: u32 = 0;
    while j < g.rows
        invariant
            color == spec_line_color(),
            j <= g.rows,
            out@ == spec_row_lines(*g, j as int),
            out@.len() == 2 * j,
        decreases g.rows - j,
    {
        proof {
            assert((j as u64) * (g.cell_h as u64) <= 0xffff_ffffu64 * 0xffff_ffffu64)
                by (nonlinear_arith)
                requires
                    j <= 0xffff_ffffu64,
                    g.cell_h <= 0xffff_ffffu64,
            ;
        }
        let y: u64 = (j as u64) * (g.cell_h as u64) + (g.pad_y as u64);
        let y_num: i128 = g.screen_h as i128 - 2 * (y as i128);
        out.push(GridLineVertex { x_num: -(g.screen_w as i128), y_num, color });
        out.push(GridLineVertex { x_num: g.screen_w as i128, y_num, color });
        proof {
            assert(out@ =~= spec_row_lines(*g, j as int + 1));
        }
        j = j + 1;
    }
    let ghost rows_part = out@;
    let mut c: u32 = 0;
    while c < g.columns
        invariant
            color == spec_line_color(),
            c <= g.columns,
            rows_part == spec_row_lines(*g, g.rows as int),
            rows_part.len() == 2 * g.rows,
            out@ == rows_part + spec_column_lines(*g, c as int),
            out@.len() == 2 * g.rows + 2 * c,
        decreases g.columns - c,
    {
        proof {
            assert((c as u64) * (g.cell_w as u64) <= 0xffff_ffffu64 * 0xffff_ffffu64)
                by (nonlinear_arith)
                requires
                    c <= 0xffff_ffffu64,
                    g.cell_w <= 0xffff_ffffu64,
            ;
        }
        let x: u64 = (c as u64) * (g.cell_w as u64) + (g.pad_x as u64);
        let x_num: i128 = 2 * (x as i128) - g.screen_w as i128;
        out.push(GridLineVertex { x_num, y_num: -(g.screen_h as i128), color });
        out.push(GridLineVertex { x_num, y_num: g.screen_h as i128, color });
        proof {
            assert(out@ =~= rows_part + spec_column_lines(*g, c as int + 1));
        }
        c = c + 1;
    }
    out
}

} // verus!
