//! The grid coordinate system: a fixed-size cell grid over a pixel viewport,
//! and the mapping from a linear character index to a pixel position.

use vstd::prelude::*;
use vstd::arithmetic::div_mod::{lemma_div_multiples_vanish, lemma_fundamental_div_mod};
use vstd::arithmetic::mul::lemma_mul_equality_converse;

verus! {

/// A character-cell grid laid over a pixel viewport.
///
/// All quantities are whole pixels.  The cell counts are tied to the other
/// fields by floor division: `columns = (screen_w - pad_x) / cell_w` and
/// `rows = (screen_h - pad_y) / cell_h`.  A grid value is never mutated in
/// place; on a resize or font swap a new value is built from the new viewport.
#[derive(Clone, Copy, Debug)]
pub struct CellGrid {
    /// Viewport width in pixels.
    pub screen_w: u32,
    /// Viewport height in pixels.
    pub screen_h: u32,
    /// Cell width in pixels.
    pub cell_w: u32,
    /// Cell height in pixels.
    pub cell_h: u32,
    /// Horizontal offset of the grid origin.
    pub pad_x: u32,
    /// Vertical offset of the grid origin.
    pub pad_y: u32,
    /// Number of whole cells that fit in a row.
    pub columns: u32,
    /// Number of whole rows that fit in the viewport.
    pub rows: u32,
}

impl CellGrid {
    /// The floor-division invariant tying the cell counts to the viewport.
    pub open spec fn wf(self) -> bool {
        &&& self.cell_w >= 1
        &&& self.cell_h >= 1
        &&& self.pad_x <= self.screen_w
        &&& self.pad_y <= self.screen_h
        &&& self.columns == (self.screen_w - self.pad_x) as int / self.cell_w as int
        &&& self.rows == (self.screen_h - self.pad_y) as int / self.cell_h as int
    }

    /// Build the grid for a viewport; called afresh whenever the viewport or
    /// the cell size changes.
    pub fn new(screen_w: u32, screen_h: u32, cell_w: u32, cell_h: u32, pad_x: u32, pad_y: u32) -> (g: CellGrid)
        requires
            cell_w >= 1,
            cell_h >= 1,
            pad_x <= screen_w,
            pad_y <= screen_h,
        ensures
            g.wf(),
            g.screen_w == screen_w,
            g.screen_h == screen_h,
            g.cell_w == cell_w,
            g.cell_h == cell_h,
            g.pad_x == pad_x,
            g.pad_y == pad_y,
    {
        CellGrid {
            screen_w,
            screen_h,
            cell_w,
            cell_h,
            pad_x,
            pad_y,
            columns: (screen_w - pad_x) / cell_w,
            rows: (screen_h - pad_y) / cell_h,
        }
    }

    /// Pixel x of the cell that a linear index addresses (row-major order).
    pub open spec fn spec_x(self, index: int) -> int {
        (index % self.columns as int) * self.cell_w + self.pad_x
    }

    /// Pixel y of the cell that a linear index addresses (row-major order).
    pub open spec fn spec_y(self, index: int) -> int {
        (index / self.columns as int) * self.cell_h + self.pad_y
    }

    /// Translate a linear index to the top-left pixel of its cell.
    ///
    /// Indices at or past `columns * rows` still yield a position, in rows
    /// below the visible viewport: text that overruns the grid is clipped by
    /// the viewport rather than rejected.
    pub fn index_to_position(&self, index: u32) -> (pos: (u64, u64))
        requires
            self.wf(),
            self.columns >= 1,
        ensures
            pos.0 == self.spec_x(index as int),
            pos.1 == self.spec_y(index as int),
            pos.0 + self.cell_w <= self.screen_w,
    {
        let col: u64 = (index % self.columns) as u64;
        let row: u64 = (index / self.columns) as u64;
        assert(col * (self.cell_w as u64) <= 0xffff_ffffu64 * 0xffff_ffffu64
            && row * (self.cell_h as u64) <= 0xffff_ffffu64 * 0xffff_ffffu64) by (nonlinear_arith)
            requires
                col <= 0xffff_ffffu64,
                row <= 0xffff_ffffu64,
                self.cell_w <= 0xffff_ffffu64,
                self.cell_h <= 0xffff_ffffu64,
        ;
        proof {
            lemma_fundamental_div_mod((self.screen_w - self.pad_x) as int, self.cell_w as int);
            assert(self.columns * self.cell_w <= self.screen_w - self.pad_x) by (nonlinear_arith)
                requires
                    (self.screen_w - self.pad_x) as int == self.cell_w * (self.columns as int)
                        + (self.screen_w - self.pad_x) as int % self.cell_w as int,
                    (self.screen_w - self.pad_x) as int % self.cell_w as int >= 0,
            ;
            assert(col * self.cell_w + self.cell_w <= self.columns * self.cell_w)
                by (nonlinear_arith)
                requires
                    col < self.columns,
                    self.cell_w >= 1,
            ;
        }
        let x: u64 = col * (self.cell_w as u64) + (self.pad_x as u64);
        let y: u64 = row * (self.cell_h as u64) + (self.pad_y as u64);
        (x, y)
    }
}

/// A position on the grid determines its cell exactly: dividing the offsets
/// from the grid origin by the cell size recovers the column and the row, and
/// those recover the index.  Together with `lemma_position_injective` this
/// makes `index_to_position` a bijection from valid indices onto their cells.
pub proof fn lemma_position_round_trip(g: CellGrid, index: u32)
    requires
        g.wf(),
        g.columns >= 1,
    ensures
        (g.spec_x(index as int) - g.pad_x) / g.cell_w as int == index as int % g.columns as int,
        (g.spec_y(index as int) - g.pad_y) / g.cell_h as int == index as int / g.columns as int,
        (index as int / g.columns as int) * g.columns as int + index as int % g.columns as int == index as int,
{
    let c = g.columns as int;
    let col = index as int % c;
    let row = index as int / c;
    assert(g.spec_x(index as int) - g.pad_x == col * g.cell_w);
    assert(g.spec_y(index as int) - g.pad_y == row * g.cell_h);
    lemma_div_multiples_vanish(col, g.cell_w as int);
    assert(g.cell_w as int * col == col * g.cell_w as int) by (nonlinear_arith);
    lemma_div_multiples_vanish(row, g.cell_h as int);
    assert(g.cell_h as int * row == row * g.cell_h as int) by (nonlinear_arith);
    lemma_fundamental_div_mod(index as int, c);
    assert(c * row == row * c) by (nonlinear_arith);
}

/// Distinct linear indices are placed at distinct pixel positions.
pub proof fn lemma_position_injective(g: CellGrid, i: u32, j: u32)
    requires
        g.wf(),
        g.columns >= 1,
        i != j,
    ensures
        g.spec_x(i as int) != g.spec_x(j as int) || g.spec_y(i as int) != g.spec_y(j as int),
{
    let c = g.columns as int;
    if g.spec_x(i as int) == g.spec_x(j as int) && g.spec_y(i as int) == g.spec_y(j as int) {
        let cw = g.cell_w as int;
        let ch = g.cell_h as int;
        assert((i as int % c) * cw == (j as int % c) * cw);
        assert(cw * (i as int % c) == (i as int % c) * cw) by (nonlinear_arith);
        assert(cw * (j as int % c) == (j as int % c) * cw) by (nonlinear_arith);
        lemma_mul_equality_converse(cw, i as int % c, j as int % c);
        assert(ch * (i as int / c) == (i as int / c) * ch) by (nonlinear_arith);
        assert(ch * (j as int / c) == (j as int / c) * ch) by (nonlinear_arith);
        lemma_mul_equality_converse(ch, i as int / c, j as int / c);
        lemma_fundamental_div_mod(i as int, c);
        lemma_fundamental_div_mod(j as int, c);
        assert(false);
    }
}

} // verus!
