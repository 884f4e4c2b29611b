//! The glyph layout engine: maps normalized text to a sequence of positioned
//! glyphs, either by grid index (one cell per character, row-major) or by
//! advance widths with wrapping at the target width.

use vstd::prelude::*;
use crate::grid::CellGrid;
use crate::{char_at, vec_at};
use crate::glyph::{GlyphInfo, PositionedGlyph, VerticalMetrics};
use crate::text::{nfc_of, normalize_text};

verus! {

/// The two layout policies, selectable per draw call.
#[derive(Clone, Copy, Debug, PartialEq, Eq, Structural)]
pub enum LayoutPolicy {
    /// Each character takes exactly one grid cell, in sequence; wrapping is
    /// implicit in the row-major index formula.  The policy of the public
    /// grid-text draw path.
    GridIndexed,
    /// A caret advances by each glyph's advance width and resets to the next
    /// line when a glyph's bounding box would cross the target width.
    AdvanceWrapped,
}

/// Place characters on the grid, one cell per character, starting at a
/// linear cell index.  Character `i` lands exactly where
/// `index_to_position(start_index + i)` points.
pub fn layout_grid(g: &CellGrid, start_index: u32, chars: &Vec<char>) -> (out: Vec<PositionedGlyph>)
    requires
        g.wf(),
        g.columns >= 1,
        start_index + chars@.len() <= 0x1_0000_0000,
    ensures
        out@.len() == chars@.len(),
        forall|i: int| 0 <= i < chars@.len() ==> {
            &&& (#[trigger] out@[i]).ch == chars@[i]
            &&& out@[i].x == g.spec_x(start_index + i)
            &&& out@[i].y == g.spec_y(start_index + i)
        },
{
    let mut out: Vec<PositionedGlyph> = Vec::new();
    let mut i: usize = 0;
    while i < chars.len()
        invariant
            g.wf(),
            g.columns >= 1,
            start_index + chars@.len() <= 0x1_0000_0000,
            i <= chars@.len(),
            out@.len() == i,
            forall|k: int| 0 <= k < i ==> {
                &&& (#[trigger] out@[k]).ch == chars@[k]
                &&& out@[k].x == g.spec_x(start_index + k)
                &&& out@[k].y == g.spec_y(start_index + k)
            },
        decreases chars@.len() - i,
    {
        let index: u32 = start_index + (i as u32);
        let pos: (u64, u64) = g.index_to_position(index);
        let c: char = char_at(chars, i);
        out.push(PositionedGlyph { ch: c, x: pos.0, y: pos.1 });
        i = i + 1;
    }
    out
}

/// Normalize text and place it on the grid from a starting cell index.
/// Returns `None` only when the normalized text is too long for the index
/// space, so that `start_index + i` would not fit a `u32`.
pub fn layout_grid_text(g: &CellGrid, start_index: u32, s: &str) -> (out: Option<Vec<PositionedGlyph>>)
    requires
        g.wf(),
        g.columns >= 1,
    ensures
        match out {
            Some(v) => {
                &&& start_index + nfc_of(s@).len() <= 0x1_0000_0000
                &&& v@.len() == nfc_of(s@).len()
                &&& forall|i: int| 0 <= i < nfc_of(s@).len() ==> {
                    &&& (#[trigger] v@[i]).ch == nfc_of(s@)[i]
                    &&& v@[i].x == g.spec_x(start_index + i)
                    &&& v@[i].y == g.spec_y(start_index + i)
                }
            },
            None => start_index + nfc_of(s@).len() > 0x1_0000_0000,
        },
{
    let chars: Vec<char> = normalize_text(s);
    if chars.len() as u64 <= 0x1_0000_0000u64 - start_index as u64 {
        Some(layout_grid(g, start_index, &chars))
    } else {
        None
    }
}

/// Pixels added to the caret's y when the layout wraps to a new line:
/// the full line height plus the font's line gap.
pub open spec fn spec_line_advance(vm: VerticalMetrics) -> int {
    vm.ascent + vm.descent + vm.line_gap
}

/// Where a glyph is placed, given the caret: at the caret, unless its
/// bounding box would cross the target width, in which case the caret is
/// reset to the start of the next line first and the glyph is placed there.
pub open spec fn spec_place(caret: (int, int), info: GlyphInfo, width: int, la: int) -> (int, int) {
    if info.bbox is Some && caret.0 + info.bbox->Some_0.max_x > width {
        (0, caret.1 + la)
    } else {
        caret
    }
}

/// The caret before glyph `k` of the sequence is laid out.  The caret starts
/// at `(0, ascent)`; each glyph may first wrap it, then advances it by the
/// glyph's advance width.
pub open spec fn spec_caret(infos: Seq<GlyphInfo>, k: int, width: int, vm: VerticalMetrics) -> (int, int)
    decreases k,
{
    if k <= 0 {
        (0, vm.ascent as int)
    } else {
        let placed = spec_place(
            spec_caret(infos, k - 1, width, vm),
            infos[k - 1],
            width,
            spec_line_advance(vm),
        );
        (placed.0 + infos[k - 1].advance, placed.1)
    }
}

/// The position glyph `k` is placed at under the advance-based policy.
pub open spec fn spec_advance_position(infos: Seq<GlyphInfo>, k: int, width: int, vm: VerticalMetrics) -> (int, int) {
    spec_place(spec_caret(infos, k, width, vm), infos[k], width, spec_line_advance(vm))
}

/// Advance-based layout: walk a caret over the glyphs, wrapping at the
/// target width.  Every glyph of the input is placed — a glyph whose box
/// would cross the width is repositioned on the next line, never dropped —
/// so the output has exactly one position per input glyph.
pub fn layout_advance(infos: &Vec<GlyphInfo>, target_width: u32, vm: VerticalMetrics) -> (out: Vec<PositionedGlyph>)
    requires
        infos@.len() <= 0xffff_ffff,
        vm.ascent + infos@.len() * spec_line_advance(vm) <= 0xffff_ffff_ffff_ffffu64,
    ensures
        out@.len() == infos@.len(),
        forall|i: int| 0 <= i < infos@.len() ==> {
            &&& (#[trigger] out@[i]).ch == infos@[i].ch
            &&& out@[i].x == spec_advance_position(infos@, i, target_width as int, vm).0
            &&& out@[i].y == spec_advance_position(infos@, i, target_width as int, vm).1
        },
{
    let ghost w: int = target_width as int;
    let la: u64 = vm.ascent as u64 + vm.descent as u64 + vm.line_gap as u64;
    let mut out: Vec<PositionedGlyph> = Vec::new();
    let mut caret_x: u64 = 0;
    let mut caret_y: u64 = vm.ascent as u64;
    let mut i: usize = 0;
    while i < infos.len()
        invariant
            infos@.len() <= 0xffff_ffff,
            vm.ascent + infos@.len() * spec_line_advance(vm) <= 0xffff_ffff_ffff_ffffu64,
            la == spec_line_advance(vm),
            i <= infos@.len(),
            out@.len() == i,
            caret_x == spec_caret(infos@, i as int, w, vm).0,
            caret_y == spec_caret(infos@, i as int, w, vm).1,
            caret_x <= i * 0xffff_ffff,
            caret_y <= vm.ascent + i * spec_line_advance(vm),
            w == target_width as int,
            forall|k: int| 0 <= k < i ==> {
                &&& (#[trigger] out@[k]).ch == infos@[k].ch
                &&& out@[k].x == spec_advance_position(infos@, k, w, vm).0
                &&& out@[k].y == spec_advance_position(infos@, k, w, vm).1
            },
        decreases infos@.len() - i,
    {
        proof {
            assert((i + 1) * 0xffff_ffff == i * 0xffff_ffff + 0xffff_ffff) by (nonlinear_arith);
            assert((i + 1) * spec_line_advance(vm) == i * spec_line_advance(vm) + spec_line_advance(vm)) by (nonlinear_arith);
            assert(i as int * spec_line_advance(vm) <= infos@.len() * spec_line_advance(vm)) by (nonlinear_arith)
                requires i as int <= infos@.len() && spec_line_advance(vm) >= 0;
            assert((i + 1) as int * spec_line_advance(vm) <= infos@.len() * spec_line_advance(vm)) by (nonlinear_arith)
                requires (i + 1) as int <= infos@.len() && spec_line_advance(vm) >= 0;
        }
        let info: GlyphInfo = vec_at(infos, i);
        let mut px: u64 = caret_x;
        let mut py: u64 = caret_y;
        match info.bbox {
            Some(bb) => {
                if caret_x as i128 + bb.max_x as i128 > target_width as i128 {
                    px = 0;
                    py = caret_y + la;
                }
            },
            None => {},
        }
        out.push(PositionedGlyph { ch: info.ch, x: px, y: py });
        caret_x = px + info.advance as u64;
        caret_y = py;
        i = i + 1;
    }
    out
}

/// A glyph whose bounding box would cross the target width is repositioned
/// to the start of the next line, `(0, caret_y + line_advance)` — it is not
/// placed at the overflowing caret.
pub proof fn lemma_advance_wrap_repositions(infos: Seq<GlyphInfo>, width: int, vm: VerticalMetrics, k: int)
    requires
        0 <= k < infos.len(),
        infos[k].bbox is Some,
        spec_caret(infos, k, width, vm).0 + infos[k].bbox->Some_0.max_x > width,
    ensures
        spec_advance_position(infos, k, width, vm).0 == 0,
        spec_advance_position(infos, k, width, vm).1 == spec_caret(infos, k, width, vm).1
            + spec_line_advance(vm),
{
}

/// A glyph whose bounding box stays within the target width is placed at the
/// caret unchanged.
pub proof fn lemma_advance_no_wrap_keeps_caret(infos: Seq<GlyphInfo>, width: int, vm: VerticalMetrics, k: int)
    requires
        0 <= k < infos.len(),
        infos[k].bbox is Some ==> spec_caret(infos, k, width, vm).0 + infos[k].bbox->Some_0.max_x
            <= width,
    ensures
        spec_advance_position(infos, k, width, vm) == spec_caret(infos, k, width, vm),
{
}

} // verus!
