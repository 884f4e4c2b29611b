//! The frame renderer's verified half: per frame, strictly in order — lay
//! the text out, queue the glyphs, pack the atlas, and build the text batch
//! and the grid mesh.  The windowing layer supplies the per-glyph metrics,
//! uploads the dirty atlas regions, and submits the two draws (grid lines
//! first, text quads second); it holds no decision of its own.

use vstd::prelude::*;
use crate::atlas::{
    has_key, pending_has_key, key_index, reset_needed, spec_pack, spec_queue_entries,
    spec_queue_pending, AtlasCache, AtlasEntry, DirtyRegion, PendingGlyph,
};
use crate::batch::{build_text_batch, spec_batch, Rgba, TextVertex};
use crate::glyph::{GlyphInfo, GlyphKey, PositionedGlyph, VerticalMetrics};
use crate::grid::CellGrid;
use crate::gridmesh::{build_grid_mesh, spec_grid_mesh, GridLineVertex};
use crate::layout::{
    layout_advance, layout_grid, spec_advance_position, spec_line_advance, LayoutPolicy,
};
use crate::registry::FontEntry;
use crate::vec_at;

verus! {

/// The characters of a glyph metrics sequence, in order.
pub fn chars_of(infos: &Vec<GlyphInfo>) -> (out: Vec<char>)
    ensures
        out@.len() == infos@.len(),
        forall|k: int| 0 <= k < infos@.len() ==> out@[k] == (#[trigger] infos@[k]).ch,
{
    let mut out: Vec<char> = Vec::new();
    let mut i: usize = 0;
    while i < infos.len()
        invariant
            i <= infos@.len(),
            out@.len() == i,
            forall|k: int| 0 <= k < i ==> out@[k] == (#[trigger] infos@[k]).ch,
        decreases infos@.len() - i,
    {
        let info: GlyphInfo = vec_at(infos, i);
        out.push(info.ch);
        i = i + 1;
    }
    out
}

/// Lay out one normalized text under the chosen policy.  Both policies keep
/// every character: the output has exactly one positioned glyph per input
/// glyph, in input order.
pub fn run_layout(
    policy: LayoutPolicy,
    g: &CellGrid,
    start_index: u32,
    chars: &Vec<char>,
    infos: &Vec<GlyphInfo>,
    target_width: u32,
    vm: VerticalMetrics,
) -> (out: Vec<PositionedGlyph>)
    requires
        chars@.len() == infos@.len(),
        forall|k: int| 0 <= k < chars@.len() ==> chars@[k] == (#[trigger] infos@[k]).ch,
        policy == LayoutPolicy::GridIndexed ==> g.wf() && g.columns >= 1 && start_index
            + chars@.len() <= 0x1_0000_0000,
        policy == LayoutPolicy::AdvanceWrapped ==> infos@.len() <= 0xffff_ffff && vm.ascent
            + infos@.len() * spec_line_advance(vm) <= 0xffff_ffff_ffff_ffffu64,
    ensures
        out@.len() == infos@.len(),
        forall|k: int| 0 <= k < infos@.len() ==> (#[trigger] out@[k]).ch == infos@[k].ch,
        policy == LayoutPolicy::GridIndexed ==> forall|k: int|
            0 <= k < infos@.len() ==> (#[trigger] out@[k]).x == g.spec_x(start_index + k)
                && out@[k].y == g.spec_y(start_index + k),
        policy == LayoutPolicy::AdvanceWrapped ==> forall|k: int|
            0 <= k < infos@.len() ==> (#[trigger] out@[k]).x == spec_advance_position(
                infos@,
                k,
                target_width as int,
                vm,
            ).0 && out@[k].y == spec_advance_position(infos@, k, target_width as int, vm).1,
{
    match policy {
        LayoutPolicy::GridIndexed => layout_grid(g, start_index, chars),
        LayoutPolicy::AdvanceWrapped => layout_advance(infos, target_width, vm),
    }
}

/// The atlas state after queueing the first `k` glyphs of a metrics
/// sequence, skipping those without ink.
pub open spec fn spec_queue_all(
    entries: Seq<AtlasEntry>,
    pending: Seq<PendingGlyph>,
    infos: Seq<GlyphInfo>,
    scale: u32,
    k: int,
) -> (Seq<AtlasEntry>, Seq<PendingGlyph>)
    decreases k,
{
    if k <= 0 {
        (entries, pending)
    } else {
        let prev = spec_queue_all(entries, pending, infos, scale, k - 1);
        let info = infos[k - 1];
        if info.bbox is Some {
            let key = GlyphKey { ch: info.ch, scale };
            let bb = info.bbox->Some_0;
            (
                spec_queue_entries(prev.0, key),
                spec_queue_pending(
                    prev.0,
                    prev.1,
                    key,
                    (bb.max_x - bb.min_x) as u32,
                    (bb.max_y - bb.min_y) as u32,
                ),
            )
        } else {
            prev
        }
    }
}

/// A queue call never un-queues another glyph: a glyph resident or pending
/// before stays resident or pending after.
pub proof fn lemma_queue_preserves_presence(
    entries: Seq<AtlasEntry>,
    pending: Seq<PendingGlyph>,
    key: GlyphKey,
    w: u32,
    h: u32,
    other: GlyphKey,
)
    requires
        has_key(entries, other) || pending_has_key(pending, other),
    ensures
        has_key(spec_queue_entries(entries, key), other) || pending_has_key(
            spec_queue_pending(entries, pending, key, w, h),
            other,
        ),
{
    if has_key(entries, key) {
        let ki = key_index(entries, key);
        assert(0 <= ki < entries.len() && entries[ki].key == key);
        let r = spec_queue_entries(entries, key);
        let n = entries.len() as int;
        entries.remove_ensures(ki);
        if has_key(entries, other) {
            let j = choose|j: int| 0 <= j < entries.len() && (#[trigger] entries[j]).key == other;
            let nj: int = if j == ki {
                n - 1
            } else if j < ki {
                j
            } else {
                j - 1
            };
            assert(r[nj].key == other);
            assert(has_key(r, other));
        }
    } else {
        let p = spec_queue_pending(entries, pending, key, w, h);
        if pending_has_key(pending, other) {
            let j = choose|j: int| 0 <= j < pending.len() && (#[trigger] pending[j]).key == other;
            assert(p[j].key == other);
            assert(pending_has_key(p, other));
        }
    }
}

/// Queue every glyph with ink, under its character and the font's scale,
/// with its bounding-box footprint.  Queuing is idempotent, so repeated
/// characters in the text collapse to one pending glyph; afterwards every
/// glyph with ink is resident or pending.
pub fn queue_glyphs(cache: &mut AtlasCache, infos: &Vec<GlyphInfo>, scale: u32)
    requires
        old(cache).wf(),
        forall|k: int| 0 <= k < infos@.len() ==> (#[trigger] infos@[k]).wf(),
    ensures
        final(cache).wf(),
        final(cache).geo == old(cache).geo,
        (final(cache).entries@, final(cache).pending@) == spec_queue_all(
            old(cache).entries@,
            old(cache).pending@,
            infos@,
            scale,
            infos@.len() as int,
        ),
        forall|k: int|
            0 <= k < infos@.len() && (#[trigger] infos@[k]).bbox is Some ==> final(cache)
                .is_resident(GlyphKey { ch: infos@[k].ch, scale }) || final(cache).is_pending(
                GlyphKey { ch: infos@[k].ch, scale },
            ),
{
    let ghost ents0 = cache.entries@;
    let ghost pend0 = cache.pending@;
    let mut i: usize = 0;
    while i < infos.len()
        invariant
            cache.wf(),
            cache.geo == old(cache).geo,
            forall|k: int| 0 <= k < infos@.len() ==> (#[trigger] infos@[k]).wf(),
            i <= infos@.len(),
            (cache.entries@, cache.pending@) == spec_queue_all(
                ents0,
                pend0,
                infos@,
                scale,
                i as int,
            ),
            forall|k: int|
                0 <= k < i && (#[trigger] infos@[k]).bbox is Some ==> has_key(
                    cache.entries@,
                    GlyphKey { ch: infos@[k].ch, scale },
                ) || pending_has_key(cache.pending@, GlyphKey { ch: infos@[k].ch, scale }),
        decreases infos@.len() - i,
    {
        let ghost pre_entries = cache.entries@;
        let ghost pre_pending = cache.pending@;
        let info: GlyphInfo = vec_at(infos, i);
        match info.bbox {
            Some(bb) => {
                let key = GlyphKey { ch: info.ch, scale };
                let w = bb.width();
                let h = bb.height();
                cache.queue(key, w, h);
                proof {
                    assert forall|k: int|
                        0 <= k < i + 1 && (#[trigger] infos@[k]).bbox is Some implies has_key(
                        cache.entries@,
                        GlyphKey { ch: infos@[k].ch, scale },
                    ) || pending_has_key(
                        cache.pending@,
                        GlyphKey { ch: infos@[k].ch, scale },
                    ) by {
                        if k < i {
                            lemma_queue_preserves_presence(
                                pre_entries,
                                pre_pending,
                                key,
                                w,
                                h,
                                GlyphKey { ch: infos@[k].ch, scale },
                            );
                        }
                    }
                }
            },
            None => {},
        }
        i = i + 1;
    }
}

/// Everything one frame needs from the core, in the order the renderer
/// consumes it: the grid of this frame, the laid-out glyphs, the atlas
/// regions to upload and the glyphs dropped by the atlas, the grid-line
/// mesh, and the text quad vertices.
pub struct FramePlan {
    pub grid: CellGrid,
    pub glyphs: Vec<PositionedGlyph>,
    pub dirty: Vec<DirtyRegion>,
    pub unplaced: Vec<GlyphKey>,
    pub mesh: Vec<GridLineVertex>,
    pub vertices: Vec<TextVertex>,
}

/// Run the verified half of one frame against the current viewport: build
/// the grid from the font's cell size, its origin padded one ascent down so
/// the first row of glyphs sits fully inside the viewport; lay out the
/// glyphs — grid-indexed from cell index zero, or advance-wrapped at the
/// viewport width — queue and pack their atlas footprints, and build the
/// vertex streams.  The caller then uploads `dirty`, draws `mesh` and
/// `vertices`, and presents; glyphs in `unplaced` stay unresolved and
/// contribute no vertices this frame.  The mesh is a pure function of the
/// grid, so a caller that keeps vertex buffers between frames need rebuild
/// its grid buffer only when the grid here differs from the last frame's.
pub fn render_plan(
    entry: &mut FontEntry,
    viewport_w: u32,
    viewport_h: u32,
    policy: LayoutPolicy,
    infos: &Vec<GlyphInfo>,
    color: Rgba,
) -> (plan: FramePlan)
    requires
        old(entry).wf(),
        forall|k: int| 0 <= k < infos@.len() ==> (#[trigger] infos@[k]).wf(),
        old(entry).max_glyph_width <= viewport_w,
        old(entry).metrics.ascent <= viewport_h,
        infos@.len() <= 0xffff_ffff,
        policy == LayoutPolicy::AdvanceWrapped ==> old(entry).metrics.ascent + infos@.len()
            * spec_line_advance(old(entry).metrics) <= 0xffff_ffff_ffff_ffffu64,
    ensures
        final(entry).wf(),
        final(entry).scale == old(entry).scale,
        final(entry).metrics == old(entry).metrics,
        final(entry).max_glyph_width == old(entry).max_glyph_width,
        final(entry).max_glyph_height == old(entry).max_glyph_height,
        final(entry).atlas.geo == old(entry).atlas.geo,
        plan.grid.wf(),
        plan.grid.screen_w == viewport_w,
        plan.grid.screen_h == viewport_h,
        plan.grid.cell_w == old(entry).max_glyph_width,
        plan.grid.cell_h == old(entry).max_glyph_height,
        plan.grid.pad_x == 0,
        plan.grid.pad_y == old(entry).metrics.ascent,
        plan.grid.columns >= 1,
        plan.glyphs@.len() == infos@.len(),
        forall|k: int|
            0 <= k < infos@.len() ==> (#[trigger] plan.glyphs@[k]).ch == infos@[k].ch,
        policy == LayoutPolicy::GridIndexed ==> forall|k: int|
            0 <= k < infos@.len() ==> (#[trigger] plan.glyphs@[k]).x == plan.grid.spec_x(k)
                && plan.glyphs@[k].y == plan.grid.spec_y(k),
        policy == LayoutPolicy::AdvanceWrapped ==> forall|k: int|
            0 <= k < infos@.len() ==> (#[trigger] plan.glyphs@[k]).x == spec_advance_position(
                infos@,
                k,
                viewport_w as int,
                old(entry).metrics,
            ).0 && plan.glyphs@[k].y == spec_advance_position(
                infos@,
                k,
                viewport_w as int,
                old(entry).metrics,
            ).1,
        ({
            let q = spec_queue_all(
                old(entry).atlas.entries@,
                old(entry).atlas.pending@,
                infos@,
                old(entry).scale,
                infos@.len() as int,
            );
            let t = spec_pack(old(entry).atlas.geo, q.0, q.1);
            &&& final(entry).atlas.entries@ == reset_needed(t.0)
            &&& final(entry).atlas.pending@ == Seq::<PendingGlyph>::empty()
            &&& plan.dirty@ == t.1
            &&& plan.unplaced@ == t.2
        }),
        plan.vertices@ == spec_batch(
            plan.glyphs@,
            infos@,
            old(entry).scale,
            final(entry).atlas,
            viewport_w as int,
            viewport_h as int,
            color,
        ),
        plan.mesh@ == spec_grid_mesh(plan.grid),
        plan.mesh@.len() == 2 * (plan.grid.rows + plan.grid.columns),
{
    let g = CellGrid::new(
        viewport_w,
        viewport_h,
        entry.max_glyph_width,
        entry.max_glyph_height,
        0,
        entry.metrics.ascent,
    );
    proof {
        assert(g.columns >= 1) by (nonlinear_arith)
            requires
                g.columns == viewport_w as int / g.cell_w as int,
                1 <= g.cell_w <= viewport_w,
        ;
    }
    let chars = chars_of(infos);
    let glyphs = run_layout(
        policy,
        &g,
        0,
        &chars,
        infos,
        viewport_w,
        entry.metrics,
    );
    queue_glyphs(&mut entry.atlas, infos, entry.scale);
    let packed = entry.atlas.pack_queued();
    let vertices = build_text_batch(
        &glyphs,
        infos,
        entry.scale,
        &entry.atlas,
        viewport_w,
        viewport_h,
        color,
    );
    let mesh = build_grid_mesh(&g);
    FramePlan { grid: g, glyphs, dirty: packed.0, unplaced: packed.1, mesh, vertices }
}

} // verus!
