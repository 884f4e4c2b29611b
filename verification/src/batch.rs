//! The text batch builder: converts positioned, atlas-resolved glyphs into a
//! triangle-list vertex stream in clip space.
//!
//! Clip coordinates are exact rationals: a vertex carries the numerator, and
//! the denominator is the viewport dimension (`clip_x = x_num / screen_w`,
//! `clip_y = y_num / screen_h`); texture coordinates likewise carry atlas
//! pixel numerators over the atlas dimensions.  The windowing layer performs
//! the single division per coordinate when it uploads the buffer, so the
//! screen-to-clip transform `clip_x = 2 * (px / w - 1/2)` and the vertical
//! flip `clip_y = 2 * (1 - py / h - 1/2)` are carried here without rounding.

use vstd::prelude::*;
use crate::atlas::{has_key, key_index, AtlasCache, PixelRect};
use crate::glyph::{BoundingBox, GlyphInfo, GlyphKey, PositionedGlyph};
use crate::vec_at;

verus! {

/// A color with coverage-as-alpha compositing, one byte per channel.
#[derive(Clone, Copy, Debug, PartialEq, Eq, Structural)]
pub struct Rgba {
    pub r: u8,
    pub g: u8,
    pub b: u8,
    pub a: u8,
}

/// One vertex of the text quad stream: an exact clip-space position
/// (numerators over the viewport dimensions) and an exact texture coordinate
/// (atlas pixel numerators over the atlas dimensions).
#[derive(Clone, Copy, Debug, PartialEq, Eq, Structural)]
pub struct TextVertex {
    /// Numerator of the clip x; the denominator is the viewport width.
    pub x_num: i128,
    /// Numerator of the clip y; the denominator is the viewport height.
    pub y_num: i128,
    /// Numerator of the texture u; the denominator is the atlas width.
    pub u_num: u64,
    /// Numerator of the texture v; the denominator is the atlas height.
    pub v_num: u64,
    pub color: Rgba,
}

/// A clip-space vertex for the pixel position `(px, py)` on a `sw` by `sh`
/// viewport: `clip_x = (2 px - sw) / sw` and, y flipped because pixel y
/// grows downward, `clip_y = (sh - 2 py) / sh`.
pub open spec fn spec_clip_vertex(
    px: int,
    py: int,
    u: int,
    v: int,
    sw: int,
    sh: int,
    color: Rgba,
) -> TextVertex {
    TextVertex {
        x_num: (2 * px - sw) as i128,
        y_num: (sh - 2 * py) as i128,
        u_num: u as u64,
        v_num: v as u64,
        color,
    }
}

/// The six vertices of one glyph quad: the triangles (top-left, top-right,
/// bottom-right) and (bottom-right, bottom-left, top-left), which share the
/// diagonal from the quad's top-left to its bottom-right corner and are both
/// wound the same way, texture corners paired with the matching screen
/// corners.
pub open spec fn spec_glyph_quad(
    g: PositionedGlyph,
    bb: BoundingBox,
    rect: PixelRect,
    sw: int,
    sh: int,
    color: Rgba,
) -> Seq<TextVertex> {
    let sx0 = g.x + bb.min_x;
    let sy0 = g.y + bb.min_y;
    let sx1 = g.x + bb.max_x;
    let sy1 = g.y + bb.max_y;
    let u0 = rect.x as int;
    let v0 = rect.y as int;
    let u1 = rect.x + rect.w;
    let v1 = rect.y + rect.h;
    seq![
        spec_clip_vertex(sx0, sy0, u0, v0, sw, sh, color),
        spec_clip_vertex(sx1, sy0, u1, v0, sw, sh, color),
        spec_clip_vertex(sx1, sy1, u1, v1, sw, sh, color),
        spec_clip_vertex(sx1, sy1, u1, v1, sw, sh, color),
        spec_clip_vertex(sx0, sy1, u0, v1, sw, sh, color),
        spec_clip_vertex(sx0, sy0, u0, v0, sw, sh, color),
    ]
}

/// What one laid-out glyph contributes to the batch: its quad when it has
/// ink and a resolved atlas rectangle; nothing otherwise.  A glyph queued
/// but not yet packed, or dropped by the atlas, is silently skipped this
/// frame — it contributes zero vertices and rendering goes on.
pub open spec fn spec_glyph_verts(
    g: PositionedGlyph,
    info: GlyphInfo,
    scale: u32,
    cache: AtlasCache,
    sw: int,
    sh: int,
    color: Rgba,
) -> Seq<TextVertex> {
    let key = GlyphKey { ch: g.ch, scale };
    if info.bbox is Some && has_key(cache.entries@, key) {
        let rect = cache.entries@[key_index(cache.entries@, key)].rect;
        spec_glyph_quad(g, info.bbox->Some_0, rect, sw, sh, color)
    } else {
        Seq::<TextVertex>::empty()
    }
}

/// The batch built from the first `k` glyphs, in input order.
pub open spec fn spec_batch_upto(
    glyphs: Seq<PositionedGlyph>,
    infos: Seq<GlyphInfo>,
    scale: u32,
    cache: AtlasCache,
    sw: int,
    sh: int,
    color: Rgba,
    k: int,
) -> Seq<TextVertex>
    decreases k,
{
    if k <= 0 {
        Seq::<TextVertex>::empty()
    } else {
        spec_batch_upto(glyphs, infos, scale, cache, sw, sh, color, k - 1) + spec_glyph_verts(
            glyphs[k - 1],
            infos[k - 1],
            scale,
            cache,
            sw,
            sh,
            color,
        )
    }
}

/// The whole batch: six vertices for every glyph with ink and a resolved
/// atlas rectangle, none for the rest, in input order.
pub open spec fn spec_batch(
    glyphs: Seq<PositionedGlyph>,
    infos: Seq<GlyphInfo>,
    scale: u32,
    cache: AtlasCache,
    sw: int,
    sh: int,
    color: Rgba,
) -> Seq<TextVertex> {
    spec_batch_upto(glyphs, infos, scale, cache, sw, sh, color, glyphs.len() as int)
}

/// Emit one quad (two triangles, six vertices) for each laid-out glyph whose
/// atlas rectangle resolved, pairing glyph `i` with its metrics `infos[i]`.
pub fn build_text_batch(
    glyphs: &Vec<PositionedGlyph>,
    infos: &Vec<GlyphInfo>,
    scale: u32,
    cache: &AtlasCache,
    screen_w: u32,
    screen_h: u32,
    color: Rgba,
) -> (out: Vec<TextVertex>)
    requires
        cache.wf(),
        glyphs@.len() == infos@.len(),
    ensures
        out@ == spec_batch(
            glyphs@,
            infos@,
            scale,
            *cache,
            screen_w as int,
            screen_h as int,
            color,
        ),
{
    let ghost sw: int = screen_w as int;
    let ghost sh: int = screen_h as int;
    let mut out: Vec<TextVertex> = Vec::new();
    let mut i: usize = 0;
    while i < glyphs.len()
        invariant
            cache.wf(),
            glyphs@.len() == infos@.len(),
            i <= glyphs@.len(),
            sw == screen_w as int,
            sh == screen_h as int,
            out@ == spec_batch_upto(glyphs@, infos@, scale, *cache, sw, sh, color, i as int),
        decreases glyphs@.len() - i,
    {
        let ghost out0 = out@;
        let g: PositionedGlyph = vec_at(glyphs, i);
        let info: GlyphInfo = vec_at(infos, i);
        let key = GlyphKey { ch: g.ch, scale };
        match info.bbox {
            Some(bb) => {
                match cache.rect_for(key) {
                    Some(rect) => {
                        proof {
                            let ki = key_index(cache.entries@, key);
                            assert(0 <= ki < cache.entries@.len() && cache.entries@[ki].key
                                == key);
                            assert(rect == cache.entries@[ki].rect);
                        }
                        let sx0: i128 = g.x as i128 + bb.min_x as i128;
                        let sy0: i128 = g.y as i128 + bb.min_y as i128;
                        let sx1: i128 = g.x as i128 + bb.max_x as i128;
                        let sy1: i128 = g.y as i128 + bb.max_y as i128;
                        let x0: i128 = 2 * sx0 - screen_w as i128;
                        let x1: i128 = 2 * sx1 - screen_w as i128;
                        let y0: i128 = screen_h as i128 - 2 * sy0;
                        let y1: i128 = screen_h as i128 - 2 * sy1;
                        let u0: u64 = rect.x as u64;
                        let v0: u64 = rect.y as u64;
                        let u1: u64 = rect.x as u64 + rect.w as u64;
                        let v1: u64 = rect.y as u64 + rect.h as u64;
                        out.push(TextVertex { x_num: x0, y_num: y0, u_num: u0, v_num: v0, color });
                        out.push(TextVertex { x_num: x1, y_num: y0, u_num: u1, v_num: v0, color });
                        out.push(TextVertex { x_num: x1, y_num: y1, u_num: u1, v_num: v1, color });
                        out.push(TextVertex { x_num: x1, y_num: y1, u_num: u1, v_num: v1, color });
                        out.push(TextVertex { x_num: x0, y_num: y1, u_num: u0, v_num: v1, color });
                        out.push(TextVertex { x_num: x0, y_num: y0, u_num: u0, v_num: v0, color });
                        proof {
                            assert(out@ =~= out0 + spec_glyph_verts(
                                glyphs@[i as int],
                                infos@[i as int],
                                scale,
                                *cache,
                                sw,
                                sh,
                                color,
                            ));
                        }
                    },
                    None => {
                        proof {
                            assert(out@ =~= out0 + spec_glyph_verts(
                                glyphs@[i as int],
                                infos@[i as int],
                                scale,
                                *cache,
                                sw,
                                sh,
                                color,
                            ));
                        }
                    },
                }
            },
            None => {
                proof {
                    assert(out@ =~= out0 + spec_glyph_verts(
                        glyphs@[i as int],
                        infos@[i as int],
                        scale,
                        *cache,
                        sw,
                        sh,
                        color,
                    ));
                }
            },
        }
        i = i + 1;
    }
    out
}

} // verus!
