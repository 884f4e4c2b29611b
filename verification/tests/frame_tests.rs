use roguelib::{
    BoundingBox, FontRegistry, GlyphInfo, GlyphKey, LayoutPolicy, PixelRect, Rgba,
    VerticalMetrics,
};
use roguelib::frame::render_plan;

fn metrics() -> VerticalMetrics {
    VerticalMetrics { ascent: 24, descent: 8, line_gap: 2 }
}

fn ink(ch: char) -> GlyphInfo {
    GlyphInfo { ch, advance: 24, bbox: Some(BoundingBox { min_x: 0, min_y: 0, max_x: 20, max_y: 30 }) }
}

fn white() -> Rgba {
    Rgba { r: 255, g: 255, b: 255, a: 255 }
}

#[test]
fn grid_frame_lays_out_queues_packs_and_batches() {
    let mut reg = FontRegistry::new();
    let id = reg.register("default".to_string(), 12, metrics(), 24, 1920, 1080);
    let entry = reg.entry_mut(id);
    let infos = vec![ink('a'), ink('b')];
    let plan = render_plan(entry, 1920, 1080, LayoutPolicy::GridIndexed, &infos, white());

    // The grid of this frame: cells the size of the largest glyph, the
    // origin padded one ascent down.
    assert_eq!(plan.grid.columns, 80);
    assert_eq!(plan.grid.rows, (1080 - 24) / 32);
    assert_eq!(plan.grid.pad_y, 24);

    // Layout starts at cell index 0: row 0, columns 0 and 1; the grid's
    // vertical padding puts row 0 one ascent below the top edge.
    assert_eq!(plan.glyphs.len(), 2);
    assert_eq!(plan.glyphs[0].ch, 'a');
    assert_eq!((plan.glyphs[0].x, plan.glyphs[0].y), (0, 24));
    assert_eq!((plan.glyphs[1].x, plan.glyphs[1].y), (24, 24));

    // Both glyphs were new: two regions to upload, none dropped.
    assert_eq!(plan.dirty.len(), 2);
    assert!(plan.unplaced.is_empty());
    assert_eq!(plan.dirty[0].key, GlyphKey { ch: 'a', scale: 12 });
    assert_eq!(plan.dirty[0].rect, PixelRect { x: 0, y: 0, w: 20, h: 30 });
    assert_eq!(plan.dirty[1].rect, PixelRect { x: 24, y: 0, w: 20, h: 30 });

    // Six vertices per resolved glyph; two vertices per cell boundary.
    assert_eq!(plan.vertices.len(), 12);
    assert_eq!(plan.mesh.len() as u32, 2 * (plan.grid.rows + plan.grid.columns));
}

#[test]
fn text_vertices_carry_exact_clip_numerators() {
    let mut reg = FontRegistry::new();
    let id = reg.register("default".to_string(), 12, metrics(), 24, 1920, 1080);
    let entry = reg.entry_mut(id);
    let infos = vec![ink('a')];
    let plan = render_plan(entry, 1920, 1080, LayoutPolicy::GridIndexed, &infos, white());

    // Glyph at (0, 24) with box (0,0)-(20,30): screen rect (0,24)-(20,54);
    // atlas rect (0,0)-(20,30).  The first triangle is (top-left, top-right,
    // bottom-right), so vertex 0 pairs the quad's top-left screen corner
    // with the box's top-left texture corner, and vertex 2 is the
    // bottom-right end of the shared diagonal.
    let v = &plan.vertices[0];
    assert_eq!(v.x_num, 2 * 0 - 1920);
    assert_eq!(v.y_num, 1080 - 2 * 24);
    assert_eq!((v.u_num, v.v_num), (0, 0));
    // Dividing by the denominators lands in clip and texture space.
    assert_eq!(v.x_num as f32 / 1920.0, -1.0);
    assert_eq!(v.y_num as f32 / 1080.0, 1032.0 / 1080.0);
    let v2 = &plan.vertices[2];
    assert_eq!(v2.x_num, 2 * 20 - 1920);
    assert_eq!(v2.y_num, 1080 - 2 * 54);
    assert_eq!((v2.u_num, v2.v_num), (20, 30));
    // The second triangle (bottom-right, bottom-left, top-left) shares the
    // top-left/bottom-right diagonal: its ends occur in both triangles.
    assert_eq!(plan.vertices[3], plan.vertices[2]);
    assert_eq!(plan.vertices[5], plan.vertices[0]);
}

#[test]
fn unpacked_glyph_contributes_no_vertices() {
    // An atlas of a single slot: with two distinct glyphs in the frame, the
    // second finds every slot needed and is dropped; it contributes no
    // vertices, and rendering continues with the first.
    let mut reg = FontRegistry::new();
    let id = reg.register("tiny".to_string(), 12, metrics(), 24, 24, 32);
    let entry = reg.entry_mut(id);
    let infos = vec![ink('a'), ink('b')];
    let plan = render_plan(entry, 1920, 1080, LayoutPolicy::GridIndexed, &infos, white());
    assert_eq!(plan.dirty.len(), 1);
    assert_eq!(plan.unplaced, vec![GlyphKey { ch: 'b', scale: 12 }]);
    assert_eq!(plan.vertices.len(), 6);
}

#[test]
fn advance_frame_wraps_at_the_viewport_width() {
    let mut reg = FontRegistry::new();
    let id = reg.register("default".to_string(), 12, metrics(), 24, 1920, 1080);
    let entry = reg.entry_mut(id);
    // Advances of 1900 pixels: the second glyph's box crosses the viewport
    // width and wraps to the next line.
    let wide = GlyphInfo {
        ch: 'w',
        advance: 1900,
        bbox: Some(BoundingBox { min_x: 0, min_y: 0, max_x: 100, max_y: 30 }),
    };
    let infos = vec![wide, wide];
    let plan = render_plan(entry, 1920, 1080, LayoutPolicy::AdvanceWrapped, &infos, white());
    assert_eq!(plan.glyphs.len(), 2);
    assert_eq!((plan.glyphs[0].x, plan.glyphs[0].y), (0, 24));
    // line_advance = 24 + 8 + 2 = 34.
    assert_eq!((plan.glyphs[1].x, plan.glyphs[1].y), (0, 24 + 34));
}

#[test]
fn second_frame_of_same_text_uploads_nothing() {
    let mut reg = FontRegistry::new();
    let id = reg.register("default".to_string(), 12, metrics(), 24, 1920, 1080);
    let entry = reg.entry_mut(id);
    let infos = vec![ink('a'), ink('b'), ink('a')];
    let plan1 = render_plan(entry, 1920, 1080, LayoutPolicy::GridIndexed, &infos, white());
    // 'a' appears twice but is packed once.
    assert_eq!(plan1.dirty.len(), 2);
    let plan2 = render_plan(entry, 1920, 1080, LayoutPolicy::GridIndexed, &infos, white());
    assert!(plan2.dirty.is_empty());
    assert_eq!(plan2.vertices.len(), 18);
}
