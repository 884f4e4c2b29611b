use roguelib::{
    normalize_text, BoundingBox, CellGrid, GlyphInfo, VerticalMetrics,
};
use roguelib::layout::{layout_advance, layout_grid, layout_grid_text};

fn grid_1080p() -> CellGrid {
    CellGrid::new(1920, 1080, 24, 32, 0, 0)
}

#[test]
fn normalize_composes_combining_sequence() {
    // 'e' followed by a combining acute accent composes to one code point;
    // a normalizer that handed the text back unchanged would return two.
    let chars = normalize_text("e\u{0301}");
    assert_eq!(chars, vec!['\u{00e9}']);
}

#[test]
fn normalize_keeps_ascii() {
    assert_eq!(normalize_text("abcd"), vec!['a', 'b', 'c', 'd']);
    assert_eq!(normalize_text(""), Vec::<char>::new());
}

#[test]
fn grid_layout_places_each_index() {
    let g = grid_1080p();
    let chars = vec!['a', 'b', 'c', 'd'];
    let out = layout_grid(&g, 0, &chars);
    assert_eq!(out.len(), 4);
    for (i, p) in out.iter().enumerate() {
        assert_eq!(p.ch, chars[i]);
        let (x, y) = g.index_to_position(i as u32);
        assert_eq!((p.x, p.y), (x, y));
    }
}

#[test]
fn grid_layout_starts_at_given_index() {
    let g = grid_1080p();
    let chars = vec!['x', 'y'];
    let out = layout_grid(&g, 80, &chars);
    assert_eq!((out[0].x, out[0].y), (0, 32));
    assert_eq!((out[1].x, out[1].y), (24, 32));
}

#[test]
fn grid_layout_text_normalizes_first() {
    let g = grid_1080p();
    let out = layout_grid_text(&g, 0, "e\u{0301}b").unwrap();
    assert_eq!(out.len(), 2);
    assert_eq!(out[0].ch, '\u{00e9}');
    assert_eq!((out[0].x, out[0].y), (0, 0));
    assert_eq!(out[1].ch, 'b');
    assert_eq!((out[1].x, out[1].y), (24, 0));
}

fn ink(ch: char, advance: u32, w: i32, h: i32) -> GlyphInfo {
    GlyphInfo { ch, advance, bbox: Some(BoundingBox { min_x: 0, min_y: 0, max_x: w, max_y: h }) }
}

fn blank(ch: char, advance: u32) -> GlyphInfo {
    GlyphInfo { ch, advance, bbox: None }
}

fn metrics() -> VerticalMetrics {
    // line_advance = ascent + descent + line_gap = 15
    VerticalMetrics { ascent: 10, descent: 2, line_gap: 3 }
}

#[test]
fn advance_layout_keeps_every_glyph() {
    let infos = vec![ink('a', 60, 50, 8), blank(' ', 60), ink('b', 60, 50, 8), ink('c', 60, 50, 8)];
    let out = layout_advance(&infos, 100, metrics());
    assert_eq!(out.len(), infos.len());
    for (i, p) in out.iter().enumerate() {
        assert_eq!(p.ch, infos[i].ch);
    }
}

#[test]
fn advance_layout_wraps_overflowing_glyph() {
    let infos = vec![ink('a', 60, 50, 8), ink('b', 60, 50, 8)];
    let out = layout_advance(&infos, 100, metrics());
    // 'a': caret (0, 10), box right edge 50 <= 100: stays.
    assert_eq!((out[0].x, out[0].y), (0, 10));
    // 'b': caret (60, 10), box right edge 110 > 100: repositioned to
    // (0, 10 + 15), not placed at the overflowing caret.
    assert_eq!((out[1].x, out[1].y), (0, 25));
}

#[test]
fn advance_layout_blank_glyph_never_wraps() {
    // A glyph without ink has no box to cross the width, so it stays at the
    // caret however far the caret has advanced.
    let infos = vec![ink('a', 90, 80, 8), blank(' ', 60)];
    let out = layout_advance(&infos, 100, metrics());
    assert_eq!((out[1].x, out[1].y), (90, 10));
}

#[test]
fn advance_layout_caret_advances_by_advance_width() {
    let infos = vec![ink('a', 7, 5, 8), ink('b', 9, 5, 8), ink('c', 11, 5, 8)];
    let out = layout_advance(&infos, 1000, metrics());
    assert_eq!((out[0].x, out[0].y), (0, 10));
    assert_eq!((out[1].x, out[1].y), (7, 10));
    assert_eq!((out[2].x, out[2].y), (16, 10));
}
