use roguelib::{AtlasCache, GlyphKey, PixelRect};

fn key(ch: char) -> GlyphKey {
    GlyphKey { ch, scale: 12 }
}

#[test]
fn pack_places_a_queued_glyph() {
    let mut cache = AtlasCache::new(64, 64, 8, 8);
    cache.queue(key('a'), 5, 7);
    let (dirty, unplaced) = cache.pack_queued();
    assert_eq!(dirty.len(), 1);
    assert_eq!(dirty[0].key, key('a'));
    assert_eq!(dirty[0].rect, PixelRect { x: 0, y: 0, w: 5, h: 7 });
    assert!(unplaced.is_empty());
    assert_eq!(cache.rect_for(key('a')), Some(PixelRect { x: 0, y: 0, w: 5, h: 7 }));
}

#[test]
fn lookup_before_pack_is_unresolved() {
    let mut cache = AtlasCache::new(64, 64, 8, 8);
    cache.queue(key('a'), 5, 7);
    assert_eq!(cache.rect_for(key('a')), None);
}

#[test]
fn queue_twice_packs_once() {
    // Idempotence: re-queuing the same glyph in one frame yields exactly one
    // packed entry and one written region.
    let mut cache = AtlasCache::new(64, 64, 8, 8);
    cache.queue(key('a'), 5, 7);
    cache.queue(key('a'), 5, 7);
    let (dirty, unplaced) = cache.pack_queued();
    assert_eq!(dirty.len(), 1);
    assert!(unplaced.is_empty());
    assert_eq!(cache.rect_for(key('a')), Some(PixelRect { x: 0, y: 0, w: 5, h: 7 }));
}

#[test]
fn second_frame_uploads_nothing_for_resident_glyph() {
    let mut cache = AtlasCache::new(64, 64, 8, 8);
    cache.queue(key('a'), 5, 7);
    let (dirty, _) = cache.pack_queued();
    assert_eq!(dirty.len(), 1);
    cache.queue(key('a'), 5, 7);
    let (dirty, unplaced) = cache.pack_queued();
    assert!(dirty.is_empty());
    assert!(unplaced.is_empty());
}

#[test]
fn distinct_glyphs_get_distinct_slots() {
    let mut cache = AtlasCache::new(16, 8, 8, 8);
    cache.queue(key('a'), 8, 8);
    cache.queue(key('b'), 6, 5);
    let (dirty, _) = cache.pack_queued();
    assert_eq!(dirty.len(), 2);
    assert_eq!(cache.rect_for(key('a')), Some(PixelRect { x: 0, y: 0, w: 8, h: 8 }));
    assert_eq!(cache.rect_for(key('b')), Some(PixelRect { x: 8, y: 0, w: 6, h: 5 }));
}

#[test]
fn full_atlas_evicts_least_recently_queued() {
    // Capacity two.  Filling it and then queuing one more distinct glyph
    // evicts the least-recently-queued resident; the evicted glyph resolves
    // to nothing until re-queued and re-packed.
    let mut cache = AtlasCache::new(16, 8, 8, 8);
    cache.queue(key('a'), 8, 8);
    cache.queue(key('b'), 8, 8);
    cache.pack_queued();
    cache.queue(key('c'), 8, 8);
    let (dirty, unplaced) = cache.pack_queued();
    assert_eq!(dirty.len(), 1);
    assert!(unplaced.is_empty());
    assert_eq!(cache.rect_for(key('a')), None);
    assert!(cache.rect_for(key('b')).is_some());
    assert!(cache.rect_for(key('c')).is_some());
    // Re-queue the evicted glyph: it packs again, displacing 'b', which is
    // now the least recently queued.
    cache.queue(key('a'), 8, 8);
    cache.pack_queued();
    assert!(cache.rect_for(key('a')).is_some());
    assert_eq!(cache.rect_for(key('b')), None);
    assert!(cache.rect_for(key('c')).is_some());
}

#[test]
fn glyphs_needed_this_frame_are_not_evicted() {
    let mut cache = AtlasCache::new(16, 8, 8, 8);
    cache.queue(key('a'), 8, 8);
    cache.queue(key('b'), 8, 8);
    cache.queue(key('c'), 8, 8);
    let (dirty, unplaced) = cache.pack_queued();
    // Two slots go to the first two queued glyphs; the third finds every
    // resident needed this frame and is dropped for the frame.
    assert_eq!(dirty.len(), 2);
    assert_eq!(unplaced, vec![key('c')]);
    assert!(cache.rect_for(key('a')).is_some());
    assert!(cache.rect_for(key('b')).is_some());
    assert_eq!(cache.rect_for(key('c')), None);
    // Next frame the atlas has unused residents again, so 'c' can displace one.
    cache.queue(key('c'), 8, 8);
    let (dirty, unplaced) = cache.pack_queued();
    assert_eq!(dirty.len(), 1);
    assert!(unplaced.is_empty());
    assert!(cache.rect_for(key('c')).is_some());
}

#[test]
fn oversized_glyph_is_dropped_not_fatal() {
    let mut cache = AtlasCache::new(16, 8, 8, 8);
    cache.queue(key('a'), 9, 8);
    cache.queue(key('b'), 4, 4);
    let (dirty, unplaced) = cache.pack_queued();
    assert_eq!(unplaced, vec![key('a')]);
    assert_eq!(cache.rect_for(key('a')), None);
    // The frame goes on: the glyph that fits is packed regardless.
    assert_eq!(dirty.len(), 1);
    assert!(cache.rect_for(key('b')).is_some());
}

#[test]
fn rects_stay_inside_the_atlas() {
    let mut cache = AtlasCache::new(20, 17, 8, 8);
    // 2 x 2 slots despite the ragged edge.
    for (i, ch) in ['a', 'b', 'c', 'd'].into_iter().enumerate() {
        cache.queue(key(ch), 8, 8);
        let _ = i;
    }
    let (dirty, unplaced) = cache.pack_queued();
    assert_eq!(dirty.len(), 4);
    assert!(unplaced.is_empty());
    for d in &dirty {
        assert!(d.rect.x + d.rect.w <= 20);
        assert!(d.rect.y + d.rect.h <= 17);
    }
}
