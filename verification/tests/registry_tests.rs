use roguelib::{FontRegistry, RenderError, VerticalMetrics};

fn metrics() -> VerticalMetrics {
    VerticalMetrics { ascent: 24, descent: 8, line_gap: 2 }
}

#[test]
fn register_then_lookup() {
    let mut reg = FontRegistry::new();
    let id = reg.register("default".to_string(), 12, metrics(), 24, 1920, 1080);
    assert_eq!(reg.lookup("default"), Some(id));
    assert_eq!(reg.len(), 1);
}

#[test]
fn unknown_font_is_not_found() {
    let mut reg = FontRegistry::new();
    reg.register("default".to_string(), 12, metrics(), 24, 1920, 1080);
    assert_eq!(reg.lookup("missing"), None);
}

#[test]
fn drawing_an_unregistered_name_is_the_unknown_font_error() {
    let mut reg = FontRegistry::new();
    reg.register("default".to_string(), 12, metrics(), 24, 1920, 1080);
    assert_eq!(reg.find("missing"), Err(RenderError::UnknownFont));
    assert!(reg.find("default").is_ok());
}

#[test]
fn entry_holds_probed_cell_size() {
    let mut reg = FontRegistry::new();
    let id = reg.register("default".to_string(), 12, metrics(), 24, 1920, 1080);
    let e = reg.entry(id);
    assert_eq!(e.scale, 12);
    assert_eq!(e.max_glyph_width, 24);
    // Full line height: ascent plus the depth below the baseline.
    assert_eq!(e.max_glyph_height, 32);
    assert_eq!(e.atlas.geo.width, 1920);
    assert_eq!(e.atlas.geo.height, 1080);
    assert_eq!(e.atlas.geo.slot_w, 24);
    assert_eq!(e.atlas.geo.slot_h, 32);
}

#[test]
fn reregistering_a_name_replaces_its_entry() {
    let mut reg = FontRegistry::new();
    let id1 = reg.register("default".to_string(), 12, metrics(), 24, 1920, 1080);
    let id2 = reg.register("default".to_string(), 16, metrics(), 30, 1920, 1080);
    assert_eq!(id1, id2);
    assert_eq!(reg.len(), 1);
    assert_eq!(reg.entry(id2).scale, 16);
}

#[test]
fn each_name_gets_its_own_entry() {
    let mut reg = FontRegistry::new();
    let a = reg.register("small".to_string(), 12, metrics(), 24, 1920, 1080);
    let b = reg.register("large".to_string(), 24, metrics(), 48, 1920, 1080);
    assert_ne!(a, b);
    assert_eq!(reg.len(), 2);
    assert_eq!(reg.lookup("small"), Some(a));
    assert_eq!(reg.lookup("large"), Some(b));
}
