//! Plain-value glyph data.  The rasterizer itself is an outside capability
//! consumed by the windowing layer; the core reads only whole-pixel metrics
//! from it, and those are carried in the types here.

use vstd::prelude::*;

verus! {

/// Identity of a cached glyph: a character at a pixel scale.
#[derive(Clone, Copy, Debug, PartialEq, Eq, Structural)]
pub struct GlyphKey {
    pub ch: char,
    /// Rasterization scale in whole pixels (point size times DPI factor,
    /// rounded by the rasterizing layer).
    pub scale: u32,
}

/// Pixel bounding box of a rasterized glyph, relative to the glyph's
/// position.  The offsets may be negative (ink left of or above the
/// position).
#[derive(Clone, Copy, Debug, PartialEq, Eq, Structural)]
pub struct BoundingBox {
    pub min_x: i32,
    pub min_y: i32,
    pub max_x: i32,
    pub max_y: i32,
}

impl BoundingBox {
    /// Offsets are ordered, so the box has nonnegative extent.
    pub open spec fn wf(self) -> bool {
        self.min_x <= self.max_x && self.min_y <= self.max_y
    }

    /// Pixel width of the box.
    pub fn width(&self) -> (w: u32)
        requires
            self.wf(),
        ensures
            w == self.max_x - self.min_x,
    {
        (self.max_x as i64 - self.min_x as i64) as u32
    }

    /// Pixel height of the box.
    pub fn height(&self) -> (h: u32)
        requires
            self.wf(),
        ensures
            h == self.max_y - self.min_y,
    {
        (self.max_y as i64 - self.min_y as i64) as u32
    }
}

/// What the layout and caching steps read of one glyph: the character, its
/// horizontal advance width, and its pixel bounding box.  A glyph without
/// ink (a space) has no box.
#[derive(Clone, Copy, Debug, PartialEq, Eq, Structural)]
pub struct GlyphInfo {
    pub ch: char,
    /// Horizontal caret advance in pixels.
    pub advance: u32,
    /// Bounding box relative to the glyph position, if the glyph has ink.
    pub bbox: Option<BoundingBox>,
}

impl GlyphInfo {
    /// Any box present is well formed.
    pub open spec fn wf(self) -> bool {
        self.bbox is Some ==> self.bbox->Some_0.wf()
    }
}

/// Vertical font metrics in whole pixels.  `descent` is the depth below the
/// baseline, stored as a magnitude, so the full line height is
/// `ascent + descent` and a line step adds `line_gap` on top of that.
#[derive(Clone, Copy, Debug, PartialEq, Eq, Structural)]
pub struct VerticalMetrics {
    pub ascent: u32,
    pub descent: u32,
    pub line_gap: u32,
}

/// One glyph placed by a layout pass: the character and the pixel position
/// it is to be drawn at.  Produced fresh every frame.
#[derive(Clone, Copy, Debug, PartialEq, Eq, Structural)]
pub struct PositionedGlyph {
    pub ch: char,
    pub x: u64,
    pub y: u64,
}

} // verus!
