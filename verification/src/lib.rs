//! Verified core of a terminal-style grid text renderer.
//!
//! The library lays a fixed-size character-cell grid over a pixel viewport,
//! maps a linear character index to a pixel position, places normalized text
//! on the grid (or wraps it by advance widths), caches glyph footprints in a
//! texture atlas with least-recently-queued eviction, and emits the vertex
//! streams for the text quads and the grid debug lines.  All geometry is
//! computed in whole pixels; clip-space coordinates are carried as exact
//! numerators over the viewport dimensions, so the windowing layer only
//! performs the final division when it uploads the vertices.

use vstd::prelude::*;

pub mod atlas;
pub mod batch;
pub mod frame;
pub mod glyph;
pub mod grid;
pub mod gridmesh;
pub mod layout;
pub mod registry;
pub mod text;

pub use atlas::{AtlasCache, DirtyRegion, PixelRect};
pub use batch::{Rgba, TextVertex};
pub use frame::{render_plan, FramePlan};
pub use glyph::{BoundingBox, GlyphInfo, GlyphKey, PositionedGlyph, VerticalMetrics};
pub use grid::CellGrid;
pub use gridmesh::{GridLineVertex, Rgb};
pub use layout::LayoutPolicy;
pub use registry::{FontEntry, FontRegistry, RenderError};
pub use text::normalize_text;

verus! {

/// Read one element of a vector by value.
pub(crate) fn vec_at<T: Copy>(v: &Vec<T>, i: usize) -> (x: T)
    requires
        i < v@.len(),
    ensures
        x == v@[i as int],
{
    v[i]
}

/// Read one character of a vector by value.
pub(crate) fn char_at(v: &Vec<char>, i: usize) -> (c: char)
    requires
        i < v@.len(),
    ensures
        c == v@[i as int],
{
    v[i]
}

} // verus!
