//! The font registry: owns one entry per registered font name — the pixel
//! scale, the vertical metrics, the probed monospace cell size, and the
//! glyph atlas cache.  The rasterizer handle and the GPU texture that go
//! with an entry live with the windowing layer, keyed by the same identifier
//! this registry hands out.

use vstd::prelude::*;
use crate::atlas::AtlasCache;
use crate::glyph::VerticalMetrics;

verus! {

/// The error taxonomy of the renderer.  Parse and surface failures are
/// detected by the rasterizing and windowing layer and mapped onto these;
/// `UnknownFont` arises here, on a draw against a name never registered.
#[derive(Clone, Copy, Debug, PartialEq, Eq, Structural)]
pub enum RenderError {
    /// The font bytes could not be parsed; the registration failed and the
    /// font is unavailable.
    FontLoad,
    /// A draw call named a font that was never registered; nothing of the
    /// frame is drawn.
    UnknownFont,
    /// A single glyph cannot fit the atlas even after eviction; the glyph is
    /// dropped from the frame and rendering continues.
    AtlasOverflow,
    /// The backing texture could not be allocated.
    TextureCreation,
    /// A draw submission failed; the frame is abandoned whole.
    DrawSubmission,
}

/// One registered font: the rasterization scale in pixels, the vertical
/// metrics, the monospace cell size probed from a reference full-block
/// glyph, and the glyph atlas.
pub struct FontEntry {
    /// Rasterization scale in whole pixels (point size times DPI factor).
    pub scale: u32,
    /// Vertical metrics at that scale.
    pub metrics: VerticalMetrics,
    /// Advance width of the reference full-block glyph: the grid cell width.
    pub max_glyph_width: u32,
    /// `ascent + descent`: the full line height and the grid cell height.
    pub max_glyph_height: u32,
    /// The glyph atlas cache for this font.
    pub atlas: AtlasCache,
}

impl FontEntry {
    /// The cell size is usable and the atlas is well formed, with one slot
    /// exactly the size of the largest glyph.
    pub open spec fn wf(self) -> bool {
        &&& self.max_glyph_width >= 1
        &&& self.max_glyph_height >= 1
        &&& self.max_glyph_height == self.metrics.ascent + self.metrics.descent
        &&& self.atlas.wf()
        &&& self.atlas.geo.slot_w == self.max_glyph_width
        &&& self.atlas.geo.slot_h == self.max_glyph_height
    }
}

/// Compare two strings by their characters.
fn str_equal(a: &str, b: &str) -> (r: bool)
    ensures
        r == (a@ == b@),
{
    let la = a.unicode_len();
    let lb = b.unicode_len();
    if la != lb {
        return false;
    }
    let mut i: usize = 0;
    while i < la
        invariant
            la == a@.len(),
            la == b@.len(),
            i <= la,
            forall|k: int| 0 <= k < i ==> a@[k] == b@[k],
        decreases la - i,
    {
        if a.get_char(i) != b.get_char(i) {
            return false;
        }
        i = i + 1;
    }
    proof {
        assert(a@ =~= b@);
    }
    true
}

/// The registry of fonts, keyed by unique names.  Identifiers handed out by
/// `register` index into the entries and stay valid for the registry's life;
/// registering a name again replaces its entry under the same identifier.
pub struct FontRegistry {
    pub names: Vec<String>,
    pub entries: Vec<FontEntry>,
}

impl FontRegistry {
    /// One entry per name, and names are unique.
    pub open spec fn wf(self) -> bool {
        &&& self.names@.len() == self.entries@.len()
        &&& forall|i: int, j: int|
            0 <= i < self.names@.len() && 0 <= j < self.names@.len() && i != j ==> (
            #[trigger] self.names@[i])@ != (#[trigger] self.names@[j])@
    }

    /// An empty registry.
    pub fn new() -> (r: FontRegistry)
        ensures
            r.wf(),
            r.names@.len() == 0,
            r.entries@.len() == 0,
    {
        FontRegistry { names: Vec::new(), entries: Vec::new() }
    }

    /// The number of registered fonts.
    pub fn len(&self) -> (n: usize)
        ensures
            n == self.entries@.len(),
    {
        self.entries.len()
    }

    /// Find a font by name.  `None` exactly when no font of that name was
    /// ever registered — the caller maps this to `UnknownFont`.
    pub fn lookup(&self, name: &str) -> (r: Option<usize>)
        requires
            self.wf(),
        ensures
            match r {
                Some(i) => i < self.names@.len() && self.names@[i as int]@ == name@,
                None => forall|j: int|
                    0 <= j < self.names@.len() ==> (#[trigger] self.names@[j])@ != name@,
            },
    {
        let mut i: usize = 0;
        while i < self.names.len()
            invariant
                i <= self.names@.len(),
                forall|k: int| 0 <= k < i ==> (#[trigger] self.names@[k])@ != name@,
            decreases self.names@.len() - i,
        {
            let eq = str_equal(self.names[i].as_str(), name);
            if eq {
                return Some(i);
            }
            i = i + 1;
        }
        None
    }

    /// Find a font by name for a draw call.  Succeeds exactly on names that
    /// were registered; a name never registered is the draw call's fatal
    /// error — nothing of the frame is drawn.
    pub fn find(&self, name: &str) -> (r: Result<usize, RenderError>)
        requires
            self.wf(),
        ensures
            match r {
                Ok(i) => i < self.entries@.len() && self.names@[i as int]@ == name@,
                Err(e) => e == RenderError::UnknownFont && forall|j: int|
                    0 <= j < self.names@.len() ==> (#[trigger] self.names@[j])@ != name@,
            },
    {
        match self.lookup(name) {
            Some(i) => Ok(i),
            None => Err(RenderError::UnknownFont),
        }
    }

    /// Register a font under a name: record its scale and metrics, take the
    /// probed full-block advance as the cell width and `ascent + descent` as
    /// the cell height, and allocate a fresh atlas of the viewport's pixel
    /// size with one slot per largest glyph.  A name registered before keeps
    /// its identifier and its entry is replaced; a new name is appended.
    pub fn register(
        &mut self,
        name: String,
        scale: u32,
        metrics: VerticalMetrics,
        max_glyph_width: u32,
        atlas_w: u32,
        atlas_h: u32,
    ) -> (id: usize)
        requires
            old(self).wf(),
            max_glyph_width >= 1,
            1 <= metrics.ascent + metrics.descent <= 0xffff_ffff,
        ensures
            final(self).wf(),
            id < final(self).names@.len(),
            final(self).names@[id as int]@ == name@,
            final(self).names@.len() == final(self).entries@.len(),
            ({
                let e = final(self).entries@[id as int];
                &&& e.wf()
                &&& e.scale == scale
                &&& e.metrics == metrics
                &&& e.max_glyph_width == max_glyph_width
                &&& e.max_glyph_height == metrics.ascent + metrics.descent
                &&& e.atlas.geo.width == atlas_w
                &&& e.atlas.geo.height == atlas_h
                &&& e.atlas.entries@.len() == 0
                &&& e.atlas.pending@.len() == 0
            }),
            forall|j: int|
                0 <= j < old(self).names@.len() && j != id ==> final(self).names@[j] == old(
                    self,
                ).names@[j] && final(self).entries@[j] == old(self).entries@[j],
            (exists|j: int|
                0 <= j < old(self).names@.len() && (#[trigger] old(self).names@[j])@ == name@)
                ==> final(self).names@.len() == old(self).names@.len(),
            !(exists|j: int|
                0 <= j < old(self).names@.len() && (#[trigger] old(self).names@[j])@ == name@)
                ==> final(self).names@.len() == old(self).names@.len() + 1 && id == old(
                self,
            ).names@.len(),
    {
        let height = metrics.ascent + metrics.descent;
        let entry = FontEntry {
            scale,
            metrics,
            max_glyph_width,
            max_glyph_height: height,
            atlas: AtlasCache::new(atlas_w, atlas_h, max_glyph_width, height),
        };
        match self.lookup(name.as_str()) {
            Some(i) => {
                self.names.set(i, name);
                self.entries.set(i, entry);
                i
            },
            None => {
                let id = self.names.len();
                self.names.push(name);
                self.entries.push(entry);
                id
            },
        }
    }

    /// Borrow an entry mutably for the duration of one draw: the renderer
    /// mutates its atlas during the pack step and hands the entry back.
    pub fn entry_mut(&mut self, i: usize) -> (e: &mut FontEntry)
        requires
            old(self).wf(),
            i < old(self).entries@.len(),
        ensures
            *e == old(self).entries@[i as int],
            final(self).entries@ == old(self).entries@.update(i as int, *final(e)),
            final(self).names@ == old(self).names@,
            final(self).wf(),
    {
        &mut self.entries[i]
    }

    /// Read an entry.
    pub fn entry(&self, i: usize) -> (e: &FontEntry)
        requires
            i < self.entries@.len(),
        ensures
            *e == self.entries@[i as int],
    {
        &self.entries[i]
    }
}

} // verus!
