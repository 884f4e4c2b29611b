//! The glyph atlas cache: a fixed-size two-dimensional pixel region packed
//! with glyph bitmaps, filled by a two-phase protocol.  `queue` marks a glyph
//! as needed this frame (idempotently); `pack_queued` places every queued
//! glyph that is not yet resident, evicting the least-recently-queued unused
//! glyph under space pressure, and reports only the newly written regions so
//! the caller uploads each exactly once; `rect_for` resolves a glyph to its
//! pixel rectangle only while it is resident.
//!
//! The atlas is divided into uniform slots sized for the largest glyph of
//! the monospace font, one glyph per slot.  Recency is the order of the
//! entries: a glyph moves to the back whenever it is queued, so the
//! least-recently-queued resident is the first entry not needed this frame.

use vstd::prelude::*;
use crate::glyph::GlyphKey;

verus! {

/// An axis-aligned pixel rectangle inside the atlas.
#[derive(Clone, Copy, Debug, PartialEq, Eq, Structural)]
pub struct PixelRect {
    pub x: u32,
    pub y: u32,
    pub w: u32,
    pub h: u32,
}

/// A newly packed glyph: the caller must rasterize `key` and write the
/// bytes into `rect` before the next draw uses the atlas.
#[derive(Clone, Copy, Debug, PartialEq, Eq, Structural)]
pub struct DirtyRegion {
    pub key: GlyphKey,
    pub rect: PixelRect,
}

/// The fixed geometry of an atlas: its pixel size and the uniform slot size.
#[derive(Clone, Copy, Debug, PartialEq, Eq, Structural)]
pub struct AtlasGeometry {
    pub width: u32,
    pub height: u32,
    pub slot_w: u32,
    pub slot_h: u32,
}

/// A resident glyph: its identity, the slot it occupies, its footprint, the
/// pixel rectangle derived from the slot, and whether it was queued since
/// the last pack.
#[derive(Clone, Copy, Debug, PartialEq, Eq, Structural)]
pub struct AtlasEntry {
    pub key: GlyphKey,
    pub slot: u64,
    pub w: u32,
    pub h: u32,
    pub rect: PixelRect,
    pub needed: bool,
}

/// A glyph queued this frame and not yet resident.
#[derive(Clone, Copy, Debug, PartialEq, Eq, Structural)]
pub struct PendingGlyph {
    pub key: GlyphKey,
    pub w: u32,
    pub h: u32,
}

impl AtlasGeometry {
    /// Slots per atlas row.
    pub open spec fn spec_slots_x(self) -> int {
        self.width as int / self.slot_w as int
    }

    /// Slot rows in the atlas.
    pub open spec fn spec_slots_y(self) -> int {
        self.height as int / self.slot_h as int
    }

    /// Total number of slots.
    pub open spec fn spec_capacity(self) -> int {
        self.spec_slots_x() * self.spec_slots_y()
    }

    /// Slot sizes are nonzero, so the slot counts are defined.
    pub open spec fn wf(self) -> bool {
        self.slot_w >= 1 && self.slot_h >= 1
    }

    /// The pixel rectangle of a slot, shrunk to a glyph footprint.
    pub open spec fn spec_slot_rect(self, slot: int, w: u32, h: u32) -> PixelRect {
        PixelRect {
            x: ((slot % self.spec_slots_x()) * self.slot_w) as u32,
            y: ((slot / self.spec_slots_x()) * self.slot_h) as u32,
            w,
            h,
        }
    }

    /// A resident entry is geometrically sound: it sits in a real slot, its
    /// footprint fits the slot, and its rectangle is its slot's rectangle.
    pub open spec fn entry_ok(self, e: AtlasEntry) -> bool {
        &&& 0 <= e.slot < self.spec_capacity()
        &&& e.w <= self.slot_w
        &&& e.h <= self.slot_h
        &&& e.rect == self.spec_slot_rect(e.slot as int, e.w, e.h)
    }

    /// The entry built when a pending glyph is placed into a slot.
    pub open spec fn spec_new_entry(self, p: PendingGlyph, slot: int) -> AtlasEntry {
        AtlasEntry {
            key: p.key,
            slot: slot as u64,
            w: p.w,
            h: p.h,
            rect: self.spec_slot_rect(slot, p.w, p.h),
            needed: true,
        }
    }
}

/// Some resident entry occupies this slot.
pub open spec fn slot_used(entries: Seq<AtlasEntry>, slot: int) -> bool {
    exists|i: int| 0 <= i < entries.len() && (#[trigger] entries[i]).slot == slot
}

/// Some resident entry holds this glyph.
pub open spec fn has_key(entries: Seq<AtlasEntry>, key: GlyphKey) -> bool {
    exists|i: int| 0 <= i < entries.len() && (#[trigger] entries[i]).key == key
}

/// The index of the resident entry holding this glyph (unique under `wf`).
pub open spec fn key_index(entries: Seq<AtlasEntry>, key: GlyphKey) -> int {
    choose|i: int| 0 <= i < entries.len() && (#[trigger] entries[i]).key == key
}

/// Some pending glyph has this key.
pub open spec fn pending_has_key(pending: Seq<PendingGlyph>, key: GlyphKey) -> bool {
    exists|i: int| 0 <= i < pending.len() && (#[trigger] pending[i]).key == key
}

/// Re-queue of a resident glyph: the entry moves to the back (most recently
/// queued) and is marked needed for this frame.
pub open spec fn spec_requeue(entries: Seq<AtlasEntry>, i: int) -> Seq<AtlasEntry> {
    entries.remove(i).push(AtlasEntry { needed: true, ..entries[i] })
}

/// The resident entries after one `queue` call.
pub open spec fn spec_queue_entries(
    entries: Seq<AtlasEntry>,
    key: GlyphKey,
) -> Seq<AtlasEntry> {
    if has_key(entries, key) {
        spec_requeue(entries, key_index(entries, key))
    } else {
        entries
    }
}

/// The pending queue after one `queue` call: a glyph becomes pending only
/// when it is neither resident nor already pending, so duplicate requests in
/// one frame collapse to one.
pub open spec fn spec_queue_pending(
    entries: Seq<AtlasEntry>,
    pending: Seq<PendingGlyph>,
    key: GlyphKey,
    w: u32,
    h: u32,
) -> Seq<PendingGlyph> {
    if has_key(entries, key) || pending_has_key(pending, key) {
        pending
    } else {
        pending.push(PendingGlyph { key, w, h })
    }
}

/// The glyph atlas cache.
pub struct AtlasCache {
    pub geo: AtlasGeometry,
    pub entries: Vec<AtlasEntry>,
    pub pending: Vec<PendingGlyph>,
}

/// Well-formedness of the cache state: every entry is geometrically sound;
/// resident keys and slots are unique; pending keys are unique and disjoint
/// from the resident keys.
pub open spec fn wf_state(
    geo: AtlasGeometry,
    entries: Seq<AtlasEntry>,
    pending: Seq<PendingGlyph>,
) -> bool {
    &&& geo.wf()
    &&& forall|i: int| 0 <= i < entries.len() ==> geo.entry_ok(#[trigger] entries[i])
    &&& forall|i: int, j: int|
        0 <= i < entries.len() && 0 <= j < entries.len() && i != j ==> (#[trigger] entries[i]).key
            != (#[trigger] entries[j]).key && entries[i].slot != entries[j].slot
    &&& forall|i: int, j: int|
        0 <= i < pending.len() && 0 <= j < pending.len() && i != j ==> (#[trigger] pending[i]).key
            != (#[trigger] pending[j]).key
    &&& forall|i: int, j: int|
        0 <= i < pending.len() && 0 <= j < entries.len() ==> (#[trigger] pending[i]).key
            != (#[trigger] entries[j]).key
}

impl AtlasCache {
    pub open spec fn wf(self) -> bool {
        wf_state(self.geo, self.entries@, self.pending@)
    }

    /// The glyph is resident: packed into a slot and not yet evicted.
    pub open spec fn is_resident(self, key: GlyphKey) -> bool {
        has_key(self.entries@, key)
    }

    /// The glyph is queued for the coming pack and not yet resident.
    pub open spec fn is_pending(self, key: GlyphKey) -> bool {
        pending_has_key(self.pending@, key)
    }

    /// An empty cache over an atlas of the given pixel size, divided into
    /// uniform slots of the given size.
    pub fn new(width: u32, height: u32, slot_w: u32, slot_h: u32) -> (c: AtlasCache)
        requires
            slot_w >= 1,
            slot_h >= 1,
        ensures
            c.wf(),
            c.geo == (AtlasGeometry { width, height, slot_w, slot_h }),
            c.entries@ == Seq::<AtlasEntry>::empty(),
            c.pending@ == Seq::<PendingGlyph>::empty(),
    {
        AtlasCache {
            geo: AtlasGeometry { width, height, slot_w, slot_h },
            entries: Vec::new(),
            pending: Vec::new(),
        }
    }

    /// Index of the resident entry for a glyph, if any.
    fn find_entry(&self, key: GlyphKey) -> (r: Option<usize>)
        ensures
            match r {
                Some(i) => i < self.entries@.len() && self.entries@[i as int].key == key,
                None => !self.is_resident(key),
            },
    {
        let mut i: usize = 0;
        while i < self.entries.len()
            invariant
                i <= self.entries@.len(),
                forall|k: int| 0 <= k < i ==> (#[trigger] self.entries@[k]).key != key,
            decreases self.entries@.len() - i,
        {
            let e = crate::vec_at(&self.entries, i);
            if e.key.ch == key.ch && e.key.scale == key.scale {
                return Some(i);
            }
            i = i + 1;
        }
        None
    }

    /// Whether a glyph is already queued for the coming pack.
    fn find_pending(&self, key: GlyphKey) -> (r: bool)
        ensures
            r == self.is_pending(key),
    {
        let mut i: usize = 0;
        while i < self.pending.len()
            invariant
                i <= self.pending@.len(),
                forall|k: int| 0 <= k < i ==> (#[trigger] self.pending@[k]).key != key,
            decreases self.pending@.len() - i,
        {
            let p = crate::vec_at(&self.pending, i);
            if p.key.ch == key.ch && p.key.scale == key.scale {
                return true;
            }
            i = i + 1;
        }
        false
    }

    /// The pixel rectangle a glyph was packed into, while it is resident.
    /// `None` for a glyph never packed, or packed and since evicted, until
    /// it is re-queued and re-packed.
    pub fn rect_for(&self, key: GlyphKey) -> (r: Option<PixelRect>)
        requires
            self.wf(),
        ensures
            r is Some <==> self.is_resident(key),
            forall|i: int|
                0 <= i < self.entries@.len() && (#[trigger] self.entries@[i]).key == key ==> r
                    == Some(self.entries@[i].rect),
    {
        match self.find_entry(key) {
            Some(i) => {
                let e = crate::vec_at(&self.entries, i);
                Some(e.rect)
            },
            None => None,
        }
    }

    /// Number of slots in the atlas.
    fn capacity(&self) -> (c: u64)
        requires
            self.geo.wf(),
        ensures
            c == self.geo.spec_capacity(),
    {
        proof {
            lemma_capacity_bound(self.geo);
            assert((self.geo.width as int / self.geo.slot_w as int) * (self.geo.height as int
                / self.geo.slot_h as int) == self.geo.spec_capacity());
        }
        let sx: u64 = (self.geo.width / self.geo.slot_w) as u64;
        let sy: u64 = (self.geo.height / self.geo.slot_h) as u64;
        sx * sy
    }

    /// The pixel rectangle of a slot, shrunk to a glyph footprint.
    fn slot_pixel_rect(&self, slot: u64, w: u32, h: u32) -> (r: PixelRect)
        requires
            self.geo.wf(),
            slot < self.geo.spec_capacity(),
            w <= self.geo.slot_w,
            h <= self.geo.slot_h,
        ensures
            r == self.geo.spec_slot_rect(slot as int, w, h),
            r.x + r.w <= self.geo.width,
            r.y + r.h <= self.geo.height,
    {
        let geo = self.geo;
        let sx: u64 = (geo.width / geo.slot_w) as u64;
        let sy: u64 = (geo.height / geo.slot_h) as u64;
        proof {
            lemma_capacity_bound(geo);
            if sx == 0 {
                assert(geo.spec_capacity() == 0) by (nonlinear_arith)
                    requires
                        geo.spec_slots_x() == 0,
                        geo.spec_capacity() == geo.spec_slots_x() * geo.spec_slots_y(),
                ;
            }
        }
        let col: u64 = slot % sx;
        let rowi: u64 = slot / sx;
        proof {
            vstd::arithmetic::div_mod::lemma_fundamental_div_mod(geo.width as int, geo.slot_w as int);
            vstd::arithmetic::div_mod::lemma_fundamental_div_mod(geo.height as int, geo.slot_h as int);
            assert(sx * geo.slot_w <= geo.width && sy * geo.slot_h <= geo.height) by (nonlinear_arith)
                requires
                    geo.width == geo.slot_w * (geo.width as int / geo.slot_w as int) + geo.width as int
                        % geo.slot_w as int,
                    geo.height == geo.slot_h * (geo.height as int / geo.slot_h as int)
                        + geo.height as int % geo.slot_h as int,
                    geo.width as int % geo.slot_w as int >= 0,
                    geo.height as int % geo.slot_h as int >= 0,
                    sx == geo.width as int / geo.slot_w as int,
                    sy == geo.height as int / geo.slot_h as int,
            ;
            assert(col < sx);
            assert(col * geo.slot_w <= geo.width - geo.slot_w) by (nonlinear_arith)
                requires
                    col <= sx - 1,
                    sx * geo.slot_w <= geo.width,
                    geo.slot_w >= 1,
            ;
            vstd::arithmetic::div_mod::lemma_multiply_divide_lt(slot as int, sx as int, sy as int);
            assert(sx as int * sy as int == geo.spec_capacity()) by (nonlinear_arith)
                requires
                    sx == geo.spec_slots_x(),
                    sy == geo.spec_slots_y(),
                    geo.spec_capacity() == geo.spec_slots_x() * geo.spec_slots_y(),
            ;
            assert(rowi < sy);
            assert(rowi * geo.slot_h <= geo.height - geo.slot_h) by (nonlinear_arith)
                requires
                    rowi <= sy - 1,
                    sy * geo.slot_h <= geo.height,
                    geo.slot_h >= 1,
            ;
        }
        let x: u64 = col * (geo.slot_w as u64);
        let y: u64 = rowi * (geo.slot_h as u64);
        PixelRect { x: x as u32, y: y as u32, w, h }
    }

    /// Build the resident entry for a pending glyph placed into a slot.
    fn make_entry(&self, p: PendingGlyph, slot: u64) -> (e: AtlasEntry)
        requires
            self.geo.wf(),
            slot < self.geo.spec_capacity(),
            p.w <= self.geo.slot_w,
            p.h <= self.geo.slot_h,
        ensures
            e == self.geo.spec_new_entry(p, slot as int),
            self.geo.entry_ok(e),
    {
        let rect = self.slot_pixel_rect(slot, p.w, p.h);
        AtlasEntry { key: p.key, slot, w: p.w, h: p.h, rect, needed: true }
    }

    /// Whether some resident entry occupies the slot.
    fn slot_used_exec(&self, slot: u64) -> (r: bool)
        ensures
            r == slot_used(self.entries@, slot as int),
    {
        let mut i: usize = 0;
        while i < self.entries.len()
            invariant
                i <= self.entries@.len(),
                forall|k: int| 0 <= k < i ==> (#[trigger] self.entries@[k]).slot != slot,
            decreases self.entries@.len() - i,
        {
            let e = crate::vec_at(&self.entries, i);
            if e.slot == slot {
                return true;
            }
            i = i + 1;
        }
        false
    }

    /// The lowest unoccupied slot, if the atlas has one.
    fn find_free_slot(&self) -> (r: Option<u64>)
        requires
            self.geo.wf(),
        ensures
            ({
                let f = spec_free_slot(self.entries@, self.geo.spec_capacity(), 0);
                match r {
                    Some(s) => f == s,
                    None => f == -1,
                }
            }),
    {
        let cap: u64 = self.capacity();
        let mut s: u64 = 0;
        while s < cap
            invariant
                s <= cap,
                cap == self.geo.spec_capacity(),
                spec_free_slot(self.entries@, cap as int, 0) == spec_free_slot(
                    self.entries@,
                    cap as int,
                    s as int,
                ),
            decreases cap - s,
        {
            if !self.slot_used_exec(s) {
                return Some(s);
            }
            s = s + 1;
        }
        None
    }

    /// The least-recently-queued resident not needed this frame, if any.
    fn find_victim(&self) -> (r: Option<usize>)
        ensures
            ({
                let v = spec_victim(self.entries@, 0);
                match r {
                    Some(i) => v == i && i < self.entries@.len(),
                    None => v == -1,
                }
            }),
    {
        let mut i: usize = 0;
        while i < self.entries.len()
            invariant
                i <= self.entries@.len(),
                spec_victim(self.entries@, 0) == spec_victim(self.entries@, i as int),
            decreases self.entries@.len() - i,
        {
            let e = crate::vec_at(&self.entries, i);
            if !e.needed {
                return Some(i);
            }
            i = i + 1;
        }
        None
    }

    /// Pack every queued glyph that is not yet resident.  Pending glyphs are
    /// placed in queue order: each takes the lowest free slot, or evicts the
    /// least-recently-queued resident not needed this frame.  Returns the
    /// newly written regions — the only parts the caller must upload — and
    /// the glyphs that could not be placed (oversized for a slot, or the
    /// atlas full of glyphs needed this frame): those are dropped for the
    /// frame, remain unresolved, and rendering goes on without them.  The
    /// pending queue empties and the per-frame `needed` marks clear.
    pub fn pack_queued(&mut self) -> (r: (Vec<DirtyRegion>, Vec<GlyphKey>))
        requires
            old(self).wf(),
        ensures
            final(self).wf(),
            final(self).geo == old(self).geo,
            final(self).pending@ == Seq::<PendingGlyph>::empty(),
            ({
                let t = spec_pack(old(self).geo, old(self).entries@, old(self).pending@);
                &&& final(self).entries@ == reset_needed(t.0)
                &&& r.0@ == t.1
                &&& r.1@ == t.2
            }),
    {
        let ghost geo = self.geo;
        let ghost ents0 = self.entries@;
        let ghost pend0 = self.pending@;
        let mut dirty: Vec<DirtyRegion> = Vec::new();
        let mut unplaced: Vec<GlyphKey> = Vec::new();
        proof {
            assert(pend0.skip(0) =~= pend0);
            assert(dirty@ + spec_pack(geo, self.entries@, pend0.skip(0)).1 =~= spec_pack(
                geo,
                ents0,
                pend0,
            ).1);
            assert(unplaced@ + spec_pack(geo, self.entries@, pend0.skip(0)).2 =~= spec_pack(
                geo,
                ents0,
                pend0,
            ).2);
        }
        let mut i: usize = 0;
        while i < self.pending.len()
            invariant
                self.geo == geo,
                self.pending@ == pend0,
                i <= pend0.len(),
                wf_state(geo, self.entries@, pend0.skip(i as int)),
                spec_pack(geo, ents0, pend0).0 == spec_pack(
                    geo,
                    self.entries@,
                    pend0.skip(i as int),
                ).0,
                spec_pack(geo, ents0, pend0).1 == dirty@ + spec_pack(
                    geo,
                    self.entries@,
                    pend0.skip(i as int),
                ).1,
                spec_pack(geo, ents0, pend0).2 == unplaced@ + spec_pack(
                    geo,
                    self.entries@,
                    pend0.skip(i as int),
                ).2,
            decreases pend0.len() - i,
        {
            let ghost cur0 = self.entries@;
            let ghost rem = pend0.skip(i as int);
            let p: PendingGlyph = crate::vec_at(&self.pending, i);
            proof {
                assert(rem[0] == pend0[i as int]);
                assert(rem.drop_first() =~= pend0.skip(i as int + 1));
            }
            if p.w > self.geo.slot_w || p.h > self.geo.slot_h {
                unplaced.push(p.key);
                proof {
                    lemma_drop_pending_wf(geo, cur0, rem);
                    assert(spec_place_one(geo, cur0, p).0 == cur0);
                }
            } else {
                proof {
                    lemma_free_slot_properties(cur0, geo.spec_capacity(), 0);
                }
                match self.find_free_slot() {
                    Some(slot) => {
                        let e = self.make_entry(p, slot);
                        self.entries.push(e);
                        dirty.push(DirtyRegion { key: p.key, rect: e.rect });
                        proof {
                            lemma_place_new_wf(geo, cur0, rem, slot as int);
                            assert(self.entries@ == spec_place_one(geo, cur0, p).0);
                        }
                    },
                    None => {
                        proof {
                            lemma_victim_properties(cur0, 0);
                        }
                        match self.find_victim() {
                            Some(v) => {
                                let victim: AtlasEntry = crate::vec_at(&self.entries, v);
                                self.entries.remove(v);
                                proof {
                                    lemma_capacity_bound(geo);
                                    assert(geo.entry_ok(victim));
                                }
                                let e = self.make_entry(p, victim.slot);
                                self.entries.push(e);
                                dirty.push(DirtyRegion { key: p.key, rect: e.rect });
                                proof {
                                    lemma_place_evict_wf(geo, cur0, rem, v as int);
                                    assert(self.entries@ == cur0.remove(v as int).push(
                                        geo.spec_new_entry(p, cur0[v as int].slot as int),
                                    ));
                                    assert(self.entries@ == spec_place_one(geo, cur0, p).0);
                                }
                            },
                            None => {
                                unplaced.push(p.key);
                                proof {
                                    lemma_drop_pending_wf(geo, cur0, rem);
                                    assert(spec_place_one(geo, cur0, p).0 == cur0);
                                }
                            },
                        }
                    },
                }
            }
            proof {
                let step = spec_place_one(geo, cur0, p);
                let rest = spec_pack(geo, step.0, pend0.skip(i as int + 1));
                assert(spec_pack(geo, cur0, rem).0 == rest.0);
                assert(spec_pack(geo, cur0, rem).1 == step.1 + rest.1);
                assert(spec_pack(geo, cur0, rem).2 == step.2 + rest.2);
                assert(spec_pack(geo, ents0, pend0).1 == dirty@ + rest.1) by {
                    if step.1.len() == 1 {
                        assert(dirty@ =~= dirty@.subrange(0, dirty@.len() - 1) + step.1);
                        assert(dirty@.subrange(0, dirty@.len() - 1) + (step.1 + rest.1) =~= (
                        dirty@.subrange(0, dirty@.len() - 1) + step.1) + rest.1);
                    } else {
                        assert(step.1 + rest.1 =~= rest.1);
                    }
                }
                assert(spec_pack(geo, ents0, pend0).2 == unplaced@ + rest.2) by {
                    if step.2.len() == 1 {
                        assert(unplaced@ =~= unplaced@.subrange(0, unplaced@.len() - 1) + step.2);
                        assert(unplaced@.subrange(0, unplaced@.len() - 1) + (step.2 + rest.2) =~= (
                        unplaced@.subrange(0, unplaced@.len() - 1) + step.2) + rest.2);
                    } else {
                        assert(step.2 + rest.2 =~= rest.2);
                    }
                }
            }
            i = i + 1;
        }
        proof {
            assert(pend0.skip(pend0.len() as int) =~= Seq::<PendingGlyph>::empty());
            assert(spec_pack(geo, ents0, pend0).1 =~= dirty@);
            assert(spec_pack(geo, ents0, pend0).2 =~= unplaced@);
        }
        self.pending.clear();
        let ghost packed = self.entries@;
        let mut k: usize = 0;
        while k < self.entries.len()
            invariant
                self.geo == geo,
                self.pending@ == Seq::<PendingGlyph>::empty(),
                self.entries@.len() == packed.len(),
                k <= packed.len(),
                forall|j: int|
                    0 <= j < k ==> #[trigger] self.entries@[j] == (AtlasEntry {
                        needed: false,
                        ..packed[j]
                    }),
                forall|j: int| k <= j < packed.len() ==> #[trigger] self.entries@[j] == packed[j],
            decreases packed.len() - k,
        {
            let e: AtlasEntry = crate::vec_at(&self.entries, k);
            let cleared = AtlasEntry {
                key: e.key,
                slot: e.slot,
                w: e.w,
                h: e.h,
                rect: e.rect,
                needed: false,
            };
            self.entries.set(k, cleared);
            k = k + 1;
        }
        proof {
            assert(self.entries@ =~= reset_needed(packed));
            lemma_reset_needed_wf(geo, packed, Seq::<PendingGlyph>::empty());
            assert(wf_state(geo, packed, Seq::<PendingGlyph>::empty())) by {
                assert(wf_state(geo, packed, pend0.skip(pend0.len() as int)));
            }
        }
        (dirty, unplaced)
    }

    /// Mark a glyph as needed this frame.  A resident glyph is refreshed in
    /// the recency order; a glyph already queued is left as it is, so
    /// duplicate requests within one frame collapse to a single pending
    /// glyph; any other glyph joins the pending queue with its footprint.
    pub fn queue(&mut self, key: GlyphKey, w: u32, h: u32)
        requires
            old(self).wf(),
        ensures
            final(self).wf(),
            final(self).geo == old(self).geo,
            final(self).entries@ == spec_queue_entries(old(self).entries@, key),
            final(self).pending@ == spec_queue_pending(
                old(self).entries@,
                old(self).pending@,
                key,
                w,
                h,
            ),
            final(self).is_resident(key) || final(self).is_pending(key),
            final(self).is_resident(key) == old(self).is_resident(key),
    {
        match self.find_entry(key) {
            Some(i) => {
                let e = crate::vec_at(&self.entries, i);
                let refreshed = AtlasEntry {
                    key: e.key,
                    slot: e.slot,
                    w: e.w,
                    h: e.h,
                    rect: e.rect,
                    needed: true,
                };
                proof {
                    assert(key_index(self.entries@, key) == i as int) by {
                        assert(has_key(self.entries@, key));
                        let j = key_index(self.entries@, key);
                        assert(0 <= j < self.entries@.len() && self.entries@[j].key == key);
                    }
                }
                self.entries.remove(i);
                self.entries.push(refreshed);
                proof {
                    let olde = old(self).entries@;
                    assert(refreshed == AtlasEntry { needed: true, ..olde[i as int] });
                    assert(self.entries@ =~= spec_requeue(olde, i as int));
                    lemma_requeue_preserves_wf(self.geo, olde, old(self).pending@, i as int);
                    assert(has_key(self.entries@, key)) by {
                        assert(self.entries@[self.entries@.len() - 1].key == key);
                    }
                }
            },
            None => {
                if !self.find_pending(key) {
                    self.pending.push(PendingGlyph { key, w, h });
                    proof {
                        let oldp = old(self).pending@;
                        let np = self.pending@;
                        assert(forall|a: int, b: int|
                            0 <= a < np.len() && 0 <= b < np.len() && a != b ==> (
                            #[trigger] np[a]).key != (#[trigger] np[b]).key);
                        assert(self.is_pending(key)) by {
                            assert(np[np.len() - 1].key == key);
                        }
                    }
                } else {
                    proof {
                        assert(self.pending@ == spec_queue_pending(
                            old(self).entries@,
                            old(self).pending@,
                            key,
                            w,
                            h,
                        ));
                    }
                }
            },
        }
    }
}

/// Lowest free slot at or after `s`, or `-1` when every slot from `s` on is
/// occupied by a resident entry.
pub open spec fn spec_free_slot(entries: Seq<AtlasEntry>, cap: int, s: int) -> int
    decreases cap - s,
{
    if s >= cap {
        -1
    } else if slot_used(entries, s) {
        spec_free_slot(entries, cap, s + 1)
    } else {
        s
    }
}

/// The first entry at or after `i` not needed this frame — the
/// least-recently-queued resident that may be evicted — or `-1` when every
/// resident from `i` on is needed.
pub open spec fn spec_victim(entries: Seq<AtlasEntry>, i: int) -> int
    decreases entries.len() - i,
{
    if i >= entries.len() {
        -1
    } else if !entries[i].needed {
        i
    } else {
        spec_victim(entries, i + 1)
    }
}

/// What one pending glyph does to the resident entries: an oversized glyph
/// is reported unplaceable; otherwise it takes the lowest free slot, or the
/// slot of the least-recently-queued unused resident, which is evicted; when
/// every slot holds a glyph needed this frame, the glyph is reported
/// unplaceable and dropped for the frame.
pub open spec fn spec_place_one(
    geo: AtlasGeometry,
    entries: Seq<AtlasEntry>,
    p: PendingGlyph,
) -> (Seq<AtlasEntry>, Seq<DirtyRegion>, Seq<GlyphKey>) {
    if p.w > geo.slot_w || p.h > geo.slot_h {
        (entries, Seq::<DirtyRegion>::empty(), seq![p.key])
    } else {
        let free = spec_free_slot(entries, geo.spec_capacity(), 0);
        if free >= 0 {
            let e = geo.spec_new_entry(p, free);
            (entries.push(e), seq![(DirtyRegion { key: p.key, rect: e.rect })], Seq::<GlyphKey>::empty())
        } else {
            let v = spec_victim(entries, 0);
            if v >= 0 {
                let e = geo.spec_new_entry(p, entries[v].slot as int);
                (
                    entries.remove(v).push(e),
                    seq![(DirtyRegion { key: p.key, rect: e.rect })],
                    Seq::<GlyphKey>::empty(),
                )
            } else {
                (entries, Seq::<DirtyRegion>::empty(), seq![p.key])
            }
        }
    }
}

/// The pack step over the whole pending queue, in queue order: the resident
/// entries after packing, the newly written regions, and the glyphs that
/// could not be placed.
pub open spec fn spec_pack(
    geo: AtlasGeometry,
    entries: Seq<AtlasEntry>,
    pending: Seq<PendingGlyph>,
) -> (Seq<AtlasEntry>, Seq<DirtyRegion>, Seq<GlyphKey>)
    decreases pending.len(),
{
    if pending.len() == 0 {
        (entries, Seq::<DirtyRegion>::empty(), Seq::<GlyphKey>::empty())
    } else {
        let step = spec_place_one(geo, entries, pending[0]);
        let rest = spec_pack(geo, step.0, pending.drop_first());
        (rest.0, step.1 + rest.1, step.2 + rest.2)
    }
}

/// End of frame: every `needed` mark is cleared.
pub open spec fn reset_needed(entries: Seq<AtlasEntry>) -> Seq<AtlasEntry> {
    Seq::new(entries.len(), |i: int| AtlasEntry { needed: false, ..entries[i] })
}

/// The slot counts and capacity fit the machine: each count is at most the
/// atlas dimension, so the capacity fits in 64 bits.
pub proof fn lemma_capacity_bound(geo: AtlasGeometry)
    requires
        geo.wf(),
    ensures
        0 <= geo.spec_slots_x() <= geo.width,
        0 <= geo.spec_slots_y() <= geo.height,
        0 <= geo.spec_capacity() < 0x1_0000_0000_0000_0000,
{
    assert(0 <= geo.width as int / geo.slot_w as int <= geo.width as int) by (nonlinear_arith)
        requires
            geo.slot_w >= 1,
    ;
    assert(0 <= geo.height as int / geo.slot_h as int <= geo.height as int) by (nonlinear_arith)
        requires
            geo.slot_h >= 1,
    ;
    assert(geo.spec_slots_x() * geo.spec_slots_y() >= 0 && geo.spec_slots_x()
        * geo.spec_slots_y() <= 0xffff_ffff * 0xffff_ffff) by (nonlinear_arith)
        requires
            0 <= geo.spec_slots_x() <= 0xffff_ffff,
            0 <= geo.spec_slots_y() <= 0xffff_ffff,
    ;
}

/// A free slot reported by `spec_free_slot` lies in range and is unused.
pub proof fn lemma_free_slot_properties(entries: Seq<AtlasEntry>, cap: int, s: int)
    requires
        0 <= s,
    ensures
        ({
            let f = spec_free_slot(entries, cap, s);
            f == -1 || (s <= f < cap && !slot_used(entries, f))
        }),
    decreases cap - s,
{
    if s < cap && slot_used(entries, s) {
        lemma_free_slot_properties(entries, cap, s + 1);
    }
}

/// A victim reported by `spec_victim` lies in range, is not needed this
/// frame, and every entry queued less recently (in front of it) is needed —
/// it is the least-recently-queued unused resident.
pub proof fn lemma_victim_properties(entries: Seq<AtlasEntry>, i: int)
    requires
        0 <= i,
    ensures
        ({
            let v = spec_victim(entries, i);
            if v == -1 {
                forall|j: int| i <= j < entries.len() ==> (#[trigger] entries[j]).needed
            } else {
                &&& i <= v < entries.len()
                &&& !entries[v].needed
                &&& forall|j: int| i <= j < v ==> (#[trigger] entries[j]).needed
            }
        }),
    decreases entries.len() - i,
{
    if i < entries.len() && entries[i].needed {
        lemma_victim_properties(entries, i + 1);
    }
}

/// Placing a pending glyph into an unused slot keeps the state well formed
/// with respect to the rest of the pending queue, and makes it resident.
pub proof fn lemma_place_new_wf(
    geo: AtlasGeometry,
    entries: Seq<AtlasEntry>,
    pend: Seq<PendingGlyph>,
    slot: int,
)
    requires
        wf_state(geo, entries, pend),
        pend.len() > 0,
        0 <= slot < geo.spec_capacity(),
        !slot_used(entries, slot),
        pend[0].w <= geo.slot_w,
        pend[0].h <= geo.slot_h,
    ensures
        wf_state(geo, entries.push(geo.spec_new_entry(pend[0], slot)), pend.drop_first()),
        has_key(entries.push(geo.spec_new_entry(pend[0], slot)), pend[0].key),
{
    lemma_capacity_bound(geo);
    let e = geo.spec_new_entry(pend[0], slot);
    let r = entries.push(e);
    let q = pend.drop_first();
    assert(e.slot == slot);
    assert(geo.entry_ok(e));
    assert(r[r.len() - 1] == e);
    assert(has_key(r, pend[0].key));
    assert(forall|j: int| 0 <= j < q.len() ==> q[j] == pend[j + 1]);
    assert forall|a: int, b: int|
        0 <= a < r.len() && 0 <= b < r.len() && a != b implies (#[trigger] r[a]).key != (
    #[trigger] r[b]).key && r[a].slot != r[b].slot by {
        if a < r.len() - 1 && b < r.len() - 1 {
            assert(r[a] == entries[a] && r[b] == entries[b]);
        } else if a == r.len() - 1 {
            assert(r[b] == entries[b]);
            assert(pend[0].key != entries[b].key);
            assert(!(entries[b].slot == slot));
        } else {
            assert(r[a] == entries[a]);
            assert(pend[0].key != entries[a].key);
            assert(!(entries[a].slot == slot));
        }
    }
}

/// Evicting the chosen resident and reusing its slot for a pending glyph
/// keeps the state well formed with respect to the rest of the pending
/// queue, and makes the glyph resident.
pub proof fn lemma_place_evict_wf(
    geo: AtlasGeometry,
    entries: Seq<AtlasEntry>,
    pend: Seq<PendingGlyph>,
    v: int,
)
    requires
        wf_state(geo, entries, pend),
        pend.len() > 0,
        0 <= v < entries.len(),
        pend[0].w <= geo.slot_w,
        pend[0].h <= geo.slot_h,
    ensures
        wf_state(
            geo,
            entries.remove(v).push(geo.spec_new_entry(pend[0], entries[v].slot as int)),
            pend.drop_first(),
        ),
        has_key(
            entries.remove(v).push(geo.spec_new_entry(pend[0], entries[v].slot as int)),
            pend[0].key,
        ),
{
    lemma_capacity_bound(geo);
    let slot = entries[v].slot as int;
    let e = geo.spec_new_entry(pend[0], slot);
    assert(e.slot == slot);
    let rm = entries.remove(v);
    let r = rm.push(e);
    let q = pend.drop_first();
    let n = entries.len() as int;
    entries.remove_ensures(v);
    assert(geo.entry_ok(entries[v]));
    assert(geo.entry_ok(e));
    assert(r[r.len() - 1] == e);
    assert(has_key(r, pend[0].key));
    assert(forall|j: int| 0 <= j < q.len() ==> q[j] == pend[j + 1]);
    assert forall|k: int| 0 <= k < n - 1 implies #[trigger] r[k] == entries[
        requeue_source(n, v, k)
    ] && requeue_source(n, v, k) != v by {
        assert(r[k] == rm[k]);
    }
    assert forall|a: int, b: int|
        0 <= a < r.len() && 0 <= b < r.len() && a != b implies (#[trigger] r[a]).key != (
    #[trigger] r[b]).key && r[a].slot != r[b].slot by {
        if a < n - 1 && b < n - 1 {
            assert(r[a] == entries[requeue_source(n, v, a)]);
            assert(r[b] == entries[requeue_source(n, v, b)]);
        } else if a == n - 1 {
            let sb = requeue_source(n, v, b);
            assert(r[b] == entries[sb]);
            assert(pend[0].key != entries[sb].key);
            assert(entries[sb].slot != entries[v].slot);
        } else {
            let sa = requeue_source(n, v, a);
            assert(r[a] == entries[sa]);
            assert(pend[0].key != entries[sa].key);
            assert(entries[sa].slot != entries[v].slot);
        }
    }
    assert forall|a: int, b: int|
        0 <= a < q.len() && 0 <= b < r.len() implies (#[trigger] q[a]).key != (
    #[trigger] r[b]).key by {
        assert(q[a] == pend[a + 1]);
        if b < n - 1 {
            assert(r[b] == entries[requeue_source(n, v, b)]);
        } else {
            assert(r[b] == e);
            assert(pend[a + 1].key != pend[0].key);
        }
    }
}

/// Dropping the head of the pending queue keeps the state well formed.
pub proof fn lemma_drop_pending_wf(
    geo: AtlasGeometry,
    entries: Seq<AtlasEntry>,
    pend: Seq<PendingGlyph>,
)
    requires
        wf_state(geo, entries, pend),
        pend.len() > 0,
    ensures
        wf_state(geo, entries, pend.drop_first()),
{
    let q = pend.drop_first();
    assert(forall|j: int| 0 <= j < q.len() ==> q[j] == pend[j + 1]);
}

/// Clearing the `needed` marks keeps the state well formed: the marks do not
/// figure in well-formedness, and keys, slots and rectangles are unchanged.
pub proof fn lemma_reset_needed_wf(
    geo: AtlasGeometry,
    entries: Seq<AtlasEntry>,
    pending: Seq<PendingGlyph>,
)
    requires
        wf_state(geo, entries, pending),
    ensures
        wf_state(geo, reset_needed(entries), pending),
{
    let r = reset_needed(entries);
    assert(forall|k: int|
        0 <= k < r.len() ==> (#[trigger] r[k]).key == entries[k].key && r[k].slot == entries[k].slot
            && geo.entry_ok(r[k]));
}

/// Two pixel rectangles are disjoint: one lies fully left of, right of,
/// above or below the other.
pub open spec fn rects_disjoint(a: PixelRect, b: PixelRect) -> bool {
    ||| a.x + a.w <= b.x
    ||| b.x + b.w <= a.x
    ||| a.y + a.h <= b.y
    ||| b.y + b.h <= a.y
}

/// Packing writes every glyph into free space: two distinct resident
/// entries occupy distinct slots, and their pixel rectangles are disjoint,
/// so no glyph's bitmap ever overwrites another's.
pub proof fn lemma_resident_rects_disjoint(geo: AtlasGeometry, e1: AtlasEntry, e2: AtlasEntry)
    requires
        geo.wf(),
        geo.entry_ok(e1),
        geo.entry_ok(e2),
        e1.slot != e2.slot,
    ensures
        rects_disjoint(e1.rect, e2.rect),
{
    lemma_capacity_bound(geo);
    let sx = geo.spec_slots_x();
    let sw = geo.slot_w as int;
    let sh = geo.slot_h as int;
    if sx == 0 {
        assert(geo.spec_capacity() == 0) by (nonlinear_arith)
            requires
                geo.spec_slots_x() == 0,
                geo.spec_capacity() == geo.spec_slots_x() * geo.spec_slots_y(),
        ;
    }
    vstd::arithmetic::div_mod::lemma_fundamental_div_mod(e1.slot as int, sx);
    vstd::arithmetic::div_mod::lemma_fundamental_div_mod(e2.slot as int, sx);
    let c1 = e1.slot as int % sx;
    let r1 = e1.slot as int / sx;
    let c2 = e2.slot as int % sx;
    let r2 = e2.slot as int / sx;
    lemma_slot_coordinates_in_range(geo, e1.slot as int);
    lemma_slot_coordinates_in_range(geo, e2.slot as int);
    assert(c1 != c2 || r1 != r2) by (nonlinear_arith)
        requires
            e1.slot as int == sx * r1 + c1,
            e2.slot as int == sx * r2 + c2,
            e1.slot != e2.slot,
    ;
    assert(e1.rect.x == c1 * sw && e2.rect.x == c2 * sw);
    assert(e1.rect.y == r1 * sh && e2.rect.y == r2 * sh);
    if c1 != c2 {
        assert(c1 < c2 ==> c1 * sw + sw <= c2 * sw) by (nonlinear_arith)
            requires
                sw >= 1,
        ;
        assert(c2 < c1 ==> c2 * sw + sw <= c1 * sw) by (nonlinear_arith)
            requires
                sw >= 1,
        ;
    } else {
        assert(r1 < r2 ==> r1 * sh + sh <= r2 * sh) by (nonlinear_arith)
            requires
                sh >= 1,
        ;
        assert(r2 < r1 ==> r2 * sh + sh <= r1 * sh) by (nonlinear_arith)
            requires
                sh >= 1,
        ;
    }
}

/// The column and row of a slot lie in the slot grid, and their pixel
/// origins fit the atlas.
proof fn lemma_slot_coordinates_in_range(geo: AtlasGeometry, slot: int)
    requires
        geo.wf(),
        0 <= slot < geo.spec_capacity(),
        geo.spec_slots_x() >= 1,
    ensures
        0 <= slot % geo.spec_slots_x() < geo.spec_slots_x(),
        0 <= slot / geo.spec_slots_x() < geo.spec_slots_y(),
        (slot % geo.spec_slots_x()) * geo.slot_w + geo.slot_w <= geo.width,
        (slot / geo.spec_slots_x()) * geo.slot_h + geo.slot_h <= geo.height,
{
    let sx = geo.spec_slots_x();
    let sy = geo.spec_slots_y();
    let sw = geo.slot_w as int;
    let sh = geo.slot_h as int;
    vstd::arithmetic::div_mod::lemma_fundamental_div_mod(geo.width as int, sw);
    vstd::arithmetic::div_mod::lemma_fundamental_div_mod(geo.height as int, sh);
    assert(sx * sw <= geo.width && sy * sh <= geo.height) by (nonlinear_arith)
        requires
            geo.width == sw * sx + geo.width as int % sw,
            geo.height == sh * sy + geo.height as int % sh,
            geo.width as int % sw >= 0,
            geo.height as int % sh >= 0,
    ;
    assert(slot / sx < sy) by {
        vstd::arithmetic::div_mod::lemma_multiply_divide_lt(slot, sx, sy);
    }
    assert((slot % sx) * sw + sw <= sx * sw) by (nonlinear_arith)
        requires
            0 <= slot % sx < sx,
            sw >= 1,
    ;
    assert((slot / sx) * sh + sh <= sy * sh) by (nonlinear_arith)
        requires
            0 <= slot / sx < sy,
            sh >= 1,
    ;
}

/// Queuing the same glyph again within one frame changes nothing: the first
/// call left the glyph resident-and-refreshed or pending, and the second
/// call sees exactly that and leaves the state as it is.  Together with
/// `lemma_one_entry_per_glyph` this gives idempotence: however many times a
/// glyph is queued in a frame, the pack that follows packs it once.
pub proof fn lemma_queue_idempotent(
    geo: AtlasGeometry,
    entries: Seq<AtlasEntry>,
    pending: Seq<PendingGlyph>,
    key: GlyphKey,
    w: u32,
    h: u32,
)
    requires
        wf_state(geo, entries, pending),
    ensures
        ({
            let e1 = spec_queue_entries(entries, key);
            let p1 = spec_queue_pending(entries, pending, key, w, h);
            &&& spec_queue_entries(e1, key) == e1
            &&& spec_queue_pending(e1, p1, key, w, h) == p1
        }),
{
    let e1 = spec_queue_entries(entries, key);
    let p1 = spec_queue_pending(entries, pending, key, w, h);
    if has_key(entries, key) {
        let k = key_index(entries, key);
        assert(0 <= k < entries.len() && entries[k].key == key);
        lemma_requeue_preserves_wf(geo, entries, pending, k);
        entries.remove_ensures(k);
        let n = entries.len() as int;
        assert(e1[n - 1] == AtlasEntry { needed: true, ..entries[k] });
        assert(has_key(e1, key));
        let j = key_index(e1, key);
        assert(0 <= j < e1.len() && e1[j].key == key);
        assert(j == n - 1);
        assert(spec_requeue(e1, n - 1) =~= e1) by {
            e1.remove_ensures(n - 1);
            assert(AtlasEntry { needed: true, ..e1[n - 1] } == e1[n - 1]);
        }
    } else if pending_has_key(pending, key) {
        assert(e1 == entries && p1 == pending);
    } else {
        assert(e1 == entries);
        assert(p1[p1.len() - 1].key == key);
        assert(pending_has_key(p1, key));
    }
}

/// A glyph is resident at most once: two entries with the same key are the
/// same entry.  However often a glyph was queued, the atlas holds one packed
/// entry for it.
pub proof fn lemma_one_entry_per_glyph(
    geo: AtlasGeometry,
    entries: Seq<AtlasEntry>,
    pending: Seq<PendingGlyph>,
    key: GlyphKey,
    i: int,
    j: int,
)
    requires
        wf_state(geo, entries, pending),
        0 <= i < entries.len(),
        0 <= j < entries.len(),
        entries[i].key == key,
        entries[j].key == key,
    ensures
        i == j,
{
}

/// The index in `entries` that position `k` of `spec_requeue(entries, i)`
/// came from: the move to the back shifts the later entries left and puts
/// the re-queued entry last.
pub open spec fn requeue_source(n: int, i: int, k: int) -> int {
    if k < i {
        k
    } else if k < n - 1 {
        k + 1
    } else {
        i
    }
}

/// Moving a resident entry to the back of the recency order keeps the state
/// well formed: the entries are the same entries, reordered, with one
/// `needed` mark set.
pub proof fn lemma_requeue_preserves_wf(
    geo: AtlasGeometry,
    entries: Seq<AtlasEntry>,
    pending: Seq<PendingGlyph>,
    i: int,
)
    requires
        wf_state(geo, entries, pending),
        0 <= i < entries.len(),
    ensures
        wf_state(geo, spec_requeue(entries, i), pending),
{
    let r = spec_requeue(entries, i);
    let n = entries.len() as int;
    entries.remove_ensures(i);
    assert(r.len() == n);
    assert forall|k: int| 0 <= k < n implies {
        let s = requeue_source(n, i, k);
        &&& 0 <= s < n
        &&& (#[trigger] r[k]).key == entries[s].key
        &&& r[k].slot == entries[s].slot
        &&& geo.entry_ok(r[k])
    } by {
        let s = requeue_source(n, i, k);
        if k < n - 1 {
            assert(r[k] == entries.remove(i)[k]);
            assert(r[k] == entries[s]);
        } else {
            assert(r[k] == AtlasEntry { needed: true, ..entries[i] });
        }
        assert(geo.entry_ok(entries[s]));
    }
    assert forall|a: int, b: int|
        0 <= a < n && 0 <= b < n && a != b implies (#[trigger] r[a]).key != (#[trigger] r[b]).key
            && r[a].slot != r[b].slot by {
        let sa = requeue_source(n, i, a);
        let sb = requeue_source(n, i, b);
        assert(sa != sb);
        assert(r[a].key == entries[sa].key && r[b].key == entries[sb].key);
        assert(r[a].slot == entries[sa].slot && r[b].slot == entries[sb].slot);
    }
    assert forall|a: int, b: int|
        0 <= a < pending.len() && 0 <= b < n implies (#[trigger] pending[a]).key != (
        #[trigger] r[b]).key by {
        let sb = requeue_source(n, i, b);
        assert(r[b].key == entries[sb].key);
    }
}

} // verus!
