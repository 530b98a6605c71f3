//! Draw regions: groups of 8x4x8 sections batched together for one draw
//! submission, with each visible section addressed by a packed in-region
//! index.

use vstd::prelude::*;
use crate::local::LocalSectionCoord;
use crate::SECTIONS_IN_REGION;

verus! {

/// The packed position a section occupies inside its 8x4x8 region:
/// `(x mod 8) * 32 + (y mod 4) * 8 + (z mod 8)`.
pub open spec fn region_section_code(x: int, y: int, z: int) -> int {
    (x % 8) * 32 + (y % 4) * 8 + (z % 8)
}

/// The position of one section within its draw region, packed into a
/// byte: three bits of x, two bits of y, three bits of z.
#[derive(Clone, Copy, PartialEq, Eq, Structural, Debug)]
pub struct RegionSectionIndex {
    packed: u8,
}

impl View for RegionSectionIndex {
    type V = u8;

    closed spec fn view(&self) -> u8 {
        self.packed
    }
}

impl RegionSectionIndex {
    /// Packs the low bits of a section coordinate into its in-region
    /// index.
    pub fn from_local(local_section_coord: LocalSectionCoord) -> (r: RegionSectionIndex)
        ensures
            r@ as int == region_section_code(
                local_section_coord.x as int,
                local_section_coord.y as int,
                local_section_coord.z as int,
            ),
    {
        let x = local_section_coord.x;
        let y = local_section_coord.y;
        let z = local_section_coord.z;
        let p = ((x & 0b111) << 5) | ((y & 0b11) << 3) | (z & 0b111);
        proof {
            assert(p == (x % 8) * 32 + (y % 4) * 8 + (z % 8)) by (bit_vector)
                requires
                    p == ((x & 0b111) << 5) | ((y & 0b11) << 3) | (z & 0b111),
            ;
            assert((x % 8) as int == x as int % 8);
            assert((y % 4) as int == y as int % 4);
            assert((z % 8) as int == z as int % 8);
        }
        RegionSectionIndex { packed: p }
    }

    /// The packed byte value.
    pub fn packed_value(&self) -> (r: u8)
        ensures
            r == self@,
    {
        self.packed
    }
}

/// Up to one region's worth of visible sections, keyed by the region
/// coordinate, ready for batched draw submission.
pub struct RegionDrawBatch {
    /// The coordinate of the region the batch draws from.
    pub region_coord: (i32, i32, i32),
    /// The packed in-region indices of the collected sections.
    pub sections: Vec<RegionSectionIndex>,
}

impl RegionDrawBatch {
    /// The packed in-region indices collected so far.
    pub closed spec fn sections_seq(&self) -> Seq<RegionSectionIndex> {
        self.sections@
    }

    /// An empty batch for the given region coordinate.
    pub fn new(region_coord: (i32, i32, i32)) -> (r: RegionDrawBatch)
        ensures
            r.region_coord == region_coord,
            r.sections_seq().len() == 0,
    {
        RegionDrawBatch { region_coord, sections: Vec::new() }
    }

    /// Appends one section to the batch.
    pub fn push_section(&mut self, s: RegionSectionIndex)
        requires
            old(self).sections_seq().len() < SECTIONS_IN_REGION,
        ensures
            final(self).region_coord == old(self).region_coord,
            final(self).sections_seq() == old(self).sections_seq().push(s),
    {
        self.sections.push(s);
    }

    /// True when the batch holds no sections.
    pub fn is_empty(&self) -> (r: bool)
        ensures
            r == (self.sections_seq().len() == 0),
    {
        self.sections.len() == 0
    }

    /// The number of sections in the batch.
    pub fn section_count(&self) -> (r: usize)
        ensures
            r == self.sections_seq().len(),
    {
        self.sections.len()
    }

    /// Reads one collected section index.
    pub fn section_at(&self, i: usize) -> (r: RegionSectionIndex)
        requires
            i < self.sections_seq().len(),
        ensures
            r == self.sections_seq()[i as int],
    {
        self.sections[i]
    }
}

} // verus!
