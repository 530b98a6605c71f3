//! One bit per section over the full 256x256x256 grid, with rectangular
//! block copies used by the hierarchical bounds pass.

use vstd::prelude::*;
use crate::local::{section_offset, valid_coords};
use crate::SECTIONS_IN_GRAPH;

verus! {

/// True when `(x, y, z)` lies in the half-open box
/// `[x0, x1) x [y0, y1) x [z0, z1)`.
pub open spec fn in_box(
    x0: int,
    x1: int,
    y0: int,
    y1: int,
    z0: int,
    z1: int,
    x: int,
    y: int,
    z: int,
) -> bool {
    x0 <= x < x1 && y0 <= y < y1 && z0 <= z < z1
}

/// A dense bitset holding one flag per section of the grid.
pub struct SectionBitGrid {
    bits: Vec<bool>,
}

impl View for SectionBitGrid {
    type V = Seq<bool>;

    closed spec fn view(&self) -> Seq<bool> {
        self.bits@
    }
}

impl SectionBitGrid {
    /// A grid with every flag cleared.
    pub fn new() -> (r: SectionBitGrid)
        ensures
            r@.len() == SECTIONS_IN_GRAPH,
            forall|o: int| 0 <= o < SECTIONS_IN_GRAPH ==> r@[o] == false,
    {
        let mut bits: Vec<bool> = Vec::new();
        let mut i: usize = 0;
        while i < SECTIONS_IN_GRAPH
            invariant
                i <= SECTIONS_IN_GRAPH,
                bits@.len() == i,
                forall|o: int| 0 <= o < i ==> bits@[o] == false,
            decreases SECTIONS_IN_GRAPH - i,
        {
            bits.push(false);
            i = i + 1;
        }
        SectionBitGrid { bits }
    }

    /// Reads the flag at a flattened offset.
    pub fn get(&self, o: usize) -> (b: bool)
        requires
            o < self@.len(),
        ensures
            b == self@[o as int],
    {
        self.bits[o]
    }

    /// Writes the flag at a flattened offset.
    pub fn set(&mut self, o: usize, b: bool)
        requires
            o < old(self)@.len(),
        ensures
            final(self)@ == old(self)@.update(o as int, b),
    {
        self.bits[o] = b;
    }

    /// Clears every flag.
    pub fn clear(&mut self)
        ensures
            final(self)@.len() == old(self)@.len(),
            forall|o: int| 0 <= o < final(self)@.len() ==> final(self)@[o] == false,
    {
        let n = self.bits.len();
        let mut i: usize = 0;
        while i < n
            invariant
                i <= n,
                self@.len() == n,
                forall|o: int| 0 <= o < i ==> self@[o] == false,
            decreases n - i,
        {
            self.bits[i] = false;
            i = i + 1;
        }
    }

    /// Copies, for one x and one y, the run of flags with z in `[z0, z1)`
    /// from `other`.
    fn copy_z_run_from(&mut self, other: &SectionBitGrid, x: usize, y: usize, z0: usize, z1: usize)
        requires
            old(self)@.len() == SECTIONS_IN_GRAPH,
            other@.len() == SECTIONS_IN_GRAPH,
            x < 256,
            y < 256,
            z0 <= z1 <= 256,
        ensures
            final(self)@.len() == SECTIONS_IN_GRAPH,
            forall|cx: int, cy: int, cz: int|
                valid_coords(cx, cy, cz) ==> final(self)@[#[trigger] section_offset(cx, cy, cz)]
                    == (if cx == x && cy == y && z0 <= cz < z1 {
                    other@[section_offset(cx, cy, cz)]
                } else {
                    old(self)@[section_offset(cx, cy, cz)]
                }),
    {
        let base: usize = x * 0x10000 + y * 0x100;
        let mut z: usize = z0;
        while z < z1
            invariant
                z0 <= z <= z1,
                self@.len() == SECTIONS_IN_GRAPH,
                base == x as int * 0x10000 + y as int * 0x100,
                forall|cx: int, cy: int, cz: int|
                    valid_coords(cx, cy, cz) ==> self@[#[trigger] section_offset(cx, cy, cz)]
                        == (if cx == x && cy == y && z0 <= cz < z {
                        other@[section_offset(cx, cy, cz)]
                    } else {
                        old(self)@[section_offset(cx, cy, cz)]
                    }),
            decreases z1 - z,
        {
            let o = base + z;
            assert(o == section_offset(x as int, y as int, z as int));
            let b = other.get(o);
            self.set(o, b);
            proof {
                assert forall|cx: int, cy: int, cz: int|
                    valid_coords(cx, cy, cz) && section_offset(cx, cy, cz) == o as int implies cx
                    == x && cy == y && cz == z by {
                    crate::local::lemma_offset_injective(cx, cy, cz, x as int, y as int, z as int);
                }
            }
            z = z + 1;
        }
    }

    /// Copies, for one x, the plane of flags with y in `[y0, y1)` and z in
    /// `[z0, z1)` from `other`.
    fn copy_plane_from(
        &mut self,
        other: &SectionBitGrid,
        x: usize,
        y0: usize,
        y1: usize,
        z0: usize,
        z1: usize,
    )
        requires
            old(self)@.len() == SECTIONS_IN_GRAPH,
            other@.len() == SECTIONS_IN_GRAPH,
            x < 256,
            y0 <= y1 <= 256,
            z0 <= z1 <= 256,
        ensures
            final(self)@.len() == SECTIONS_IN_GRAPH,
            forall|cx: int, cy: int, cz: int|
                valid_coords(cx, cy, cz) ==> final(self)@[#[trigger] section_offset(cx, cy, cz)]
                    == (if cx == x && y0 <= cy < y1 && z0 <= cz < z1 {
                    other@[section_offset(cx, cy, cz)]
                } else {
                    old(self)@[section_offset(cx, cy, cz)]
                }),
    {
        let mut y: usize = y0;
        while y < y1
            invariant
                y0 <= y <= y1,
                self@.len() == SECTIONS_IN_GRAPH,
                forall|cx: int, cy: int, cz: int|
                    valid_coords(cx, cy, cz) ==> self@[#[trigger] section_offset(cx, cy, cz)]
                        == (if cx == x && y0 <= cy < y && z0 <= cz < z1 {
                        other@[section_offset(cx, cy, cz)]
                    } else {
                        old(self)@[section_offset(cx, cy, cz)]
                    }),
            decreases y1 - y,
        {
            self.copy_z_run_from(other, x, y, z0, z1);
            y = y + 1;
        }
    }

    /// Copies the whole box of flags with x in `[x0, x1)`, y in `[y0, y1)`
    /// and z in `[z0, z1)` from `other`, leaving every other flag as it
    /// was.
    pub fn copy_box_from(
        &mut self,
        other: &SectionBitGrid,
        x0: usize,
        x1: usize,
        y0: usize,
        y1: usize,
        z0: usize,
        z1: usize,
    )
        requires
            old(self)@.len() == SECTIONS_IN_GRAPH,
            other@.len() == SECTIONS_IN_GRAPH,
            x0 <= x1 <= 256,
            y0 <= y1 <= 256,
            z0 <= z1 <= 256,
        ensures
            final(self)@.len() == SECTIONS_IN_GRAPH,
            forall|cx: int, cy: int, cz: int|
                valid_coords(cx, cy, cz) ==> final(self)@[#[trigger] section_offset(cx, cy, cz)]
                    == (if in_box(x0 as int, x1 as int, y0 as int, y1 as int, z0 as int, z1 as int,
                    cx, cy, cz) {
                    other@[section_offset(cx, cy, cz)]
                } else {
                    old(self)@[section_offset(cx, cy, cz)]
                }),
    {
        let mut x: usize = x0;
        while x < x1
            invariant
                x0 <= x <= x1,
                self@.len() == SECTIONS_IN_GRAPH,
                forall|cx: int, cy: int, cz: int|
                    valid_coords(cx, cy, cz) ==> self@[#[trigger] section_offset(cx, cy, cz)]
                        == (if x0 <= cx < x && y0 <= cy < y1 && z0 <= cz < z1 {
                        other@[section_offset(cx, cy, cz)]
                    } else {
                        old(self)@[section_offset(cx, cy, cz)]
                    }),
            decreases x1 - x,
        {
            self.copy_plane_from(other, x, y0, y1, z0, z1);
            x = x + 1;
        }
    }
}

} // verus!
