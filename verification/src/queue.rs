//! The double-buffered BFS queue and the closed-form worst-case bound on
//! how many sections one traversal ring can hold.

use vstd::prelude::*;
use crate::local::LocalSectionCoord;

verus! {

/// The worst-case number of sections in a single BFS ring, for a view
/// distance `r` and a world height `w` (both in sections): the largest
/// count of sections at one traversal distance from the camera, clipped by
/// the world height, and halved under frustum culling since at most half
/// the world can be seen at once with a field of view of 180 degrees or
/// less.
pub open spec fn bfs_queue_bound(r: int, w: int, frustum: bool) -> int {
    let h = (w + 1) / 2 - 1;
    let raw = if h >= r {
        4 * r * r + 2
    } else {
        4 * r + 4 * h * (2 * r - h - 1)
    };
    if frustum {
        (raw + 1) / 2
    } else {
        raw
    }
}

/// Computes, in closed form, the maximum number of sections that can ever
/// be live in one BFS ring for the given view distance and world height:
/// a ring-expansion sum over traversal layers, clipped by the world-height
/// limit, and halved when frustum culling is in effect.
pub fn get_bfs_queue_max_size(section_render_distance: u8, world_height: u8, frustum: bool) -> (r:
    u32)
    requires
        1 <= section_render_distance <= 127,
        1 <= world_height <= 254,
    ensures
        r as int == bfs_queue_bound(section_render_distance as int, world_height as int, frustum),
{
    // for the worst case, assume the camera sits at the center of the view
    // distance and of the world height; traversal lengths do not count the
    // camera's own section.
    let max_height_traversal: u32 = (world_height as u32 + 1) / 2 - 1;
    let max_width_traversal: u32 = section_render_distance as u32;

    // the 2 accounts for the sections directly above and below the camera
    let mut count: u32 = 2;
    let mut layer_index: u32 = 1;

    // if traversal up and down is cut short by the world height, drop the
    // out-of-bounds layers from the sum
    if max_height_traversal < max_width_traversal {
        count = 0;
        layer_index = max_width_traversal - max_height_traversal;
    }
    // closed form of summing 8 * layer_index for each layer that appears on
    // both the top and the bottom of the expansion
    let spread: u32 = max_width_traversal - layer_index;
    let reach: u32 = max_width_traversal + layer_index - 1;
    proof {
        assert(spread * reach <= 127 * 253) by (nonlinear_arith)
            requires
                spread <= 127,
                reach <= 253,
        ;
    }
    let ring_sum: u32 = spread * reach;
    count = count + 4 * ring_sum;

    // the final, outer-most ring
    count = count + max_width_traversal * 4;

    if frustum {
        // the camera can never see more than half the world at once with a
        // field of view of at most 180 degrees
        count = (count + 1) / 2;
    }
    proof {
        let r = section_render_distance as int;
        let h = (world_height as int + 1) / 2 - 1;
        if h >= r {
            assert(2 + 4 * ((r - 1) * r) + 4 * r == 4 * r * r + 2) by (nonlinear_arith);
        } else {
            assert(4 * (h * (2 * r - h - 1)) == 4 * h * (2 * r - h - 1)) by (nonlinear_arith);
        }
    }
    count
}

/// One buffer of the level-synchronous BFS: a first-in first-out queue of
/// section coordinates, drained from the front while the next ring is
/// written to the other buffer.
pub struct BfsQueue {
    items: Vec<LocalSectionCoord>,
    head: usize,
}

impl View for BfsQueue {
    type V = Seq<LocalSectionCoord>;

    closed spec fn view(&self) -> Seq<LocalSectionCoord> {
        self.items@.skip(self.head as int)
    }
}

impl BfsQueue {
    /// A queue is sane when its read cursor has not run past its storage.
    pub closed spec fn wf(&self) -> bool {
        self.head <= self.items@.len()
    }

    /// An empty queue.
    pub fn new() -> (r: BfsQueue)
        ensures
            r.wf(),
            r@.len() == 0,
    {
        BfsQueue { items: Vec::new(), head: 0 }
    }

    /// Appends one entry at the back.
    pub fn push(&mut self, value: LocalSectionCoord)
        requires
            old(self).wf(),
        ensures
            final(self).wf(),
            final(self)@ == old(self)@.push(value),
    {
        self.items.push(value);
        proof {
            assert(final(self)@ =~= old(self)@.push(value));
        }
    }

    /// Removes and returns the front entry, or `None` when the queue is
    /// drained.
    pub fn pop(&mut self) -> (r: Option<LocalSectionCoord>)
        requires
            old(self).wf(),
        ensures
            final(self).wf(),
            old(self)@.len() == 0 ==> r is None && final(self)@ == old(self)@,
            old(self)@.len() > 0 ==> r == Some(old(self)@[0]) && final(self)@ == old(
                self,
            )@.drop_first(),
    {
        if self.head < self.items.len() {
            let c = self.items[self.head];
            self.head = self.head + 1;
            proof {
                assert(final(self)@ =~= old(self)@.drop_first());
            }
            Some(c)
        } else {
            None
        }
    }

    /// True when no entries remain to pop.
    pub fn is_empty(&self) -> (r: bool)
        requires
            self.wf(),
        ensures
            r == (self@.len() == 0),
    {
        self.head == self.items.len()
    }

    /// The number of entries still queued.
    pub fn len(&self) -> (r: usize)
        requires
            self.wf(),
        ensures
            r == self@.len(),
    {
        self.items.len() - self.head
    }

    /// Discards all entries and rewinds the cursor, keeping the storage for
    /// the next round.
    pub fn reset(&mut self)
        ensures
            final(self).wf(),
            final(self)@.len() == 0,
    {
        self.items.clear();
        self.head = 0;
    }
}

} // verus!
