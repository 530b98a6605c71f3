//! The visibility-computation engine: per-section state, the hierarchical
//! frustum-and-fog pass, and the level-synchronous BFS occlusion pass.

use vstd::prelude::*;
use vstd::set_lib::lemma_int_range;
use crate::bitgrid::SectionBitGrid;
use crate::direction::{all_dirs_bits, set_has, GraphDirection, GraphDirectionSet};
use crate::local::{
    delta_x, delta_y, delta_z, neighbor, offset_of, section_offset, valid_coords,
    BoundsCheckResult, LocalCoordContext, LocalNodeIndex, LocalSectionCoord, node_side,
    node_side_of,
};
use crate::queue::BfsQueue;
use crate::region::{RegionDrawBatch, RegionSectionIndex};
use crate::visibility::{outgoing_has, VisibilityData};
use crate::{SECTIONS_IN_GRAPH, SECTIONS_IN_REGION};

verus! {

/// The grid offset of the section with packed in-region code `s` inside
/// the region at `(rx, ry, rz)`.
pub open spec fn region_section_offset(rx: int, ry: int, rz: int, s: int) -> int {
    section_offset(rx * 8 + s / 32, ry * 4 + (s % 32) / 8, rz * 8 + s % 8)
}

/// A linear key that orders regions by x, then y, then z.
pub open spec fn region_key(b: RegionDrawBatch) -> int {
    b.region_coord.0 * 2048 + b.region_coord.1 * 32 + b.region_coord.2
}

/// The batch lies in the grid and lists, in strictly ascending packed
/// order, exactly the visible sections of its region.
pub open spec fn batch_matches_region(visible: Seq<bool>, batch: RegionDrawBatch) -> bool {
    let rx = batch.region_coord.0 as int;
    let ry = batch.region_coord.1 as int;
    let rz = batch.region_coord.2 as int;
    &&& 0 <= rx < 32 && 0 <= ry < 64 && 0 <= rz < 32
    &&& batch.sections_seq().len() <= SECTIONS_IN_REGION
    &&& forall|i: int, j: int|
        0 <= i < j < batch.sections_seq().len() ==> (batch.sections_seq()[i])@ < (
        batch.sections_seq()[j])@
    &&& forall|sp: int|
        0 <= sp < 256 ==> ((exists|i: int|
            0 <= i < batch.sections_seq().len() && (#[trigger] batch.sections_seq()[i])@ == sp)
            <==> visible[#[trigger] region_section_offset(rx, ry, rz, sp)])
}

/// One BFS step out of section `(x, y, z)` in the direction with index
/// `d`: the step must land inside the view volume, and the section's
/// portal matrix must let flow out through face `d` from some other face.
/// The matrix is consulted with every face open, so this is the loosest
/// step the traversal could ever take out of that section.
pub open spec fn bfs_step(
    ctx: LocalCoordContext,
    vis: Seq<VisibilityData>,
    x: int,
    y: int,
    z: int,
    d: int,
) -> bool {
    &&& 0 <= d < 6
    &&& valid_coords(x, y, z)
    &&& ctx.in_view(x + delta_x(d), y + delta_y(d), z + delta_z(d))
    &&& outgoing_has(vis[section_offset(x, y, z)]@, all_dirs_bits(), d)
}

/// The sections the BFS can reach from the camera in at most `n` steps.
pub open spec fn reach_within(
    ctx: LocalCoordContext,
    vis: Seq<VisibilityData>,
    n: nat,
    x: int,
    y: int,
    z: int,
) -> bool
    decreases n,
{
    if n == 0 {
        x == ctx.camera_section.x as int && y == ctx.camera_section.y as int && z
            == ctx.camera_section.z as int
    } else {
        reach_within(ctx, vis, (n - 1) as nat, x, y, z) || exists|px: int, py: int, pz: int, d: int|
            #[trigger] bfs_step(ctx, vis, px, py, pz, d) && reach_within(
                ctx,
                vis,
                (n - 1) as nat,
                px,
                py,
                pz,
            ) && x == px + delta_x(d) && y == py + delta_y(d) && z == pz + delta_z(d)
    }
}

/// The sections the BFS can ever reach from the camera: the camera's own
/// section, plus everything connected to it by a chain of valid steps.
pub open spec fn bfs_reachable(
    ctx: LocalCoordContext,
    vis: Seq<VisibilityData>,
    x: int,
    y: int,
    z: int,
) -> bool {
    exists|n: nat| reach_within(ctx, vis, n, x, y, z)
}

/// The camera's own section is always reachable.
pub proof fn lemma_camera_reachable(ctx: LocalCoordContext, vis: Seq<VisibilityData>)
    ensures
        bfs_reachable(
            ctx,
            vis,
            ctx.camera_section.x as int,
            ctx.camera_section.y as int,
            ctx.camera_section.z as int,
        ),
{
    assert(reach_within(
        ctx,
        vis,
        0,
        ctx.camera_section.x as int,
        ctx.camera_section.y as int,
        ctx.camera_section.z as int,
    ));
}

/// Taking one valid step from a reachable section reaches its neighbor.
pub proof fn lemma_reachable_step(
    ctx: LocalCoordContext,
    vis: Seq<VisibilityData>,
    px: int,
    py: int,
    pz: int,
    d: int,
)
    requires
        bfs_reachable(ctx, vis, px, py, pz),
        bfs_step(ctx, vis, px, py, pz, d),
    ensures
        bfs_reachable(ctx, vis, px + delta_x(d), py + delta_y(d), pz + delta_z(d)),
{
    let n = choose|n: nat| reach_within(ctx, vis, n, px, py, pz);
    assert(reach_within(ctx, vis, n + 1, px + delta_x(d), py + delta_y(d), pz + delta_z(d)));
}

/// Every section reachable in at most `n` steps from a camera whose own
/// matrix blocks all egress is the camera section itself.
proof fn lemma_blocked_camera_reach_within(
    ctx: LocalCoordContext,
    vis: Seq<VisibilityData>,
    n: nat,
    x: int,
    y: int,
    z: int,
)
    requires
        forall|d: int|
            !outgoing_has(
                vis[section_offset(
                    ctx.camera_section.x as int,
                    ctx.camera_section.y as int,
                    ctx.camera_section.z as int,
                )]@,
                all_dirs_bits(),
                d,
            ),
        reach_within(ctx, vis, n, x, y, z),
    ensures
        x == ctx.camera_section.x as int,
        y == ctx.camera_section.y as int,
        z == ctx.camera_section.z as int,
    decreases n,
{
    if n > 0 {
        if reach_within(ctx, vis, (n - 1) as nat, x, y, z) {
            lemma_blocked_camera_reach_within(ctx, vis, (n - 1) as nat, x, y, z);
        } else {
            let (px, py, pz, d): (int, int, int, int) = choose|px: int, py: int, pz: int, d: int|
                #[trigger] bfs_step(ctx, vis, px, py, pz, d) && reach_within(
                    ctx,
                    vis,
                    (n - 1) as nat,
                    px,
                    py,
                    pz,
                ) && x == px + delta_x(d) && y == py + delta_y(d) && z == pz + delta_z(d);
            lemma_blocked_camera_reach_within(ctx, vis, (n - 1) as nat, px, py, pz);
            assert(!outgoing_has(vis[section_offset(px, py, pz)]@, all_dirs_bits(), d));
            assert(false);
        }
    }
}

/// Law: a camera section whose portal matrix blocks every egress confines
/// the traversal to itself: whatever the neighbors hold, the only
/// reachable section is the camera's own.
pub proof fn lemma_blocked_camera_confines_reachability(
    ctx: LocalCoordContext,
    vis: Seq<VisibilityData>,
    x: int,
    y: int,
    z: int,
)
    requires
        forall|d: int|
            !outgoing_has(
                vis[section_offset(
                    ctx.camera_section.x as int,
                    ctx.camera_section.y as int,
                    ctx.camera_section.z as int,
                )]@,
                all_dirs_bits(),
                d,
            ),
        bfs_reachable(ctx, vis, x, y, z),
    ensures
        x == ctx.camera_section.x as int,
        y == ctx.camera_section.y as int,
        z == ctx.camera_section.z as int,
{
    let n = choose|n: nat| reach_within(ctx, vis, n, x, y, z);
    lemma_blocked_camera_reach_within(ctx, vis, n, x, y, z);
}

/// The transient per-cull scratch table: for every section, the set of
/// directions through which the traversal has arrived at it during the
/// current pass. Reset to all-empty between passes.
pub struct BfsCachedState {
    incoming_directions: Vec<GraphDirectionSet>,
}

impl View for BfsCachedState {
    type V = Seq<GraphDirectionSet>;

    closed spec fn view(&self) -> Seq<GraphDirectionSet> {
        self.incoming_directions@
    }
}

impl BfsCachedState {
    /// A scratch table with every entry empty.
    pub fn new() -> (r: BfsCachedState)
        ensures
            r@.len() == SECTIONS_IN_GRAPH,
            forall|o: int| 0 <= o < SECTIONS_IN_GRAPH ==> (#[trigger] r@[o])@ == 0,
    {
        let mut v: Vec<GraphDirectionSet> = Vec::new();
        let mut i: usize = 0;
        while i < SECTIONS_IN_GRAPH
            invariant
                i <= SECTIONS_IN_GRAPH,
                v@.len() == i,
                forall|o: int| 0 <= o < i ==> (#[trigger] v@[o])@ == 0,
            decreases SECTIONS_IN_GRAPH - i,
        {
            v.push(GraphDirectionSet::none());
            i = i + 1;
        }
        BfsCachedState { incoming_directions: v }
    }

    /// Reads one entry.
    pub fn get(&self, o: usize) -> (r: GraphDirectionSet)
        requires
            o < self@.len(),
        ensures
            r == self@[o as int],
    {
        self.incoming_directions[o]
    }

    /// Replaces one entry.
    pub fn set(&mut self, o: usize, s: GraphDirectionSet)
        requires
            o < old(self)@.len(),
        ensures
            final(self)@ == old(self)@.update(o as int, s),
    {
        self.incoming_directions[o] = s;
    }

    /// Empties every entry, ready for the next pass.
    pub fn reset(&mut self)
        ensures
            final(self)@.len() == old(self)@.len(),
            forall|o: int| 0 <= o < final(self)@.len() ==> (#[trigger] final(self)@[o])@ == 0,
    {
        let n = self.incoming_directions.len();
        let mut i: usize = 0;
        while i < n
            invariant
                i <= n,
                self@.len() == n,
                forall|o: int| 0 <= o < i ==> (#[trigger] self@[o])@ == 0,
            decreases n - i,
        {
            self.incoming_directions[i] = GraphDirectionSet::none();
            i = i + 1;
        }
    }
}

/// The per-world visibility graph: geometry presence, the current visible
/// set, and the portal matrix of every section of the 256x256x256 grid,
/// plus the transient BFS scratch state.
pub struct Graph {
    section_has_geometry_bits: SectionBitGrid,
    section_is_visible_bits: SectionBitGrid,
    section_visibility_bit_sets: Vec<VisibilityData>,
    bfs_cached_state: BfsCachedState,
    bfs_rounds: usize,
    bfs_peak_queue_len: usize,
}

impl Graph {
    /// The geometry-presence bit of every section.
    pub closed spec fn geometry(&self) -> Seq<bool> {
        self.section_has_geometry_bits@
    }

    /// The visible bit of every section, as computed by the latest cull.
    pub closed spec fn visible(&self) -> Seq<bool> {
        self.section_is_visible_bits@
    }

    /// The stored portal matrix of every section.
    pub closed spec fn visibility(&self) -> Seq<VisibilityData> {
        self.section_visibility_bit_sets@
    }

    /// The BFS scratch table.
    pub closed spec fn scratch(&self) -> Seq<GraphDirectionSet> {
        self.bfs_cached_state@
    }

    /// A well-formed graph: all four per-section tables span the whole
    /// grid, and the scratch table rests empty between culls.
    pub open spec fn wf(&self) -> bool {
        &&& self.geometry().len() == SECTIONS_IN_GRAPH
        &&& self.visible().len() == SECTIONS_IN_GRAPH
        &&& self.visibility().len() == SECTIONS_IN_GRAPH
        &&& self.scratch().len() == SECTIONS_IN_GRAPH
        &&& forall|o: int| 0 <= o < SECTIONS_IN_GRAPH ==> (#[trigger] self.scratch()[o])@ == 0
    }

    /// A fresh graph: no geometry, nothing visible, no connectivity.
    pub fn new() -> (r: Graph)
        ensures
            r.wf(),
            forall|o: int| 0 <= o < SECTIONS_IN_GRAPH ==> r.geometry()[o] == false,
            forall|o: int| 0 <= o < SECTIONS_IN_GRAPH ==> r.visible()[o] == false,
            forall|o: int| 0 <= o < SECTIONS_IN_GRAPH ==> (#[trigger] r.visibility()[o])@ == 0,
    {
        let mut vis: Vec<VisibilityData> = Vec::new();
        let mut i: usize = 0;
        while i < SECTIONS_IN_GRAPH
            invariant
                i <= SECTIONS_IN_GRAPH,
                vis@.len() == i,
                forall|o: int| 0 <= o < i ==> (#[trigger] vis@[o])@ == 0,
            decreases SECTIONS_IN_GRAPH - i,
        {
            vis.push(VisibilityData::empty());
            i = i + 1;
        }
        Graph {
            section_has_geometry_bits: SectionBitGrid::new(),
            section_is_visible_bits: SectionBitGrid::new(),
            section_visibility_bit_sets: vis,
            bfs_cached_state: BfsCachedState::new(),
            bfs_rounds: 0,
            bfs_peak_queue_len: 0,
        }
    }

    /// Idempotent upsert: sets the geometry-presence bit and replaces the
    /// stored portal matrix of the section at `section_coord`.
    pub fn add_section(
        &mut self,
        section_coord: LocalSectionCoord,
        has_geometry: bool,
        visibility_data: VisibilityData,
    )
        requires
            old(self).wf(),
        ensures
            final(self).wf(),
            final(self).geometry() == old(self).geometry().update(
                section_offset(
                    section_coord.x as int,
                    section_coord.y as int,
                    section_coord.z as int,
                ),
                has_geometry,
            ),
            final(self).visibility() == old(self).visibility().update(
                section_offset(
                    section_coord.x as int,
                    section_coord.y as int,
                    section_coord.z as int,
                ),
                visibility_data,
            ),
            final(self).visible() == old(self).visible(),
    {
        let index = offset_of(section_coord);
        self.section_has_geometry_bits.set(index, has_geometry);
        self.section_visibility_bit_sets[index] = visibility_data;
    }

    /// Clears the geometry bit and resets the portal matrix of the section
    /// at `section_coord` to the no-connectivity default.
    pub fn remove_section(&mut self, section_coord: LocalSectionCoord)
        requires
            old(self).wf(),
        ensures
            final(self).wf(),
            final(self).geometry() == old(self).geometry().update(
                section_offset(
                    section_coord.x as int,
                    section_coord.y as int,
                    section_coord.z as int,
                ),
                false,
            ),
            final(self).visibility() == old(self).visibility().update(
                section_offset(
                    section_coord.x as int,
                    section_coord.y as int,
                    section_coord.z as int,
                ),
                VisibilityData::empty_spec(),
            ),
            final(self).visible() == old(self).visible(),
    {
        let index = offset_of(section_coord);
        self.section_has_geometry_bits.set(index, false);
        self.section_visibility_bit_sets[index] = VisibilityData::empty();
    }

    /// Reads the geometry-presence bit of one section.
    pub fn section_has_geometry(&self, section_coord: LocalSectionCoord) -> (r: bool)
        requires
            self.wf(),
        ensures
            r == self.geometry()[section_offset(
                section_coord.x as int,
                section_coord.y as int,
                section_coord.z as int,
            )],
    {
        self.section_has_geometry_bits.get(offset_of(section_coord))
    }

    /// Reads the visible bit of one section, as left by the latest cull.
    pub fn section_is_visible(&self, section_coord: LocalSectionCoord) -> (r: bool)
        requires
            self.wf(),
        ensures
            r == self.visible()[section_offset(
                section_coord.x as int,
                section_coord.y as int,
                section_coord.z as int,
            )],
    {
        self.section_is_visible_bits.get(offset_of(section_coord))
    }

    /// Reads the stored portal matrix of one section.
    pub fn section_visibility_data(&self, section_coord: LocalSectionCoord) -> (r: VisibilityData)
        requires
            self.wf(),
        ensures
            r == self.visibility()[section_offset(
                section_coord.x as int,
                section_coord.y as int,
                section_coord.z as int,
            )],
    {
        self.section_visibility_bit_sets[offset_of(section_coord)]
    }

    /// Number of BFS rounds the latest cull ran.
    pub fn last_bfs_rounds(&self) -> (r: usize)
        ensures
            r == self.bfs_rounds_spec(),
    {
        self.bfs_rounds
    }

    /// Largest number of sections queued in any single BFS round of the
    /// latest cull.
    pub fn last_bfs_peak_queue_len(&self) -> (r: usize)
        ensures
            r == self.bfs_peak_queue_len_spec(),
    {
        self.bfs_peak_queue_len
    }

    /// The stored BFS round counter.
    pub closed spec fn bfs_rounds_spec(&self) -> usize {
        self.bfs_rounds
    }

    /// The stored BFS peak queue occupancy.
    pub closed spec fn bfs_peak_queue_len_spec(&self) -> usize {
        self.bfs_peak_queue_len
    }

    /// Copies the geometry bit into the visible bit for every section
    /// under the given node, leaving all other sections untouched.
    fn copy_node_box(&mut self, index: LocalNodeIndex)
        requires
            old(self).wf(),
            index.wf(),
        ensures
            final(self).wf(),
            final(self).geometry() == old(self).geometry(),
            final(self).visibility() == old(self).visibility(),
            final(self).scratch() == old(self).scratch(),
            final(self).visible().len() == old(self).visible().len(),
            forall|x: int, y: int, z: int|
                valid_coords(x, y, z) ==> final(self).visible()[#[trigger] section_offset(x, y, z)]
                    == (if index.contains_section(x, y, z) {
                    old(self).geometry()[section_offset(x, y, z)]
                } else {
                    old(self).visible()[section_offset(x, y, z)]
                }),
    {
        let s = node_side_of(index.level) as usize;
        proof {
            assert(index.x as int * s as int + s as int == (index.x as int + 1) * s as int)
                by (nonlinear_arith);
            assert(index.y as int * s as int + s as int == (index.y as int + 1) * s as int)
                by (nonlinear_arith);
            assert(index.z as int * s as int + s as int == (index.z as int + 1) * s as int)
                by (nonlinear_arith);
        }
        let x0 = index.x as usize * s;
        let y0 = index.y as usize * s;
        let z0 = index.z as usize * s;
        self.section_is_visible_bits.copy_box_from(
            &self.section_has_geometry_bits,
            x0,
            x0 + s,
            y0,
            y0 + s,
            z0,
            z0 + s,
        );
    }

    /// Recursive descent of the bounds test: a node entirely outside the
    /// view volume is skipped, a node entirely inside accepts every
    /// section with geometry under it wholesale, and a straddling node is
    /// split into its eight children, down to single sections.
    #[verifier::rlimit(60)]
    fn check_node(&mut self, index: LocalNodeIndex, coord_context: &LocalCoordContext)
        requires
            old(self).wf(),
            index.wf(),
            coord_context.wf(),
            forall|x: int, y: int, z: int|
                index.contains_section(x, y, z) ==> old(self).visible()[#[trigger] section_offset(
                    x,
                    y,
                    z,
                )] == false,
        ensures
            final(self).wf(),
            final(self).geometry() == old(self).geometry(),
            final(self).visibility() == old(self).visibility(),
            final(self).scratch() == old(self).scratch(),
            final(self).visible().len() == old(self).visible().len(),
            forall|x: int, y: int, z: int|
                valid_coords(x, y, z) ==> final(self).visible()[#[trigger] section_offset(x, y, z)]
                    == (if index.contains_section(x, y, z) {
                    old(self).geometry()[section_offset(x, y, z)] && coord_context.in_view(x, y, z)
                } else {
                    old(self).visible()[section_offset(x, y, z)]
                }),
        decreases index.level,
    {
        match coord_context.test_node(&index) {
            BoundsCheckResult::Outside => {
            },
            BoundsCheckResult::Inside => {
                self.copy_node_box(index);
            },
            BoundsCheckResult::Partial => {
                if index.level == 0 {
                    proof {
                        let (wx, wy, wz): (int, int, int) = choose|x: int, y: int, z: int|
                            #[trigger] index.contains_section(x, y, z) && coord_context.in_view(
                                x,
                                y,
                                z,
                            );
                        assert(wx == index.x as int && wy == index.y as int && wz
                            == index.z as int);
                        assert(coord_context.in_view(
                            index.x as int,
                            index.y as int,
                            index.z as int,
                        ));
                    }
                    self.copy_node_box(index);
                } else {
                    let cl = index.level - 1;
                    let cx = index.x * 2;
                    let cy = index.y * 2;
                    let cz = index.z * 2;
                    proof {
                        let h = node_side(cl as int);
                        let s = node_side(index.level as int);
                        assert(s == 2 * h);
                        lemma_child_axis(index.x as int, s, h, 0);
                        lemma_child_axis(index.x as int, s, h, 1);
                        lemma_child_axis(index.y as int, s, h, 0);
                        lemma_child_axis(index.y as int, s, h, 1);
                        lemma_child_axis(index.z as int, s, h, 0);
                        lemma_child_axis(index.z as int, s, h, 1);
                        lemma_axis_split(index.x as int, h);
                        lemma_axis_split(index.y as int, h);
                        lemma_axis_split(index.z as int, h);
                    }
                    self.check_node(
                        LocalNodeIndex { level: cl, x: cx, y: cy, z: cz },
                        coord_context,
                    );
                    self.check_node(
                        LocalNodeIndex { level: cl, x: cx, y: cy, z: cz + 1 },
                        coord_context,
                    );
                    self.check_node(
                        LocalNodeIndex { level: cl, x: cx, y: cy + 1, z: cz },
                        coord_context,
                    );
                    self.check_node(
                        LocalNodeIndex { level: cl, x: cx, y: cy + 1, z: cz + 1 },
                        coord_context,
                    );
                    self.check_node(
                        LocalNodeIndex { level: cl, x: cx + 1, y: cy, z: cz },
                        coord_context,
                    );
                    self.check_node(
                        LocalNodeIndex { level: cl, x: cx + 1, y: cy, z: cz + 1 },
                        coord_context,
                    );
                    self.check_node(
                        LocalNodeIndex { level: cl, x: cx + 1, y: cy + 1, z: cz },
                        coord_context,
                    );
                    self.check_node(
                        LocalNodeIndex { level: cl, x: cx + 1, y: cy + 1, z: cz + 1 },
                        coord_context,
                    );
                }
            },
        }
    }

    /// Bounds-tests one row of level-3 nodes: fixed node x and y, node z
    /// running over `[nz0, nz1)`.
    fn cull_node_row(
        &mut self,
        coord_context: &LocalCoordContext,
        nx: usize,
        ny: usize,
        nz0: usize,
        nz1: usize,
    )
        requires
            old(self).wf(),
            coord_context.wf(),
            nx < 32,
            ny < 32,
            nz0 <= nz1 <= 32,
            forall|x: int, y: int, z: int|
                valid_coords(x, y, z) && nx * 8 <= x < nx * 8 + 8 && ny * 8 <= y < ny * 8 + 8
                    && nz0 * 8 <= z < nz1 * 8 ==> old(self).visible()[#[trigger] section_offset(
                    x,
                    y,
                    z,
                )] == false,
        ensures
            final(self).wf(),
            final(self).geometry() == old(self).geometry(),
            final(self).visibility() == old(self).visibility(),
            final(self).scratch() == old(self).scratch(),
            final(self).visible().len() == old(self).visible().len(),
            forall|x: int, y: int, z: int|
                valid_coords(x, y, z) ==> final(self).visible()[#[trigger] section_offset(x, y, z)]
                    == (if nx * 8 <= x < nx * 8 + 8 && ny * 8 <= y < ny * 8 + 8 && nz0 * 8 <= z
                    < nz1 * 8 {
                    old(self).geometry()[section_offset(x, y, z)] && coord_context.in_view(x, y, z)
                } else {
                    old(self).visible()[section_offset(x, y, z)]
                }),
    {
        let mut nz = nz0;
        while nz < nz1
            invariant
                nz0 <= nz <= nz1,
                self.wf(),
                self.geometry() == old(self).geometry(),
                self.visibility() == old(self).visibility(),
                self.scratch() == old(self).scratch(),
                self.visible().len() == old(self).visible().len(),
                forall|x: int, y: int, z: int|
                    valid_coords(x, y, z) ==> self.visible()[#[trigger] section_offset(x, y, z)]
                        == (if nx * 8 <= x < nx * 8 + 8 && ny * 8 <= y < ny * 8 + 8 && nz0 * 8 <= z
                        < nz * 8 {
                        old(self).geometry()[section_offset(x, y, z)] && coord_context.in_view(
                            x,
                            y,
                            z,
                        )
                    } else {
                        old(self).visible()[section_offset(x, y, z)]
                    }),
            decreases nz1 - nz,
        {
            let node = LocalNodeIndex { level: 3, x: nx as u8, y: ny as u8, z: nz as u8 };
            self.check_node(node, coord_context);
            nz = nz + 1;
        }
    }

    /// Bounds-tests one plane of level-3 nodes: fixed node x, node y over
    /// `[ny0, ny1)` and node z over `[nz0, nz1)`.
    fn cull_node_plane(
        &mut self,
        coord_context: &LocalCoordContext,
        nx: usize,
        ny0: usize,
        ny1: usize,
        nz0: usize,
        nz1: usize,
    )
        requires
            old(self).wf(),
            coord_context.wf(),
            nx < 32,
            ny0 <= ny1 <= 32,
            nz0 <= nz1 <= 32,
            forall|x: int, y: int, z: int|
                valid_coords(x, y, z) && nx * 8 <= x < nx * 8 + 8 && ny0 * 8 <= y < ny1 * 8 && nz0
                    * 8 <= z < nz1 * 8 ==> old(self).visible()[#[trigger] section_offset(x, y, z)]
                    == false,
        ensures
            final(self).wf(),
            final(self).geometry() == old(self).geometry(),
            final(self).visibility() == old(self).visibility(),
            final(self).scratch() == old(self).scratch(),
            final(self).visible().len() == old(self).visible().len(),
            forall|x: int, y: int, z: int|
                valid_coords(x, y, z) ==> final(self).visible()[#[trigger] section_offset(x, y, z)]
                    == (if nx * 8 <= x < nx * 8 + 8 && ny0 * 8 <= y < ny1 * 8 && nz0 * 8 <= z < nz1
                    * 8 {
                    old(self).geometry()[section_offset(x, y, z)] && coord_context.in_view(x, y, z)
                } else {
                    old(self).visible()[section_offset(x, y, z)]
                }),
    {
        let mut ny = ny0;
        while ny < ny1
            invariant
                ny0 <= ny <= ny1,
                self.wf(),
                self.geometry() == old(self).geometry(),
                self.visibility() == old(self).visibility(),
                self.scratch() == old(self).scratch(),
                self.visible().len() == old(self).visible().len(),
                forall|x: int, y: int, z: int|
                    valid_coords(x, y, z) ==> self.visible()[#[trigger] section_offset(x, y, z)]
                        == (if nx * 8 <= x < nx * 8 + 8 && ny0 * 8 <= y < ny * 8 && nz0 * 8 <= z
                        < nz1 * 8 {
                        old(self).geometry()[section_offset(x, y, z)] && coord_context.in_view(
                            x,
                            y,
                            z,
                        )
                    } else {
                        old(self).visible()[section_offset(x, y, z)]
                    }),
            decreases ny1 - ny,
        {
            self.cull_node_row(coord_context, nx, ny, nz0, nz1);
            ny = ny + 1;
        }
    }

    /// The coarse culling pass: walks the level-3 nodes that overlap the
    /// view volume and classifies each against it, so that afterward a
    /// section is marked visible exactly when it has geometry and lies in
    /// view.
    fn frustum_and_fog_cull(&mut self, coord_context: &LocalCoordContext)
        requires
            old(self).wf(),
            coord_context.wf(),
            forall|o: int|
                0 <= o < SECTIONS_IN_GRAPH ==> old(self).visible()[o] == false,
        ensures
            final(self).wf(),
            final(self).geometry() == old(self).geometry(),
            final(self).visibility() == old(self).visibility(),
            final(self).scratch() == old(self).scratch(),
            final(self).visible().len() == old(self).visible().len(),
            forall|x: int, y: int, z: int|
                valid_coords(x, y, z) ==> final(self).visible()[#[trigger] section_offset(x, y, z)]
                    == (old(self).geometry()[section_offset(x, y, z)] && coord_context.in_view(
                    x,
                    y,
                    z,
                )),
    {
        let nx0 = (coord_context.view_min.x / 8) as usize;
        let nx1 = (coord_context.view_max.x / 8) as usize + 1;
        let ny0 = (coord_context.view_min.y / 8) as usize;
        let ny1 = (coord_context.view_max.y / 8) as usize + 1;
        let nz0 = (coord_context.view_min.z / 8) as usize;
        let nz1 = (coord_context.view_max.z / 8) as usize + 1;
        let mut nx = nx0;
        while nx < nx1
            invariant
                nx0 <= nx <= nx1,
                self.wf(),
                self.geometry() == old(self).geometry(),
                self.visibility() == old(self).visibility(),
                self.scratch() == old(self).scratch(),
                self.visible().len() == old(self).visible().len(),
                forall|x: int, y: int, z: int|
                    valid_coords(x, y, z) ==> self.visible()[#[trigger] section_offset(x, y, z)]
                        == (if nx0 * 8 <= x < nx * 8 && ny0 * 8 <= y < ny1 * 8 && nz0 * 8 <= z
                        < nz1 * 8 {
                        old(self).geometry()[section_offset(x, y, z)] && coord_context.in_view(
                            x,
                            y,
                            z,
                        )
                    } else {
                        old(self).visible()[section_offset(x, y, z)]
                    }),
            decreases nx1 - nx,
        {
            self.cull_node_plane(coord_context, nx, ny0, ny1, nz0, nz1);
            nx = nx + 1;
        }
    }

    /// The occlusion pass: a level-synchronous BFS from the camera's own
    /// section. A section keeps its visible bit only when the traversal
    /// reached it: starting at the camera, each dequeued section hands an
    /// incoming arrival to every neighbor it can flow into (the step must
    /// stay in view and pass the section's portal matrix), and a neighbor
    /// is enqueued exactly once, on its first arrival of the pass.
    #[verifier::rlimit(100)]
    fn bfs_and_occlusion_cull(&mut self, coord_context: &LocalCoordContext)
        requires
            old(self).wf(),
            coord_context.wf(),
        ensures
            final(self).wf(),
            final(self).geometry() == old(self).geometry(),
            final(self).visibility() == old(self).visibility(),
            final(self).visible().len() == old(self).visible().len(),
            forall|x: int, y: int, z: int|
                valid_coords(x, y, z) ==> (final(self).visible()[#[trigger] section_offset(
                    x,
                    y,
                    z,
                )] ==> old(self).visible()[section_offset(x, y, z)]),
            forall|x: int, y: int, z: int|
                valid_coords(x, y, z) ==> (final(self).visible()[#[trigger] section_offset(
                    x,
                    y,
                    z,
                )] ==> bfs_reachable(*coord_context, old(self).visibility(), x, y, z)),
            final(self).visible()[section_offset(
                coord_context.camera_section.x as int,
                coord_context.camera_section.y as int,
                coord_context.camera_section.z as int,
            )] == old(self).visible()[section_offset(
                coord_context.camera_section.x as int,
                coord_context.camera_section.y as int,
                coord_context.camera_section.z as int,
            )],
    {
        let ghost ctx = *coord_context;
        let ghost vis0 = old(self).visibility();
        let cam = coord_context.camera_section;
        let cam_idx = offset_of(cam);
        self.bfs_cached_state.set(cam_idx, GraphDirectionSet::all());
        let mut read_queue = BfsQueue::new();
        let mut write_queue = BfsQueue::new();
        read_queue.push(cam);
        let ghost mut marked: Set<int> = Set::empty().insert(cam_idx as int);
        proof {
            lemma_camera_reachable(ctx, vis0);
            lemma_int_range(0, SECTIONS_IN_GRAPH as int);
            assert(marked.subset_of(vstd::set_lib::set_int_range(0, SECTIONS_IN_GRAPH as int)));
            vstd::set_lib::lemma_len_subset(
                marked,
                vstd::set_lib::set_int_range(0, SECTIONS_IN_GRAPH as int),
            );
            assert forall|x: int, y: int, z: int|
                valid_coords(x, y, z) && section_offset(x, y, z) == cam_idx as int implies x
                == cam.x as int && y == cam.y as int && z == cam.z as int by {
                crate::local::lemma_offset_injective(
                    x,
                    y,
                    z,
                    cam.x as int,
                    cam.y as int,
                    cam.z as int,
                );
            }
        }
        self.bfs_rounds = 0;
        self.bfs_peak_queue_len = 1;
        while !read_queue.is_empty()
            invariant
                self.geometry() == old(self).geometry(),
                self.visibility() == old(self).visibility(),
                self.visible() == old(self).visible(),
                self.scratch().len() == SECTIONS_IN_GRAPH,
                read_queue.wf(),
                write_queue.wf(),
                write_queue@.len() == 0,
                marked.finite(),
                marked.subset_of(vstd::set_lib::set_int_range(0, SECTIONS_IN_GRAPH as int)),
                marked.len() <= SECTIONS_IN_GRAPH,
                marked.contains(cam_idx as int),
                forall|o: int|
                    0 <= o < SECTIONS_IN_GRAPH ==> ((#[trigger] self.scratch()[o])@ != 0
                        <==> marked.contains(o)),
                forall|x: int, y: int, z: int|
                    valid_coords(x, y, z) && marked.contains(section_offset(x, y, z))
                        ==> bfs_reachable(ctx, vis0, x, y, z),
                forall|i: int|
                    0 <= i < read_queue@.len() ==> marked.contains(section_offset(
                        (#[trigger] read_queue@[i]).x as int,
                        read_queue@[i].y as int,
                        read_queue@[i].z as int,
                    )),
                forall|i: int|
                    0 <= i < write_queue@.len() ==> marked.contains(section_offset(
                        (#[trigger] write_queue@[i]).x as int,
                        write_queue@[i].y as int,
                        write_queue@[i].z as int,
                    )),
            decreases SECTIONS_IN_GRAPH - marked.len(), read_queue@.len(),
        {
            let rl = read_queue.len();
            if rl > self.bfs_peak_queue_len {
                self.bfs_peak_queue_len = rl;
            }
            if self.bfs_rounds < SECTIONS_IN_GRAPH {
                self.bfs_rounds = self.bfs_rounds + 1;
            }
            let ghost round_start_len = marked.len();
            while !read_queue.is_empty()
                invariant
                    self.geometry() == old(self).geometry(),
                    self.visibility() == old(self).visibility(),
                    self.visible() == old(self).visible(),
                    self.scratch().len() == SECTIONS_IN_GRAPH,
                    read_queue.wf(),
                    write_queue.wf(),
                    marked.finite(),
                    marked.subset_of(vstd::set_lib::set_int_range(0, SECTIONS_IN_GRAPH as int)),
                    marked.len() <= SECTIONS_IN_GRAPH,
                    marked.contains(cam_idx as int),
                    marked.len() == round_start_len + write_queue@.len(),
                    round_start_len <= marked.len(),
                    forall|o: int|
                        0 <= o < SECTIONS_IN_GRAPH ==> ((#[trigger] self.scratch()[o])@ != 0
                            <==> marked.contains(o)),
                    forall|x: int, y: int, z: int|
                        valid_coords(x, y, z) && marked.contains(section_offset(x, y, z))
                            ==> bfs_reachable(ctx, vis0, x, y, z),
                    forall|i: int|
                        0 <= i < read_queue@.len() ==> marked.contains(section_offset(
                            (#[trigger] read_queue@[i]).x as int,
                            read_queue@[i].y as int,
                            read_queue@[i].z as int,
                        )),
                    forall|i: int|
                        0 <= i < write_queue@.len() ==> marked.contains(section_offset(
                            (#[trigger] write_queue@[i]).x as int,
                            write_queue@[i].y as int,
                            write_queue@[i].z as int,
                        )),
                decreases read_queue@.len(),
            {
                let node = read_queue.pop().unwrap();
                let node_idx = offset_of(node);
                proof {
                    assert(marked.contains(node_idx as int));
                }
                let incoming = self.bfs_cached_state.get(node_idx);
                let valid = coord_context.get_valid_directions(node);
                let vis_data = self.section_visibility_bit_sets[node_idx];
                let outgoing_vis = vis_data.get_outgoing_directions(incoming);
                let outgoing = valid.intersect(outgoing_vis);
                proof {
                    assert(valid_coords(node.x as int, node.y as int, node.z as int));
                    assert(marked.contains(section_offset(
                        node.x as int,
                        node.y as int,
                        node.z as int,
                    )));
                    assert(bfs_reachable(ctx, vis0, node.x as int, node.y as int, node.z as int));
                    assert forall|g: int| #[trigger]
                        set_has(incoming@, g) implies set_has(all_dirs_bits(), g) by {
                        crate::direction::lemma_full_set_has_all(g);
                    }
                    crate::visibility::lemma_outgoing_monotonic(
                        vis_data@,
                        incoming@,
                        all_dirs_bits(),
                    );
                }
                let mut d_idx: u8 = 0;
                while d_idx < 6
                    invariant
                        d_idx <= 6,
                        self.geometry() == old(self).geometry(),
                        self.visibility() == old(self).visibility(),
                        self.visible() == old(self).visible(),
                        self.scratch().len() == SECTIONS_IN_GRAPH,
                        write_queue.wf(),
                        marked.finite(),
                        marked.subset_of(vstd::set_lib::set_int_range(0, SECTIONS_IN_GRAPH as int)),
                        marked.len() <= SECTIONS_IN_GRAPH,
                        marked.contains(cam_idx as int),
                        marked.len() == round_start_len + write_queue@.len(),
                        round_start_len <= marked.len(),
                        forall|o: int|
                            0 <= o < SECTIONS_IN_GRAPH ==> ((#[trigger] self.scratch()[o])@ != 0
                                <==> marked.contains(o)),
                        forall|x: int, y: int, z: int|
                            valid_coords(x, y, z) && marked.contains(section_offset(x, y, z))
                                ==> bfs_reachable(ctx, vis0, x, y, z),
                        vis_data == vis0[node_idx as int],
                        node_idx as int == section_offset(
                            node.x as int,
                            node.y as int,
                            node.z as int,
                        ),
                        read_queue.wf(),
                        forall|i: int|
                            0 <= i < read_queue@.len() ==> marked.contains(section_offset(
                                (#[trigger] read_queue@[i]).x as int,
                                read_queue@[i].y as int,
                                read_queue@[i].z as int,
                            )),
                        forall|i: int|
                            0 <= i < write_queue@.len() ==> marked.contains(section_offset(
                                (#[trigger] write_queue@[i]).x as int,
                                write_queue@[i].y as int,
                                write_queue@[i].z as int,
                            )),
                        forall|g: int|
                            0 <= g < 6 ==> (#[trigger] set_has(outgoing@, g) ==> set_has(valid@, g)
                                && outgoing_has(vis_data@, all_dirs_bits(), g)),
                        forall|g: int|
                            0 <= g < 6 ==> (#[trigger] set_has(valid@, g) <==> ctx.in_view(
                                node.x as int + delta_x(g),
                                node.y as int + delta_y(g),
                                node.z as int + delta_z(g),
                            )),
                    decreases 6 - d_idx,
                {
                    let dir = GraphDirection::from_int_unchecked(d_idx);
                    if outgoing.contains(dir) {
                        proof {
                            assert(bfs_step(ctx, vis0, node.x as int, node.y as int, node.z as int,
                                d_idx as int));
                            lemma_reachable_step(
                                ctx,
                                vis0,
                                node.x as int,
                                node.y as int,
                                node.z as int,
                                d_idx as int,
                            );
                        }
                        let nb = neighbor(node, dir);
                        let nb_idx = offset_of(nb);
                        let first = self.bfs_cached_state.get(nb_idx).is_empty();
                        let mut ns = self.bfs_cached_state.get(nb_idx);
                        ns.add(dir.opposite());
                        self.bfs_cached_state.set(nb_idx, ns);
                        proof {
                            assert forall|x: int, y: int, z: int|
                                valid_coords(x, y, z) && section_offset(x, y, z)
                                    == nb_idx as int implies x == nb.x as int && y == nb.y as int
                                && z == nb.z as int by {
                                crate::local::lemma_offset_injective(
                                    x,
                                    y,
                                    z,
                                    nb.x as int,
                                    nb.y as int,
                                    nb.z as int,
                                );
                            }
                            if first {
                                assert(!marked.contains(nb_idx as int));
                                marked = marked.insert(nb_idx as int);
                                vstd::set_lib::lemma_len_subset(
                                    marked,
                                    vstd::set_lib::set_int_range(0, SECTIONS_IN_GRAPH as int),
                                );
                            }
                        }
                        if first {
                            write_queue.push(nb);
                        }
                    }
                    d_idx = d_idx + 1;
                }
            }
            read_queue.reset();
            let swap_tmp = read_queue;
            read_queue = write_queue;
            write_queue = swap_tmp;
        }
        // keep a visible bit only where the traversal arrived
        let ghost vis_exit = self.visible();
        self.retain_reached(Ghost(marked));
        self.bfs_cached_state.reset();
        proof {
            assert forall|x: int, y: int, z: int|
                valid_coords(x, y, z) && self.visible()[section_offset(x, y, z)] implies (
            bfs_reachable(ctx, vis0, x, y, z) && vis_exit[section_offset(x, y, z)]) by {
                let i = section_offset(x, y, z);
                assert(0 <= i < SECTIONS_IN_GRAPH);
                assert(self.visible()[i] == (vis_exit[i] && marked.contains(i)));
                assert(marked.contains(i));
            }
        }
    }

    /// Clears the visible bit of every section the traversal never
    /// arrived at: arrival is recorded in the scratch table, mirrored by
    /// the ghost set `marked`.
    fn retain_reached(&mut self, Ghost(marked): Ghost<Set<int>>)
        requires
            old(self).visible().len() == SECTIONS_IN_GRAPH,
            old(self).scratch().len() == SECTIONS_IN_GRAPH,
            forall|i: int|
                0 <= i < SECTIONS_IN_GRAPH ==> ((#[trigger] old(self).scratch()[i])@ != 0
                    <==> marked.contains(i)),
        ensures
            final(self).geometry() == old(self).geometry(),
            final(self).visibility() == old(self).visibility(),
            final(self).scratch() == old(self).scratch(),
            final(self).visible().len() == SECTIONS_IN_GRAPH,
            forall|i: int|
                0 <= i < SECTIONS_IN_GRAPH ==> final(self).visible()[i] == ((#[trigger] old(
                self,
                ).visible()[i]) && marked.contains(i)),
    {
        let ghost base = old(self).visible();
        let mut o: usize = 0;
        while o < SECTIONS_IN_GRAPH
            invariant
                o <= SECTIONS_IN_GRAPH,
                self.geometry() == old(self).geometry(),
                self.visibility() == old(self).visibility(),
                self.scratch() == old(self).scratch(),
                self.visible().len() == SECTIONS_IN_GRAPH,
                forall|i: int|
                    0 <= i < o ==> self.visible()[i] == ((#[trigger] base[i]) && marked.contains(
                        i,
                    )),
                forall|i: int| o <= i < SECTIONS_IN_GRAPH ==> self.visible()[i] == #[trigger] base[i],
            decreases SECTIONS_IN_GRAPH - o,
        {
            let keep = !self.bfs_cached_state.get(o).is_empty();
            let v = self.section_is_visible_bits.get(o);
            self.section_is_visible_bits.set(o, v && keep);
            o = o + 1;
        }
    }

    /// Collects, in ascending packed order, the in-region indices of the
    /// visible sections of one region.
    #[verifier::rlimit(100)]
    fn collect_region(&self, rx: u8, ry: u8, rz: u8) -> (batch: RegionDrawBatch)
        requires
            self.wf(),
            rx < 32,
            ry < 64,
            rz < 32,
        ensures
            batch.region_coord == (rx as i32, ry as i32, rz as i32),
            batch_matches_region(self.visible(), batch),
    {
        let mut batch = RegionDrawBatch::new((rx as i32, ry as i32, rz as i32));
        let mut s: usize = 0;
        while s < 256
            invariant
                s <= 256,
                batch.region_coord == (rx as i32, ry as i32, rz as i32),
                batch.sections_seq().len() <= s,
                forall|i: int|
                    0 <= i < batch.sections_seq().len() ==> (#[trigger] batch.sections_seq()[i])@
                        < s,
                forall|i: int, j: int|
                    0 <= i < j < batch.sections_seq().len() ==> (batch.sections_seq()[i])@ < (
                    batch.sections_seq()[j])@,
                forall|sp: int|
                    0 <= sp < s ==> ((exists|i: int|
                        0 <= i < batch.sections_seq().len() && (#[trigger] batch.sections_seq()[
                        i])@ == sp) <==> self.visible()[#[trigger] region_section_offset(
                        rx as int,
                        ry as int,
                        rz as int,
                        sp,
                    )]),
            decreases 256 - s,
        {
            let lx = s / 32;
            let ly = (s % 32) / 8;
            let lz = s % 8;
            let x = (rx as usize) * 8 + lx;
            let y = (ry as usize) * 4 + ly;
            let z = (rz as usize) * 8 + lz;
            let c = LocalSectionCoord::new(x as u8, y as u8, z as u8);
            let ghost pre = batch.sections_seq();
            if self.section_is_visible(c) {
                let idx = RegionSectionIndex::from_local(c);
                proof {
                    assert(idx@ as int == s as int);
                }
                batch.push_section(idx);
            }
            proof {
                assert forall|sp: int| 0 <= sp < s as int + 1 implies ((exists|i: int|
                    0 <= i < batch.sections_seq().len() && (#[trigger] batch.sections_seq()[i])@
                        == sp) <==> self.visible()[#[trigger] region_section_offset(
                    rx as int,
                    ry as int,
                    rz as int,
                    sp,
                )]) by {
                    if sp < s as int {
                        if exists|i: int|
                            0 <= i < batch.sections_seq().len() && (
                            #[trigger] batch.sections_seq()[i])@ == sp {
                            let i = choose|i: int|
                                0 <= i < batch.sections_seq().len() && (
                                #[trigger] batch.sections_seq()[i])@ == sp;
                            assert(i < pre.len() && pre[i]@ == sp);
                        }
                        if exists|i: int| 0 <= i < pre.len() && (#[trigger] pre[i])@ == sp {
                            let i = choose|i: int|
                                0 <= i < pre.len() && (#[trigger] pre[i])@ == sp;
                            assert((batch.sections_seq()[i])@ == sp);
                        }
                    } else {
                        if self.visible()[region_section_offset(rx as int, ry as int, rz as int,
                            sp)] {
                            assert((batch.sections_seq()[batch.sections_seq().len() - 1])@ == sp);
                        }
                    }
                }
            }
            s = s + 1;
        }
        batch
    }

    /// Partitions the visible-section set into draw batches: one non-empty
    /// batch per region that holds at least one visible section, in
    /// ascending region order, each listing its visible sections by packed
    /// in-region index in ascending order.
    pub fn divide_graph_into_regions(&self) -> (r: Vec<RegionDrawBatch>)
        requires
            self.wf(),
        ensures
            forall|b: int|
                0 <= b < r@.len() ==> batch_matches_region(self.visible(), #[trigger] r@[b])
                    && r@[b].sections_seq().len() > 0,
            forall|b1: int, b2: int|
                0 <= b1 < b2 < r@.len() ==> region_key(r@[b1]) < region_key(r@[b2]),
            forall|rx: int, ry: int, rz: int, sp: int|
                0 <= rx < 32 && 0 <= ry < 64 && 0 <= rz < 32 && 0 <= sp < 256
                    && self.visible()[#[trigger] region_section_offset(rx, ry, rz, sp)]
                    ==> exists|b: int|
                    0 <= b < r@.len() && (#[trigger] r@[b].region_coord) == (rx as i32, ry as i32,
                    rz as i32),
    {
        let mut out: Vec<RegionDrawBatch> = Vec::new();
        let mut ri: usize = 0;
        while ri < 65536
            invariant
                ri <= 65536,
                self.wf(),
                forall|b: int|
                    0 <= b < out@.len() ==> batch_matches_region(self.visible(), #[trigger] out@[
                    b]) && out@[b].sections_seq().len() > 0,
                forall|b: int| 0 <= b < out@.len() ==> 0 <= region_key(#[trigger] out@[b]) < ri,
                forall|b1: int, b2: int|
                    0 <= b1 < b2 < out@.len() ==> region_key(out@[b1]) < region_key(out@[b2]),
                forall|rx: int, ry: int, rz: int, sp: int|
                    0 <= rx < 32 && 0 <= ry < 64 && 0 <= rz < 32 && 0 <= sp < 256 && rx * 2048 + ry
                        * 32 + rz < ri && self.visible()[#[trigger] region_section_offset(
                        rx,
                        ry,
                        rz,
                        sp,
                    )] ==> exists|b: int|
                        0 <= b < out@.len() && (#[trigger] out@[b].region_coord) == (rx as i32,
                        ry as i32, rz as i32),
            decreases 65536 - ri,
        {
            let rx = (ri / 2048) as u8;
            let ry = ((ri % 2048) / 32) as u8;
            let rz = (ri % 32) as u8;
            let batch = self.collect_region(rx, ry, rz);
            let ghost pre = out@;
            if batch.section_count() > 0 {
                out.push(batch);
            }
            proof {
                assert(rx as int * 2048 + ry as int * 32 + rz as int == ri as int);
                assert forall|rxq: int, ryq: int, rzq: int, spq: int|
                    0 <= rxq < 32 && 0 <= ryq < 64 && 0 <= rzq < 32 && 0 <= spq < 256 && rxq * 2048
                        + ryq * 32 + rzq < ri as int + 1 && self.visible()[
                #[trigger] region_section_offset(rxq, ryq, rzq, spq)] implies exists|b: int|
                    0 <= b < out@.len() && (#[trigger] out@[b].region_coord) == (rxq as i32,
                    ryq as i32, rzq as i32) by {
                    if rxq * 2048 + ryq * 32 + rzq < ri as int {
                        let b = choose|b: int|
                            0 <= b < pre.len() && (#[trigger] pre[b].region_coord) == (rxq as i32,
                            ryq as i32, rzq as i32);
                        assert(0 <= b < out@.len() && out@[b].region_coord == (rxq as i32,
                        ryq as i32, rzq as i32));
                    } else {
                        assert(rxq == rx as int && ryq == ry as int && rzq == rz as int);
                        assert(exists|i: int|
                            0 <= i < batch.sections_seq().len() && (
                            #[trigger] batch.sections_seq()[i])@ == spq);
                        assert(out@[out@.len() - 1].region_coord == (rxq as i32, ryq as i32,
                        rzq as i32));
                    }
                }
            }
            ri = ri + 1;
        }
        out
    }

    /// One full visibility computation: clears the visible set, runs the
    /// hierarchical frustum-and-fog pass, and then, unless
    /// `no_occlusion_cull` asks to skip it, restricts the result by BFS
    /// occlusion propagation from the camera's section.
    pub fn cull(&mut self, coord_context: &LocalCoordContext, no_occlusion_cull: bool)
        requires
            old(self).wf(),
            coord_context.wf(),
        ensures
            final(self).wf(),
            final(self).geometry() == old(self).geometry(),
            final(self).visibility() == old(self).visibility(),
            forall|x: int, y: int, z: int|
                valid_coords(x, y, z) ==> (final(self).visible()[#[trigger] section_offset(
                    x,
                    y,
                    z,
                )] ==> old(self).geometry()[section_offset(x, y, z)] && coord_context.in_view(
                    x,
                    y,
                    z,
                )),
            no_occlusion_cull ==> forall|x: int, y: int, z: int|
                valid_coords(x, y, z) ==> final(self).visible()[#[trigger] section_offset(x, y, z)]
                    == (old(self).geometry()[section_offset(x, y, z)] && coord_context.in_view(
                    x,
                    y,
                    z,
                )),
            !no_occlusion_cull ==> forall|x: int, y: int, z: int|
                valid_coords(x, y, z) ==> (final(self).visible()[#[trigger] section_offset(
                    x,
                    y,
                    z,
                )] ==> bfs_reachable(*coord_context, old(self).visibility(), x, y, z)),
            !no_occlusion_cull ==> final(self).visible()[section_offset(
                coord_context.camera_section.x as int,
                coord_context.camera_section.y as int,
                coord_context.camera_section.z as int,
            )] == (old(self).geometry()[section_offset(
                coord_context.camera_section.x as int,
                coord_context.camera_section.y as int,
                coord_context.camera_section.z as int,
            )] && coord_context.in_view(
                coord_context.camera_section.x as int,
                coord_context.camera_section.y as int,
                coord_context.camera_section.z as int,
            )),
    {
        self.section_is_visible_bits.clear();
        self.frustum_and_fog_cull(coord_context);
        if !no_occlusion_cull {
            self.bfs_and_occlusion_cull(coord_context);
        }
    }
}

/// Splitting a node in half along one axis keeps both halves inside the
/// grid: if positions up to `(p + 1) * s` fit, so do child positions up
/// to `(2p + a + 1) * h` for either child `a`, where `s == 2h`.
proof fn lemma_child_axis(p: int, s: int, h: int, a: int)
    requires
        0 <= p,
        1 <= h,
        s == 2 * h,
        (p + 1) * s <= 256,
        0 <= a < 2,
    ensures
        (2 * p + a + 1) * h <= 256,
        2 * p + a < 256,
{
    assert((2 * p + a + 1) * h <= (p + 1) * s) by (nonlinear_arith)
        requires
            0 <= a < 2,
            1 <= h,
            s == 2 * h,
            0 <= p,
    ;
    assert((p + 1) * 2 <= (p + 1) * s) by (nonlinear_arith)
        requires
            s >= 2,
            0 <= p,
    ;
}

/// Distributes the products that relate a node's section interval to the
/// intervals of its two children along one axis.
proof fn lemma_axis_split(p: int, h: int)
    ensures
        (2 * p) * h == 2 * (p * h),
        (2 * p + 1) * h == 2 * (p * h) + h,
        (2 * p + 2) * h == 2 * (p * h) + 2 * h,
        p * (2 * h) == 2 * (p * h),
        (p + 1) * (2 * h) == 2 * (p * h) + 2 * h,
{
    assert((2 * p) * h == 2 * (p * h) && (2 * p + 1) * h == 2 * (p * h) + h && (2 * p + 2) * h == 2
        * (p * h) + 2 * h && p * (2 * h) == 2 * (p * h) && (p + 1) * (2 * h) == 2 * (p * h) + 2
        * h) by (nonlinear_arith);
}

/// Law: adding a section and then removing the same coordinate restores
/// the per-section state to its pre-add default. Stated over the
/// geometry and portal-matrix tables as `add_section` and
/// `remove_section` describe them: when the slot held the default before
/// the add (no geometry, empty matrix), the add followed by the remove
/// leaves both tables exactly as they were.
pub proof fn lemma_add_remove_restores(
    g: Seq<bool>,
    v: Seq<VisibilityData>,
    o: int,
    has_geometry: bool,
    d: VisibilityData,
)
    requires
        0 <= o < g.len(),
        0 <= o < v.len(),
        g[o] == false,
        v[o] == VisibilityData::empty_spec(),
    ensures
        g.update(o, has_geometry).update(o, false) == g,
        v.update(o, d).update(o, VisibilityData::empty_spec()) == v,
{
    assert(g.update(o, has_geometry).update(o, false) =~= g);
    assert(v.update(o, d).update(o, VisibilityData::empty_spec()) =~= v);
}

} // verus!
