//! Section coordinates in the 256x256x256 logical grid, hierarchical octree
//! node indices over it, and the camera's local coordinate context: the
//! bounds oracle that classifies nodes against the view volume and says
//! which directions may be traversed out of a section.

use vstd::prelude::*;
use crate::direction::{set_has, dir_index, GraphDirection, GraphDirectionSet};
use crate::SECTIONS_IN_GRAPH;

verus! {

/// The coordinate of one section: three unsigned 8-bit components
/// addressing the full 256x256x256 logical space.
#[derive(Clone, Copy, PartialEq, Eq, Structural)]
pub struct LocalSectionCoord {
    pub x: u8,
    pub y: u8,
    pub z: u8,
}

impl LocalSectionCoord {
    /// Bundles three components into a section coordinate.
    pub fn new(x: u8, y: u8, z: u8) -> (r: LocalSectionCoord)
        ensures
            r == (LocalSectionCoord { x, y, z }),
    {
        LocalSectionCoord { x, y, z }
    }
}

/// The flattened array offset of the section at `(x, y, z)`: x-major, then
/// y, then z, over the full grid.
pub open spec fn section_offset(x: int, y: int, z: int) -> int {
    x * 0x10000 + y * 0x100 + z
}

/// True when `(x, y, z)` addresses a section of the logical grid.
pub open spec fn valid_coords(x: int, y: int, z: int) -> bool {
    0 <= x < 256 && 0 <= y < 256 && 0 <= z < 256
}

/// Flattening is injective over the grid: distinct coordinates get
/// distinct offsets.
pub proof fn lemma_offset_injective(x1: int, y1: int, z1: int, x2: int, y2: int, z2: int)
    requires
        valid_coords(x1, y1, z1),
        valid_coords(x2, y2, z2),
        section_offset(x1, y1, z1) == section_offset(x2, y2, z2),
    ensures
        x1 == x2 && y1 == y2 && z1 == z2,
{
}

/// The flattened array offset of a section coordinate.
pub fn offset_of(c: LocalSectionCoord) -> (o: usize)
    ensures
        o == section_offset(c.x as int, c.y as int, c.z as int),
        o < SECTIONS_IN_GRAPH,
{
    (c.x as usize) * 0x10000 + (c.y as usize) * 0x100 + (c.z as usize)
}

/// Change along the x axis when stepping in the direction with index `d`.
pub open spec fn delta_x(d: int) -> int {
    if d == 0 {
        -1
    } else if d == 3 {
        1
    } else {
        0
    }
}

/// Change along the y axis when stepping in the direction with index `d`.
pub open spec fn delta_y(d: int) -> int {
    if d == 1 {
        -1
    } else if d == 4 {
        1
    } else {
        0
    }
}

/// Change along the z axis when stepping in the direction with index `d`.
pub open spec fn delta_z(d: int) -> int {
    if d == 2 {
        -1
    } else if d == 5 {
        1
    } else {
        0
    }
}

/// The section adjacent to `pos` in direction `dir`. The caller must know
/// the step stays inside the grid.
pub fn neighbor(pos: LocalSectionCoord, dir: GraphDirection) -> (r: LocalSectionCoord)
    requires
        0 <= pos.x as int + delta_x(dir_index(dir)) < 256,
        0 <= pos.y as int + delta_y(dir_index(dir)) < 256,
        0 <= pos.z as int + delta_z(dir_index(dir)) < 256,
    ensures
        r.x as int == pos.x as int + delta_x(dir_index(dir)),
        r.y as int == pos.y as int + delta_y(dir_index(dir)),
        r.z as int == pos.z as int + delta_z(dir_index(dir)),
{
    match dir {
        GraphDirection::NegX => LocalSectionCoord { x: pos.x - 1, y: pos.y, z: pos.z },
        GraphDirection::NegY => LocalSectionCoord { x: pos.x, y: pos.y - 1, z: pos.z },
        GraphDirection::NegZ => LocalSectionCoord { x: pos.x, y: pos.y, z: pos.z - 1 },
        GraphDirection::PosX => LocalSectionCoord { x: pos.x + 1, y: pos.y, z: pos.z },
        GraphDirection::PosY => LocalSectionCoord { x: pos.x, y: pos.y + 1, z: pos.z },
        GraphDirection::PosZ => LocalSectionCoord { x: pos.x, y: pos.y, z: pos.z + 1 },
    }
}

/// How a node of the spatial hierarchy relates to the view volume.
#[derive(Clone, Copy, PartialEq, Eq, Structural)]
pub enum BoundsCheckResult {
    /// The node lies entirely outside the view volume.
    Outside,
    /// The node lies entirely inside the view volume.
    Inside,
    /// The node straddles the boundary of the view volume.
    Partial,
}

/// Side length, in sections, of a node at the given hierarchy level.
pub open spec fn node_side(level: int) -> int {
    if level == 0 {
        1
    } else if level == 1 {
        2
    } else if level == 2 {
        4
    } else {
        8
    }
}

/// The index of one node of the 4-level spatial hierarchy: `level` 0 is a
/// single section, each higher level doubles the side length, so a level-3
/// node covers an 8x8x8 block of sections.
#[derive(Clone, Copy, PartialEq, Eq, Structural)]
pub struct LocalNodeIndex {
    pub level: u8,
    pub x: u8,
    pub y: u8,
    pub z: u8,
}

impl LocalNodeIndex {
    /// A valid node index: the level exists and the node lies inside the
    /// grid.
    pub open spec fn wf(&self) -> bool {
        &&& self.level <= 3
        &&& (self.x as int + 1) * node_side(self.level as int) <= 256
        &&& (self.y as int + 1) * node_side(self.level as int) <= 256
        &&& (self.z as int + 1) * node_side(self.level as int) <= 256
    }

    /// True when the section `(x, y, z)` lies under this node.
    pub open spec fn contains_section(&self, x: int, y: int, z: int) -> bool {
        let s = node_side(self.level as int);
        &&& self.x as int * s <= x < (self.x as int + 1) * s
        &&& self.y as int * s <= y < (self.y as int + 1) * s
        &&& self.z as int * s <= z < (self.z as int + 1) * s
    }
}

/// Side length, in sections, of a node at the given hierarchy level.
pub fn node_side_of(level: u8) -> (s: u16)
    requires
        level <= 3,
    ensures
        s as int == node_side(level as int),
{
    if level == 0 {
        1
    } else if level == 1 {
        2
    } else if level == 2 {
        4
    } else {
        8
    }
}

/// The camera's local coordinate context for one cull pass: the camera's
/// own section and the view volume, given as an inclusive axis-aligned box
/// of section coordinates. The box stands in for the frustum-and-fog
/// volume at section granularity: a node is inside, outside, or partially
/// inside it, and a traversal step is valid exactly when it lands in it.
#[derive(Clone, Copy)]
pub struct LocalCoordContext {
    pub camera_section: LocalSectionCoord,
    pub view_min: LocalSectionCoord,
    pub view_max: LocalSectionCoord,
}

impl LocalCoordContext {
    /// A well-formed context: the view box is non-empty.
    pub open spec fn wf(&self) -> bool {
        &&& self.view_min.x <= self.view_max.x
        &&& self.view_min.y <= self.view_max.y
        &&& self.view_min.z <= self.view_max.z
    }

    /// True when the section `(x, y, z)` lies inside the view volume.
    pub open spec fn in_view(&self, x: int, y: int, z: int) -> bool {
        &&& self.view_min.x <= x <= self.view_max.x
        &&& self.view_min.y <= y <= self.view_max.y
        &&& self.view_min.z <= z <= self.view_max.z
    }

    /// Builds a context from the camera section and the inclusive corners
    /// of the view box.
    pub fn new(
        camera_section: LocalSectionCoord,
        view_min: LocalSectionCoord,
        view_max: LocalSectionCoord,
    ) -> (r: LocalCoordContext)
        requires
            view_min.x <= view_max.x,
            view_min.y <= view_max.y,
            view_min.z <= view_max.z,
        ensures
            r.wf(),
            r == (LocalCoordContext { camera_section, view_min, view_max }),
    {
        LocalCoordContext { camera_section, view_min, view_max }
    }

    /// Classifies a hierarchy node against the view volume: every section
    /// under an `Outside` node is out of view, every section under an
    /// `Inside` node is in view, and a `Partial` node holds sections of
    /// both kinds.
    pub fn test_node(&self, node: &LocalNodeIndex) -> (r: BoundsCheckResult)
        requires
            self.wf(),
            node.wf(),
        ensures
            r == BoundsCheckResult::Outside ==> forall|x: int, y: int, z: int|
                #[trigger] node.contains_section(x, y, z) ==> !self.in_view(x, y, z),
            r == BoundsCheckResult::Inside ==> forall|x: int, y: int, z: int|
                #[trigger] node.contains_section(x, y, z) ==> self.in_view(x, y, z),
            r == BoundsCheckResult::Partial ==> exists|x: int, y: int, z: int|
                #[trigger] node.contains_section(x, y, z) && self.in_view(x, y, z),
            r == BoundsCheckResult::Partial ==> exists|x: int, y: int, z: int|
                #[trigger] node.contains_section(x, y, z) && !self.in_view(x, y, z),
    {
        let s: u16 = node_side_of(node.level);
        let x0: u16 = node.x as u16 * s;
        let y0: u16 = node.y as u16 * s;
        let z0: u16 = node.z as u16 * s;
        let x1: u16 = x0 + s - 1;
        let y1: u16 = y0 + s - 1;
        let z1: u16 = z0 + s - 1;
        let min_x = self.view_min.x as u16;
        let min_y = self.view_min.y as u16;
        let min_z = self.view_min.z as u16;
        let max_x = self.view_max.x as u16;
        let max_y = self.view_max.y as u16;
        let max_z = self.view_max.z as u16;
        if x1 < min_x || x0 > max_x || y1 < min_y || y0 > max_y || z1 < min_z || z0 > max_z {
            BoundsCheckResult::Outside
        } else if min_x <= x0 && x1 <= max_x && min_y <= y0 && y1 <= max_y && min_z <= z0 && z1
            <= max_z {
            BoundsCheckResult::Inside
        } else {
            proof {
                let cx = if x0 as int >= min_x as int { x0 as int } else { min_x as int };
                let cy = if y0 as int >= min_y as int { y0 as int } else { min_y as int };
                let cz = if z0 as int >= min_z as int { z0 as int } else { min_z as int };
                assert(node.contains_section(cx, cy, cz) && self.in_view(cx, cy, cz));
                if x0 < min_x {
                    assert(node.contains_section(x0 as int, cy, cz) && !self.in_view(
                        x0 as int, cy, cz));
                } else if x1 > max_x {
                    assert(node.contains_section(x1 as int, cy, cz) && !self.in_view(
                        x1 as int, cy, cz));
                } else if y0 < min_y {
                    assert(node.contains_section(cx, y0 as int, cz) && !self.in_view(
                        cx, y0 as int, cz));
                } else if y1 > max_y {
                    assert(node.contains_section(cx, y1 as int, cz) && !self.in_view(
                        cx, y1 as int, cz));
                } else if z0 < min_z {
                    assert(node.contains_section(cx, cy, z0 as int) && !self.in_view(
                        cx, cy, z0 as int));
                } else {
                    assert(z1 > max_z);
                    assert(node.contains_section(cx, cy, z1 as int) && !self.in_view(
                        cx, cy, z1 as int));
                }
            }
            BoundsCheckResult::Partial
        }
    }

    /// The set of directions in which a traversal step from `pos` stays
    /// inside the view volume.
    pub fn get_valid_directions(&self, pos: LocalSectionCoord) -> (r: GraphDirectionSet)
        requires
            self.wf(),
        ensures
            r@ < 64,
            forall|d: int|
                0 <= d < 6 ==> (#[trigger] set_has(r@, d) <==> self.in_view(
                    pos.x as int + delta_x(d),
                    pos.y as int + delta_y(d),
                    pos.z as int + delta_z(d),
                )),
    {
        let mut s = GraphDirectionSet::none();
        proof {
            assert forall|g: int| !set_has(0, g) by {
                crate::direction::lemma_empty_set_has_none(g);
            }
        }
        let x_in = self.view_min.x <= pos.x && pos.x <= self.view_max.x;
        let y_in = self.view_min.y <= pos.y && pos.y <= self.view_max.y;
        let z_in = self.view_min.z <= pos.z && pos.z <= self.view_max.z;
        if pos.x > self.view_min.x && pos.x - 1 <= self.view_max.x && y_in && z_in {
            s.add(GraphDirection::NegX);
        }
        if pos.y > self.view_min.y && pos.y - 1 <= self.view_max.y && x_in && z_in {
            s.add(GraphDirection::NegY);
        }
        if pos.z > self.view_min.z && pos.z - 1 <= self.view_max.z && x_in && y_in {
            s.add(GraphDirection::NegZ);
        }
        if pos.x < self.view_max.x && pos.x + 1 >= self.view_min.x && y_in && z_in {
            s.add(GraphDirection::PosX);
        }
        if pos.y < self.view_max.y && pos.y + 1 >= self.view_min.y && x_in && z_in {
            s.add(GraphDirection::PosY);
        }
        if pos.z < self.view_max.z && pos.z + 1 >= self.view_min.z && x_in && y_in {
            s.add(GraphDirection::PosZ);
        }
        s
    }
}

} // verus!
