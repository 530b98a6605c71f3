//! A compact spatial visibility graph over a voxel world partitioned into
//! fixed-size sections.
//!
//! The world is a 256x256x256 logical grid of sections. Callers feed the
//! graph per-section occupancy and portal-connectivity metadata, then ask it
//! to compute the set of sections visible from a camera: a hierarchical
//! bounds test over a 4-level octree prunes sections outside the view
//! volume, and a level-synchronous breadth-first traversal propagates
//! visibility through directional portals between neighboring sections.
#![verifier::loop_isolation(false)]

use vstd::prelude::*;

pub mod direction;
pub mod visibility;
pub mod local;
pub mod bitgrid;
pub mod queue;
pub mod graph;
pub mod region;

verus! {

/// Total number of section slots in the graph: a full 256x256x256 grid.
pub const SECTIONS_IN_GRAPH: usize = 256 * 256 * 256;

/// Number of sections grouped into one draw region (8 x 4 x 8).
pub const SECTIONS_IN_REGION: usize = 8 * 4 * 8;

/// Largest supported view distance, in sections.
pub const MAX_VIEW_DISTANCE: u8 = 127;

/// Largest supported world height, in sections.
pub const MAX_WORLD_HEIGHT: u8 = 254;

} // verus!
