use visibility_graph::graph::Graph;
use visibility_graph::local::{LocalCoordContext, LocalSectionCoord};
use visibility_graph::region::RegionSectionIndex;
use visibility_graph::visibility::VisibilityData;

fn coord(x: u8, y: u8, z: u8) -> LocalSectionCoord {
    LocalSectionCoord::new(x, y, z)
}

#[test]
fn from_local_packs_the_low_coordinate_bits() {
    // (9 mod 8) * 32 + (6 mod 4) * 8 + (17 mod 8) = 32 + 16 + 1
    let idx = RegionSectionIndex::from_local(coord(9, 6, 17));
    assert_eq!(idx.packed_value(), 49);
    assert_eq!(RegionSectionIndex::from_local(coord(0, 0, 0)).packed_value(), 0);
    assert_eq!(
        RegionSectionIndex::from_local(coord(255, 255, 255)).packed_value(),
        7 * 32 + 3 * 8 + 7
    );
}

#[test]
fn empty_graph_produces_no_batches() {
    let g = Graph::new();
    let batches = g.divide_graph_into_regions();
    assert_eq!(batches.len(), 0);
}

#[test]
fn batches_group_visible_sections_by_region_in_ascending_order() {
    let mut g = Graph::new();
    // two sections in region (1, 1, 2), one in region (3, 2, 5)
    g.add_section(coord(10, 5, 20), true, VisibilityData::empty());
    g.add_section(coord(9, 4, 17), true, VisibilityData::empty());
    g.add_section(coord(30, 10, 40), true, VisibilityData::empty());
    // frustum-only cull over a box that holds all three sections
    let ctx = LocalCoordContext::new(coord(20, 8, 30), coord(0, 0, 0), coord(63, 63, 63));
    g.cull(&ctx, true);

    let batches = g.divide_graph_into_regions();
    assert_eq!(batches.len(), 2);

    assert_eq!(batches[0].region_coord, (1, 1, 2));
    assert_eq!(batches[0].section_count(), 2);
    // in-region codes: (9,4,17) -> 1*32 + 0*8 + 1 = 33, (10,5,20) -> 2*32 + 8 + 4 = 76
    assert_eq!(batches[0].section_at(0).packed_value(), 33);
    assert_eq!(batches[0].section_at(1).packed_value(), 76);

    assert_eq!(batches[1].region_coord, (3, 2, 5));
    assert_eq!(batches[1].section_count(), 1);
    // (30,10,40) -> 6*32 + 2*8 + 0 = 208
    assert_eq!(batches[1].section_at(0).packed_value(), 208);
}
