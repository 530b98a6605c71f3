use visibility_graph::graph::Graph;
use visibility_graph::local::{LocalCoordContext, LocalSectionCoord};
use visibility_graph::queue::get_bfs_queue_max_size;
use visibility_graph::visibility::VisibilityData;

fn coord(x: u8, y: u8, z: u8) -> LocalSectionCoord {
    LocalSectionCoord::new(x, y, z)
}

/// A portal matrix with every face pair connected.
fn all_pass() -> VisibilityData {
    VisibilityData::pack(u64::MAX)
}

#[test]
fn add_then_remove_restores_the_default_state() {
    let mut g = Graph::new();
    let c = coord(40, 41, 42);
    assert!(!g.section_has_geometry(c));
    assert_eq!(g.section_visibility_data(c), VisibilityData::empty());

    g.add_section(c, true, all_pass());
    assert!(g.section_has_geometry(c));
    assert_eq!(g.section_visibility_data(c), all_pass());

    g.remove_section(c);
    assert!(!g.section_has_geometry(c));
    assert_eq!(g.section_visibility_data(c), VisibilityData::empty());
    // an unrelated coordinate was never disturbed
    assert!(!g.section_has_geometry(coord(40, 41, 43)));
}

#[test]
fn fully_connected_cube_is_entirely_visible_after_cull() {
    let mut g = Graph::new();
    for x in 100u8..103 {
        for y in 100u8..103 {
            for z in 100u8..103 {
                g.add_section(coord(x, y, z), true, all_pass());
            }
        }
    }
    let ctx = LocalCoordContext::new(coord(101, 101, 101), coord(100, 100, 100), coord(102, 102, 102));
    g.cull(&ctx, false);
    for x in 100u8..103 {
        for y in 100u8..103 {
            for z in 100u8..103 {
                assert!(g.section_is_visible(coord(x, y, z)), "({x},{y},{z})");
            }
        }
    }
    // sections outside the cube stay invisible
    assert!(!g.section_is_visible(coord(99, 101, 101)));
    assert!(!g.section_is_visible(coord(103, 101, 101)));
    // the traversal reaches the cube's corners (walk distance 3 from the
    // center) in the seed round plus three expansion rounds
    assert_eq!(g.last_bfs_rounds(), 4);
}

#[test]
fn frustum_only_cull_marks_every_candidate() {
    let mut g = Graph::new();
    for x in 100u8..103 {
        for y in 100u8..103 {
            for z in 100u8..103 {
                g.add_section(coord(x, y, z), true, all_pass());
            }
        }
    }
    // occlusion skipped: visibility is exactly geometry within view
    let ctx = LocalCoordContext::new(coord(101, 101, 101), coord(100, 100, 100), coord(102, 102, 102));
    g.cull(&ctx, true);
    for x in 100u8..103 {
        for y in 100u8..103 {
            for z in 100u8..103 {
                assert!(g.section_is_visible(coord(x, y, z)), "({x},{y},{z})");
            }
        }
    }
    assert!(!g.section_is_visible(coord(99, 100, 100)));
}

#[test]
fn camera_with_blocked_egress_sees_only_its_own_section() {
    let mut g = Graph::new();
    for x in 100u8..103 {
        for y in 100u8..103 {
            for z in 100u8..103 {
                g.add_section(coord(x, y, z), true, all_pass());
            }
        }
    }
    // the camera's own matrix blocks every egress
    g.add_section(coord(101, 101, 101), true, VisibilityData::empty());
    let ctx = LocalCoordContext::new(coord(101, 101, 101), coord(100, 100, 100), coord(102, 102, 102));
    g.cull(&ctx, false);
    for x in 100u8..103 {
        for y in 100u8..103 {
            for z in 100u8..103 {
                let visible = g.section_is_visible(coord(x, y, z));
                if (x, y, z) == (101, 101, 101) {
                    assert!(visible);
                } else {
                    assert!(!visible, "({x},{y},{z}) should be occluded");
                }
            }
        }
    }
}

#[test]
fn out_of_view_geometry_leaves_the_visible_set_empty() {
    let mut g = Graph::new();
    for x in 100u8..103 {
        for y in 100u8..103 {
            for z in 100u8..103 {
                g.add_section(coord(x, y, z), true, all_pass());
            }
        }
    }
    // the view volume lies entirely elsewhere: every bounds test prunes
    let ctx = LocalCoordContext::new(coord(3, 3, 3), coord(0, 0, 0), coord(7, 7, 7));
    g.cull(&ctx, false);
    for x in 100u8..103 {
        for y in 100u8..103 {
            for z in 100u8..103 {
                assert!(!g.section_is_visible(coord(x, y, z)));
            }
        }
    }
    assert!(!g.section_is_visible(coord(3, 3, 3)));
}

#[test]
fn bfs_queue_stays_within_the_computed_bound() {
    // the view box spans 5 sections sideways and 3 up and down from the
    // camera, so the longest horizontal walk it admits is 10 sections and
    // its height fits a world height of 8 ((8+1)/2 - 1 = 3)
    let mut g = Graph::new();
    let cam = coord(128, 128, 128);
    for x in 123u8..=133 {
        for y in 125u8..=131 {
            for z in 123u8..=133 {
                g.add_section(coord(x, y, z), true, all_pass());
            }
        }
    }
    let ctx = LocalCoordContext::new(cam, coord(123, 125, 123), coord(133, 131, 133));
    g.cull(&ctx, false);
    // the largest ring of this fully connected box: walk distance 7,
    // 16 + 2*20 + 2*20 + 2*16 sections once clipped by the box walls
    assert_eq!(g.last_bfs_peak_queue_len(), 128);
    let bound = get_bfs_queue_max_size(10, 8, false) as usize;
    assert_eq!(bound, 232);
    assert!(g.last_bfs_peak_queue_len() <= bound);
    // and it sits far below the capacity sized for the largest
    // configurable view distance and world height
    let max_bound = get_bfs_queue_max_size(127, 254, true) as usize;
    assert!(g.last_bfs_peak_queue_len() <= max_bound);
}

#[test]
fn queue_bound_formula_matches_known_values() {
    // unclipped: one ring at the full view distance holds 4*r*r + 2 cells
    assert_eq!(get_bfs_queue_max_size(1, 254, false), 6);
    assert_eq!(get_bfs_queue_max_size(2, 254, false), 18);
    assert_eq!(get_bfs_queue_max_size(5, 254, false), 102);
    // clipped by world height: 4*r + 4*h*(2*r - h - 1) with h = 3
    assert_eq!(get_bfs_queue_max_size(5, 8, false), 92);
    // frustum culling halves the bound, rounding up
    assert_eq!(get_bfs_queue_max_size(5, 254, true), 51);
    assert_eq!(get_bfs_queue_max_size(127, 254, true), 32258);
}

#[test]
fn camera_without_geometry_is_not_marked_visible() {
    let mut g = Graph::new();
    g.add_section(coord(60, 60, 61), true, all_pass());
    let ctx = LocalCoordContext::new(coord(60, 60, 60), coord(58, 58, 58), coord(62, 62, 62));
    g.cull(&ctx, false);
    // the camera section holds no geometry, so it is not a draw candidate
    assert!(!g.section_is_visible(coord(60, 60, 60)));
    // but its neighbor is reached through the camera's open matrix... the
    // camera's own matrix is empty by default, so nothing propagates
    assert!(!g.section_is_visible(coord(60, 60, 61)));
}

#[test]
fn camera_matrix_governs_first_hop() {
    let mut g = Graph::new();
    g.add_section(coord(60, 60, 60), true, all_pass());
    g.add_section(coord(60, 60, 61), true, all_pass());
    let ctx = LocalCoordContext::new(coord(60, 60, 60), coord(58, 58, 58), coord(62, 62, 62));
    g.cull(&ctx, false);
    assert!(g.section_is_visible(coord(60, 60, 60)));
    assert!(g.section_is_visible(coord(60, 60, 61)));
}
