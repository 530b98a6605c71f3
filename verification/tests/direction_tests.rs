use visibility_graph::direction::{GraphDirection, GraphDirectionSet};

#[test]
fn opposite_is_involutive_for_all_directions() {
    let dirs = [
        GraphDirection::NegX,
        GraphDirection::NegY,
        GraphDirection::NegZ,
        GraphDirection::PosX,
        GraphDirection::PosY,
        GraphDirection::PosZ,
    ];
    for d in dirs {
        assert_eq!(d.opposite().opposite(), d);
        assert_ne!(d.opposite(), d);
    }
}

#[test]
fn opposite_pairs_match_axes() {
    assert_eq!(GraphDirection::NegX.opposite(), GraphDirection::PosX);
    assert_eq!(GraphDirection::NegY.opposite(), GraphDirection::PosY);
    assert_eq!(GraphDirection::NegZ.opposite(), GraphDirection::PosZ);
    assert_eq!(GraphDirection::PosX.opposite(), GraphDirection::NegX);
    assert_eq!(GraphDirection::PosY.opposite(), GraphDirection::NegY);
    assert_eq!(GraphDirection::PosZ.opposite(), GraphDirection::NegZ);
}

#[test]
fn iteration_yields_members_once_in_ascending_order() {
    // 0b100101 holds NegX (bit 0), NegZ (bit 2) and PosZ (bit 5)
    let set = GraphDirectionSet::from(0b100101);
    let mut it = set.iter();
    assert_eq!(it.next(), Some(GraphDirection::NegX));
    assert_eq!(it.next(), Some(GraphDirection::NegZ));
    assert_eq!(it.next(), Some(GraphDirection::PosZ));
    assert_eq!(it.next(), None);
    assert_eq!(it.next(), None);
}

#[test]
fn iterating_the_empty_set_yields_nothing() {
    let set = GraphDirectionSet::none();
    let mut it = set.iter();
    assert_eq!(it.next(), None);
}

#[test]
fn iterating_the_full_set_yields_all_six_in_order() {
    let set = GraphDirectionSet::all();
    let mut it = set.iter();
    let mut seen: Vec<u8> = Vec::new();
    while let Some(d) = it.next() {
        seen.push(d.as_index());
    }
    assert_eq!(seen, vec![0, 1, 2, 3, 4, 5]);
}

#[test]
fn set_operations_behave_like_bitsets() {
    let mut a = GraphDirectionSet::none();
    assert!(a.is_empty());
    a.add(GraphDirection::PosY);
    assert!(!a.is_empty());
    assert!(a.contains(GraphDirection::PosY));
    assert!(!a.contains(GraphDirection::NegY));

    let b = GraphDirectionSet::single(GraphDirection::NegY);
    let both = a.intersect(b);
    assert!(both.is_empty());

    let mut c = GraphDirectionSet::none();
    c.add_all(a);
    c.add_all(b);
    assert!(c.contains(GraphDirection::PosY));
    assert!(c.contains(GraphDirection::NegY));
    assert_eq!(c.intersect(a), a);
}
