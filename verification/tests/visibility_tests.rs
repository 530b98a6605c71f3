use visibility_graph::direction::{GraphDirection, GraphDirectionSet};
use visibility_graph::visibility::VisibilityData;

/// Reads matrix entry (a, b) straight from the raw sample, symmetrizing
/// over the strict lower triangle exactly as `pack` extracts it.
fn raw_pair(raw: u64, a: u8, b: u8) -> bool {
    let (hi, lo) = if a > b { (a, b) } else { (b, a) };
    (raw >> (hi * 6 + lo)) & 1 == 1
}

/// Brute-force outgoing set: face d exits when some distinct incoming
/// face g connects to d.
fn brute_force_outgoing(raw: u64, incoming: u8) -> Vec<u8> {
    let mut out = Vec::new();
    for d in 0u8..6 {
        let mut hit = false;
        for g in 0u8..6 {
            if g != d && (incoming >> g) & 1 == 1 && raw_pair(raw, d, g) {
                hit = true;
            }
        }
        if hit {
            out.push(d);
        }
    }
    out
}

#[test]
fn pack_is_deterministic() {
    let raw: u64 = 0x0000_000F_F0F0_55AA;
    assert_eq!(VisibilityData::pack(raw), VisibilityData::pack(raw));
}

#[test]
fn pack_ignores_bits_outside_the_lower_triangle() {
    // bits 0..6 (row 0), the diagonal and the upper triangle do not
    // matter: flip them all and the packed result stays the same
    let matrix_only: u64 = (1 << 6) | (1 << 13) | (1 << 20) | (1 << 27) | (1 << 34);
    let with_noise: u64 = matrix_only | 0b111111 | (1 << 7) | (1 << 14) | (1 << 35) | (1 << 63);
    assert_eq!(
        VisibilityData::pack(matrix_only),
        VisibilityData::pack(with_noise)
    );
}

#[test]
fn outgoing_directions_match_brute_force_for_all_incoming_sets() {
    let samples: [u64; 6] = [
        0,
        u64::MAX,
        0x0000_000F_F0F0_55AA,
        0x0000_0007_C000_0040,
        0x1234_5678_9ABC_DEF0,
        (1 << 6) | (1 << 12) | (1 << 18) | (1 << 24) | (1 << 30),
    ];
    for &raw in samples.iter() {
        let packed = VisibilityData::pack(raw);
        for incoming in 0u8..64 {
            let expected = brute_force_outgoing(raw, incoming);
            let got = packed.get_outgoing_directions(GraphDirectionSet::from(incoming));
            for d in 0u8..6 {
                let dir = GraphDirection::from_int_unchecked(d);
                assert_eq!(
                    got.contains(dir),
                    expected.contains(&d),
                    "raw {raw:#x} incoming {incoming:#08b} direction {d}"
                );
            }
        }
    }
}

#[test]
fn outgoing_is_monotone_in_the_incoming_set() {
    let raw: u64 = 0x0000_000F_F0F0_55AA;
    let packed = VisibilityData::pack(raw);
    // a (subset) and b (superset)
    let a = GraphDirectionSet::from(0b000101);
    let b = GraphDirectionSet::from(0b101101);
    let out_a = packed.get_outgoing_directions(a);
    let out_b = packed.get_outgoing_directions(b);
    for d in 0u8..6 {
        let dir = GraphDirection::from_int_unchecked(d);
        if out_a.contains(dir) {
            assert!(out_b.contains(dir));
        }
    }
}

#[test]
fn empty_matrix_lets_nothing_out() {
    let packed = VisibilityData::empty();
    let out = packed.get_outgoing_directions(GraphDirectionSet::all());
    assert!(out.is_empty());
}

#[test]
fn connected_reads_the_packed_triangle() {
    // connect exactly the pair {1, 0}: raw bit 1*6+0 == 6
    let packed = VisibilityData::pack(1 << 6);
    assert!(packed.connected(0, 1));
    assert!(packed.connected(1, 0));
    assert!(!packed.connected(2, 0));
    assert!(!packed.connected(5, 4));
}
