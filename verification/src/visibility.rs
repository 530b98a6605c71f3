//! Per-section portal connectivity: a symmetric 6x6 face-to-face matrix
//! packed into the low 15 bits of a 16-bit word.

use vstd::prelude::*;
use crate::direction::{set_has, GraphDirection, GraphDirectionSet};

verus! {

/// Number of packed bits that precede row `h` of the strict lower
/// triangle: the triangular number `h * (h - 1) / 2`, written out so no
/// nonlinear arithmetic is needed.
pub open spec fn tri(h: int) -> int {
    if h <= 1 {
        0
    } else if h == 2 {
        1
    } else if h == 3 {
        3
    } else if h == 4 {
        6
    } else {
        10
    }
}

/// Index of the packed bit for the unordered face pair `{a, b}`: the pairs
/// are laid out row by row over the strict lower triangle of the 6x6
/// matrix, so pair `{a, b}` with `a > b` sits at bit `tri(a) + b`.
pub open spec fn pair_bit_index(a: int, b: int) -> int {
    let h = if a > b { a } else { b };
    let l = if a > b { b } else { a };
    tri(h) + l
}

/// True when the packed matrix `vis` connects faces `a` and `b`
/// (`a != b`, both in 0..6).
pub open spec fn conn(vis: u16, a: int, b: int) -> bool {
    (vis >> (pair_bit_index(a, b) as u16)) & 1 == 1
}

/// True when bit `a*6 + b` of the raw 64-bit visibility sample is set:
/// the row-major matrix entry saying a sample can pass between face `a`
/// and face `b`.
pub open spec fn raw_conn(raw: u64, a: int, b: int) -> bool {
    (raw >> ((a * 6 + b) as u64)) & 1 == 1
}

/// The packed value extracted from a raw sample: the strict lower triangle
/// of the row-major 6x6 matrix, compacted into 15 bits.
pub open spec fn pack_bits(raw: u64) -> u16 {
    (((raw >> 6) & 0b1) as u16) | (((raw >> 11) & 0b110) as u16) | (((raw >> 15)
        & 0b111000) as u16) | (((raw >> 18) & 0b1111000000) as u16) | (((raw >> 20)
        & 0b111110000000000) as u16)
}

/// True when some face in the incoming set `inc` connects through the
/// matrix `vis` to face `d`: the face `d` is then a possible exit.
pub open spec fn outgoing_has(vis: u16, inc: u8, d: int) -> bool {
    exists|g: int| 0 <= g < 6 && g != d && set_has(inc, g) && #[trigger] conn(vis, d, g)
}

/// The packed portal-connectivity matrix of one section: bit `{i, j}` set
/// means a sample entering through face `i` can leave through face `j`.
/// The top bit of the packed word is reserved and always zero.
#[derive(Clone, Copy, PartialEq, Eq, Structural, Debug)]
pub struct VisibilityData {
    bits: u16,
}

impl View for VisibilityData {
    type V = u16;

    closed spec fn view(&self) -> u16 {
        self.bits
    }
}

impl VisibilityData {
    /// The matrix value with no connectivity at all.
    pub closed spec fn empty_spec() -> VisibilityData {
        VisibilityData { bits: 0 }
    }

    /// The matrix with no connectivity at all: no face pair passes.
    pub fn empty() -> (r: VisibilityData)
        ensures
            r@ == 0,
            r == VisibilityData::empty_spec(),
    {
        VisibilityData { bits: 0 }
    }

    /// Packs a raw 64-bit visibility sample: the strict lower triangle of
    /// its row-major 6x6 matrix is extracted bit by bit, so the packed
    /// value is a function of those 15 matrix bits alone.
    pub fn pack(raw: u64) -> (r: VisibilityData)
        ensures
            r@ == pack_bits(raw),
            r@ < 0x8000,
            forall|a: int, b: int|
                0 <= b < a < 6 ==> #[trigger] conn(r@, a, b) == raw_conn(raw, a, b),
    {
        let p: u16 = (((raw >> 6) & 0b1) as u16) | (((raw >> 11) & 0b110) as u16) | (((raw >> 15)
            & 0b111000) as u16) | (((raw >> 18) & 0b1111000000) as u16) | (((raw >> 20)
            & 0b111110000000000) as u16);
        proof {
            lemma_pack_bits_conn(raw);
            assert(pack_bits(raw) < 0x8000) by (bit_vector);
        }
        VisibilityData { bits: p }
    }

    /// Reads one cell of the symmetric matrix: true when faces `a` and `b`
    /// are connected.
    pub fn connected(&self, a: u8, b: u8) -> (r: bool)
        requires
            a < 6,
            b < 6,
            a != b,
        ensures
            r == conn(self@, a as int, b as int),
    {
        let hi = if a > b {
            a
        } else {
            b
        };
        let lo = if a > b {
            b
        } else {
            a
        };
        let t: u16 = tri_base(hi) + lo as u16;
        ((self.bits >> t) & 1) == 1
    }

    /// The set of faces through which flow may exit this section, given the
    /// set of faces through which it entered: face `d` is an exit exactly
    /// when some distinct incoming face connects to `d` in the matrix.
    pub fn get_outgoing_directions(&self, incoming: GraphDirectionSet) -> (r: GraphDirectionSet)
        ensures
            r@ < 64,
            forall|d: int|
                0 <= d < 6 ==> (#[trigger] set_has(r@, d) <==> outgoing_has(self@, incoming@, d)),
    {
        let mut out = GraphDirectionSet::none();
        proof {
            assert forall|g: int| !set_has(0, g) by {
                crate::direction::lemma_empty_set_has_none(g);
            }
        }
        let mut i: u8 = 0;
        while i < 6
            invariant
                i <= 6,
                out@ < 64,
                forall|d: int| #[trigger]
                    set_has(out@, d) <==> (0 <= d < i && outgoing_has(self@, incoming@, d)),
            decreases 6 - i,
        {
            let mut j: u8 = 0;
            let mut found = false;
            while j < 6
                invariant
                    j <= 6,
                    i < 6,
                    found == exists|g: int|
                        0 <= g < j && g != i as int && set_has(incoming@, g) && #[trigger] conn(
                            self@,
                            i as int,
                            g,
                        ),
                decreases 6 - j,
            {
                if j != i && self.connected(i, j) && incoming.contains(
                    GraphDirection::from_int_unchecked(j),
                ) {
                    found = true;
                }
                j = j + 1;
            }
            if found {
                out.add(GraphDirection::from_int_unchecked(i));
            }
            i = i + 1;
        }
        out
    }
}

/// The base bit index of matrix row `h` in the packed triangle.
fn tri_base(h: u8) -> (t: u16)
    requires
        1 <= h < 6,
    ensures
        t as int == tri(h as int),
        t <= 10,
{
    if h == 1 {
        0
    } else if h == 2 {
        1
    } else if h == 3 {
        3
    } else if h == 4 {
        6
    } else {
        10
    }
}

/// Each packed bit equals the matching lower-triangle bit of the raw
/// sample.
#[verifier::rlimit(80)]
proof fn lemma_pack_bits_conn(raw: u64)
    ensures
        forall|a: int, b: int|
            0 <= b < a < 6 ==> #[trigger] conn(pack_bits(raw), a, b) == raw_conn(raw, a, b),
{
    let p = pack_bits(raw);
    assert((((p >> 0u16) & 1 == 1) == ((raw >> 6u64) & 1 == 1)) && (((p >> 1u16) & 1 == 1) == ((
    raw >> 12u64) & 1 == 1)) && (((p >> 2u16) & 1 == 1) == ((raw >> 13u64) & 1 == 1)) && (((p
        >> 3u16) & 1 == 1) == ((raw >> 18u64) & 1 == 1)) && (((p >> 4u16) & 1 == 1) == ((raw
        >> 19u64) & 1 == 1)) && (((p >> 5u16) & 1 == 1) == ((raw >> 20u64) & 1 == 1)) && (((p
        >> 6u16) & 1 == 1) == ((raw >> 24u64) & 1 == 1)) && (((p >> 7u16) & 1 == 1) == ((raw
        >> 25u64) & 1 == 1)) && (((p >> 8u16) & 1 == 1) == ((raw >> 26u64) & 1 == 1)) && (((p
        >> 9u16) & 1 == 1) == ((raw >> 27u64) & 1 == 1)) && (((p >> 10u16) & 1 == 1) == ((raw
        >> 30u64) & 1 == 1)) && (((p >> 11u16) & 1 == 1) == ((raw >> 31u64) & 1 == 1)) && (((p
        >> 12u16) & 1 == 1) == ((raw >> 32u64) & 1 == 1)) && (((p >> 13u16) & 1 == 1) == ((raw
        >> 33u64) & 1 == 1)) && (((p >> 14u16) & 1 == 1) == ((raw >> 34u64) & 1 == 1)))
        by (bit_vector)
        requires
            p == (((raw >> 6) & 0b1) as u16) | (((raw >> 11) & 0b110) as u16) | (((raw >> 15)
                & 0b111000) as u16) | (((raw >> 18) & 0b1111000000) as u16) | (((raw >> 20)
                & 0b111110000000000) as u16),
    ;
    assert forall|a: int, b: int| 0 <= b < a < 6 implies #[trigger] conn(p, a, b) == raw_conn(
        raw,
        a,
        b,
    ) by {
        assert(pair_bit_index(a, b) == tri(a) + b);
    }
}

/// Law: the packed value is determined by the 15 lower-triangle matrix bits
/// of the raw sample alone: two samples that agree on those bits pack to
/// the same value, whatever their other 49 bits hold.
pub proof fn lemma_pack_depends_only_on_matrix_bits(r1: u64, r2: u64)
    requires
        forall|a: int, b: int|
            0 <= b < a < 6 ==> #[trigger] raw_conn(r1, a, b) == raw_conn(r2, a, b),
    ensures
        pack_bits(r1) == pack_bits(r2),
{
    let p1 = pack_bits(r1);
    let p2 = pack_bits(r2);
    assert(raw_conn(r1, 1, 0) == raw_conn(r2, 1, 0));
    assert(raw_conn(r1, 2, 0) == raw_conn(r2, 2, 0));
    assert(raw_conn(r1, 2, 1) == raw_conn(r2, 2, 1));
    assert(raw_conn(r1, 3, 0) == raw_conn(r2, 3, 0));
    assert(raw_conn(r1, 3, 1) == raw_conn(r2, 3, 1));
    assert(raw_conn(r1, 3, 2) == raw_conn(r2, 3, 2));
    assert(raw_conn(r1, 4, 0) == raw_conn(r2, 4, 0));
    assert(raw_conn(r1, 4, 1) == raw_conn(r2, 4, 1));
    assert(raw_conn(r1, 4, 2) == raw_conn(r2, 4, 2));
    assert(raw_conn(r1, 4, 3) == raw_conn(r2, 4, 3));
    assert(raw_conn(r1, 5, 0) == raw_conn(r2, 5, 0));
    assert(raw_conn(r1, 5, 1) == raw_conn(r2, 5, 1));
    assert(raw_conn(r1, 5, 2) == raw_conn(r2, 5, 2));
    assert(raw_conn(r1, 5, 3) == raw_conn(r2, 5, 3));
    assert(raw_conn(r1, 5, 4) == raw_conn(r2, 5, 4));
    assert(p1 == p2) by (bit_vector)
        requires
            p1 == (((r1 >> 6) & 0b1) as u16) | (((r1 >> 11) & 0b110) as u16) | (((r1 >> 15)
                & 0b111000) as u16) | (((r1 >> 18) & 0b1111000000) as u16) | (((r1 >> 20)
                & 0b111110000000000) as u16),
            p2 == (((r2 >> 6) & 0b1) as u16) | (((r2 >> 11) & 0b110) as u16) | (((r2 >> 15)
                & 0b111000) as u16) | (((r2 >> 18) & 0b1111000000) as u16) | (((r2 >> 20)
                & 0b111110000000000) as u16),
            ((r1 >> 6u64) & 1 == 1) == ((r2 >> 6u64) & 1 == 1),
            ((r1 >> 12u64) & 1 == 1) == ((r2 >> 12u64) & 1 == 1),
            ((r1 >> 13u64) & 1 == 1) == ((r2 >> 13u64) & 1 == 1),
            ((r1 >> 18u64) & 1 == 1) == ((r2 >> 18u64) & 1 == 1),
            ((r1 >> 19u64) & 1 == 1) == ((r2 >> 19u64) & 1 == 1),
            ((r1 >> 20u64) & 1 == 1) == ((r2 >> 20u64) & 1 == 1),
            ((r1 >> 24u64) & 1 == 1) == ((r2 >> 24u64) & 1 == 1),
            ((r1 >> 25u64) & 1 == 1) == ((r2 >> 25u64) & 1 == 1),
            ((r1 >> 26u64) & 1 == 1) == ((r2 >> 26u64) & 1 == 1),
            ((r1 >> 27u64) & 1 == 1) == ((r2 >> 27u64) & 1 == 1),
            ((r1 >> 30u64) & 1 == 1) == ((r2 >> 30u64) & 1 == 1),
            ((r1 >> 31u64) & 1 == 1) == ((r2 >> 31u64) & 1 == 1),
            ((r1 >> 32u64) & 1 == 1) == ((r2 >> 32u64) & 1 == 1),
            ((r1 >> 33u64) & 1 == 1) == ((r2 >> 33u64) & 1 == 1),
            ((r1 >> 34u64) & 1 == 1) == ((r2 >> 34u64) & 1 == 1),
    ;
}

/// Law: enlarging the incoming set can only enlarge the outgoing set: if
/// every face of `inc_a` is also in `inc_b`, every exit reachable from
/// `inc_a` is reachable from `inc_b`.
pub proof fn lemma_outgoing_monotonic(vis: u16, inc_a: u8, inc_b: u8)
    requires
        forall|g: int| #[trigger] set_has(inc_a, g) ==> set_has(inc_b, g),
    ensures
        forall|d: int| #[trigger]
            outgoing_has(vis, inc_a, d) ==> outgoing_has(vis, inc_b, d),
{
    assert forall|d: int| #[trigger] outgoing_has(vis, inc_a, d) implies outgoing_has(
        vis,
        inc_b,
        d,
    ) by {
        let g = choose|g: int|
            0 <= g < 6 && g != d && set_has(inc_a, g) && #[trigger] conn(vis, d, g);
        assert(set_has(inc_b, g));
        assert(0 <= g < 6 && g != d && set_has(inc_b, g) && conn(vis, d, g));
    }
}

} // verus!
