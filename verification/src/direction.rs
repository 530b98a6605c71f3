//! The six axis-aligned directions between neighboring sections, and small
//! bitsets of them.

use vstd::prelude::*;

verus! {

/// One of the six axis-aligned directions in which a sample can leave a
/// section. The canonical order is `NegX, NegY, NegZ, PosX, PosY, PosZ`,
/// with indices 0 through 5.
#[derive(Clone, Copy, PartialEq, Eq, Structural, Debug)]
pub enum GraphDirection {
    NegX,
    NegY,
    NegZ,
    PosX,
    PosY,
    PosZ,
}

/// The canonical index (0..6) of a direction.
pub open spec fn dir_index(d: GraphDirection) -> int {
    match d {
        GraphDirection::NegX => 0,
        GraphDirection::NegY => 1,
        GraphDirection::NegZ => 2,
        GraphDirection::PosX => 3,
        GraphDirection::PosY => 4,
        GraphDirection::PosZ => 5,
    }
}

/// The direction with the opposite sign on the same axis.
pub open spec fn opposite_dir(d: GraphDirection) -> GraphDirection {
    match d {
        GraphDirection::NegX => GraphDirection::PosX,
        GraphDirection::NegY => GraphDirection::PosY,
        GraphDirection::NegZ => GraphDirection::PosZ,
        GraphDirection::PosX => GraphDirection::NegX,
        GraphDirection::PosY => GraphDirection::NegY,
        GraphDirection::PosZ => GraphDirection::NegZ,
    }
}

/// Law: reversing a direction twice yields the original direction, for every
/// valid direction.
pub proof fn lemma_opposite_involution(d: GraphDirection)
    ensures
        opposite_dir(opposite_dir(d)) == d,
{
}

impl GraphDirection {
    /// The direction with the opposite sign on the same axis.
    pub fn opposite(&self) -> (r: GraphDirection)
        ensures
            r == opposite_dir(*self),
            opposite_dir(r) == *self,
    {
        match self {
            GraphDirection::NegX => GraphDirection::PosX,
            GraphDirection::NegY => GraphDirection::PosY,
            GraphDirection::NegZ => GraphDirection::PosZ,
            GraphDirection::PosX => GraphDirection::NegX,
            GraphDirection::PosY => GraphDirection::NegY,
            GraphDirection::PosZ => GraphDirection::NegZ,
        }
    }

    /// The canonical index of this direction, in 0..6.
    pub fn as_index(&self) -> (r: u8)
        ensures
            r as int == dir_index(*self),
    {
        match self {
            GraphDirection::NegX => 0,
            GraphDirection::NegY => 1,
            GraphDirection::NegZ => 2,
            GraphDirection::PosX => 3,
            GraphDirection::PosY => 4,
            GraphDirection::PosZ => 5,
        }
    }

    /// The direction with the given canonical index. Callers must
    /// guarantee the index is in 0..6; nothing else is accepted.
    pub fn from_int_unchecked(val: u8) -> (r: GraphDirection)
        requires
            val <= 5,
        ensures
            dir_index(r) == val as int,
    {
        if val == 0 {
            GraphDirection::NegX
        } else if val == 1 {
            GraphDirection::NegY
        } else if val == 2 {
            GraphDirection::NegZ
        } else if val == 3 {
            GraphDirection::PosX
        } else if val == 4 {
            GraphDirection::PosY
        } else {
            GraphDirection::PosZ
        }
    }
}

/// True when the bitset `bits` contains the direction with index `d`.
/// Only indices 0..6 can ever be members.
pub open spec fn set_has(bits: u8, d: int) -> bool {
    0 <= d < 6 && (bits >> (d as u8)) & 1 == 1
}

/// The bit pattern of the set of all six directions.
pub open spec fn all_dirs_bits() -> u8 {
    0x3f
}

/// The empty direction set has no members.
pub proof fn lemma_empty_set_has_none(d: int)
    ensures
        !set_has(0, d),
{
    if 0 <= d < 6 {
        let du = d as u8;
        assert((0u8 >> du) & 1 == 0) by (bit_vector);
    }
}

/// The full direction set contains every valid direction.
pub proof fn lemma_full_set_has_all(d: int)
    requires
        0 <= d < 6,
    ensures
        set_has(all_dirs_bits(), d),
{
    let du = d as u8;
    assert(du < 6 ==> (0x3fu8 >> du) & 1 == 1) by (bit_vector);
}

/// The direction with canonical index `d` (0..6).
pub open spec fn dir_of_index(d: int) -> GraphDirection {
    if d == 0 {
        GraphDirection::NegX
    } else if d == 1 {
        GraphDirection::NegY
    } else if d == 2 {
        GraphDirection::NegZ
    } else if d == 3 {
        GraphDirection::PosX
    } else if d == 4 {
        GraphDirection::PosY
    } else {
        GraphDirection::PosZ
    }
}

/// The members of `bits` with canonical index at least `k`, in ascending
/// index order.
pub open spec fn members_from(bits: u8, k: int) -> Seq<GraphDirection>
    decreases 6 - k,
{
    if k < 0 || k >= 6 {
        Seq::empty()
    } else if set_has(bits, k) {
        seq![dir_of_index(k)] + members_from(bits, k + 1)
    } else {
        members_from(bits, k + 1)
    }
}

/// The members of `bits`, in ascending canonical order: the sequence an
/// iteration of the set yields.
pub open spec fn members_of(bits: u8) -> Seq<GraphDirection> {
    members_from(bits, 0)
}

/// Induction core for the iteration law, over the suffix of members with
/// index at least `k`.
proof fn lemma_members_from_props(bits: u8, k: int)
    requires
        0 <= k <= 6,
    ensures
        forall|i: int|
            0 <= i < members_from(bits, k).len() ==> k <= dir_index(
                #[trigger] members_from(bits, k)[i],
            ) < 6,
        forall|i: int, j: int|
            0 <= i < j < members_from(bits, k).len() ==> dir_index(members_from(bits, k)[i])
                < dir_index(members_from(bits, k)[j]),
        forall|d: GraphDirection|
            (exists|i: int| 0 <= i < members_from(bits, k).len() && #[trigger] members_from(
                bits,
                k,
            )[i] == d) <==> (set_has(bits, dir_index(d)) && dir_index(d) >= k),
    decreases 6 - k,
{
    if k < 6 {
        lemma_members_from_props(bits, k + 1);
        let rest = members_from(bits, k + 1);
        if set_has(bits, k) {
            let s = members_from(bits, k);
            assert(s == seq![dir_of_index(k)] + rest);
            assert(s[0] == dir_of_index(k));
            assert(forall|i: int| 1 <= i < s.len() ==> s[i] == rest[i - 1]);
            assert(dir_index(dir_of_index(k)) == k);
            assert forall|d: GraphDirection|
                (exists|i: int| 0 <= i < s.len() && #[trigger] s[i] == d) <==> (set_has(
                    bits,
                    dir_index(d),
                ) && dir_index(d) >= k) by {
                if set_has(bits, dir_index(d)) && dir_index(d) >= k {
                    if dir_index(d) == k {
                        assert(dir_of_index(k) == d);
                        assert(s[0] == d);
                    } else {
                        let i = choose|i: int| 0 <= i < rest.len() && #[trigger] rest[i] == d;
                        assert(s[i + 1] == d);
                    }
                }
            }
        }
    }
}

/// Law: iterating a direction set yields each member exactly once, in
/// ascending canonical order, and iterating the empty set yields nothing.
/// Stated over the canonical member sequence `members_of`.
pub proof fn lemma_iteration_ascending_and_complete(bits: u8)
    ensures
        forall|i: int, j: int|
            0 <= i < j < members_of(bits).len() ==> dir_index(members_of(bits)[i]) < dir_index(
                members_of(bits)[j],
            ),
        forall|d: GraphDirection|
            (exists|i: int| 0 <= i < members_of(bits).len() && #[trigger] members_of(bits)[i]
                == d) <==> set_has(bits, dir_index(d)),
        bits == 0 ==> members_of(bits).len() == 0,
{
    lemma_members_from_props(bits, 0);
    assert forall|d: GraphDirection|
        (exists|i: int| 0 <= i < members_of(bits).len() && #[trigger] members_of(bits)[i] == d)
            <==> set_has(bits, dir_index(d)) by {
        assert(dir_index(d) >= 0);
    }
    if bits == 0 {
        assert forall|d: int| !set_has(0u8, d) by {
            lemma_empty_set_has_none(d);
        }
        if members_of(bits).len() > 0 {
            let d = members_of(bits)[0];
            assert(set_has(bits, dir_index(d)));
        }
    }
}

/// Members below `k` do not change the suffix sequence.
proof fn lemma_members_from_skip(bits: u8, j: int, k: int)
    requires
        0 <= j <= k <= 6,
        forall|g: int| j <= g < k ==> !set_has(bits, g),
    ensures
        members_from(bits, j) == members_from(bits, k),
    decreases k - j,
{
    if j < k {
        lemma_members_from_skip(bits, j + 1, k);
    }
}

/// Two sets that agree on all indices at or above `k` have the same
/// suffix sequence from `k` on.
proof fn lemma_members_from_agree(a: u8, b: u8, k: int)
    requires
        0 <= k <= 6,
        forall|g: int| k <= g < 6 ==> (set_has(a, g) <==> set_has(b, g)),
    ensures
        members_from(a, k) == members_from(b, k),
    decreases 6 - k,
{
    if k < 6 {
        lemma_members_from_agree(a, b, k + 1);
    }
}

/// Law: one iteration step peels the least member off the member
/// sequence: when `k` is the least member of `b` and `nb` is `b` without
/// `k`, the members of `b` are the direction of `k` followed by the
/// members of `nb`.
pub proof fn lemma_iteration_step(b: u8, k: int, nb: u8)
    requires
        0 <= k < 6,
        set_has(b, k),
        forall|g: int| g < k ==> !set_has(b, g),
        forall|g: int| #[trigger] set_has(nb, g) <==> (set_has(b, g) && g != k),
    ensures
        members_of(b) == seq![dir_of_index(k)] + members_of(nb),
{
    lemma_members_from_skip(b, 0, k);
    assert(members_from(b, k) == seq![dir_of_index(k)] + members_from(b, k + 1));
    lemma_members_from_agree(b, nb, k + 1);
    assert forall|g: int| 0 <= g < k + 1 implies !set_has(nb, g) by {
        assert(set_has(nb, g) <==> (set_has(b, g) && g != k));
    }
    lemma_members_from_skip(nb, 0, k + 1);
}

/// A set of directions, stored as a bitset over the canonical indices.
/// Bits 6 and 7 are never set.
#[derive(Clone, Copy, PartialEq, Eq, Structural, Debug)]
pub struct GraphDirectionSet {
    bits: u8,
}

impl View for GraphDirectionSet {
    type V = u8;

    closed spec fn view(&self) -> u8 {
        self.bits
    }
}

impl GraphDirectionSet {
    /// The direction set with exactly the given bit pattern.
    pub fn from(packed: u8) -> (r: GraphDirectionSet)
        requires
            packed < 64,
        ensures
            r@ == packed,
    {
        GraphDirectionSet { bits: packed }
    }

    /// The empty direction set.
    pub fn none() -> (r: GraphDirectionSet)
        ensures
            r@ == 0,
    {
        GraphDirectionSet { bits: 0 }
    }

    /// The set of all six directions.
    pub fn all() -> (r: GraphDirectionSet)
        ensures
            r@ == all_dirs_bits(),
            forall|d: int| 0 <= d < 6 ==> set_has(r@, d),
    {
        proof {
            assert forall|d: int| 0 <= d < 6 implies set_has(all_dirs_bits(), d) by {
                lemma_full_set_has_all(d);
            }
        }
        GraphDirectionSet { bits: 0x3f }
    }

    /// The set containing exactly one direction.
    pub fn single(direction: GraphDirection) -> (r: GraphDirectionSet)
        ensures
            r@ < 64,
            forall|g: int| set_has(r@, g) <==> g == dir_index(direction),
    {
        let mut set = GraphDirectionSet::none();
        proof {
            assert forall|g: int| !set_has(0, g) by {
                lemma_empty_set_has_none(g);
            }
        }
        set.add(direction);
        set
    }

    /// Adds one direction to the set.
    pub fn add(&mut self, dir: GraphDirection)
        ensures
            final(self)@ == old(self)@ | (1u8 << dir.as_index_spec()),
            final(self)@ != 0,
            old(self)@ < 64 ==> final(self)@ < 64,
            forall|g: int|
                set_has(final(self)@, g) <==> (set_has(old(self)@, g) || g == dir_index(dir)),
    {
        let idx = dir.as_index();
        let old_bits = self.bits;
        self.bits = self.bits | (1u8 << idx);
        proof {
            let b = old_bits;
            let nb = self.bits;
            assert(nb != 0 && (b < 64 ==> nb < 64)) by (bit_vector)
                requires
                    nb == b | (1u8 << idx),
                    idx < 6,
            ;
            assert forall|g: int| set_has(nb, g) <==> (set_has(b, g) || g == idx as int) by {
                if 0 <= g < 6 {
                    let gu = g as u8;
                    assert(((nb >> gu) & 1 == 1) <==> (((b >> gu) & 1 == 1) || gu == idx))
                        by (bit_vector)
                        requires
                            nb == b | (1u8 << idx),
                            idx < 6,
                            gu < 6,
                    ;
                }
            }
        }
    }

    /// Adds every direction of `set` to this set.
    pub fn add_all(&mut self, set: GraphDirectionSet)
        ensures
            final(self)@ == old(self)@ | set@,
            forall|g: int|
                set_has(final(self)@, g) <==> (set_has(old(self)@, g) || set_has(set@, g)),
            old(self)@ < 64 && set@ < 64 ==> final(self)@ < 64,
    {
        let old_bits = self.bits;
        self.bits = self.bits | set.bits;
        proof {
            let a = old_bits;
            let b = set.bits;
            let nb = self.bits;
            assert(a < 64 && b < 64 ==> nb < 64) by (bit_vector)
                requires
                    nb == a | b,
            ;
            assert forall|g: int|
                set_has(nb, g) <==> (set_has(a, g) || set_has(b, g)) by {
                if 0 <= g < 6 {
                    let gu = g as u8;
                    assert(((nb >> gu) & 1 == 1) <==> (((a >> gu) & 1 == 1) || ((b >> gu) & 1
                        == 1))) by (bit_vector)
                        requires
                            nb == a | b,
                    ;
                }
            }
        }
    }

    /// The set of directions present in both sets.
    pub fn intersect(&self, other: GraphDirectionSet) -> (r: GraphDirectionSet)
        ensures
            r@ == self@ & other@,
            forall|g: int| set_has(r@, g) <==> (set_has(self@, g) && set_has(other@, g)),
            self@ < 64 ==> r@ < 64,
            other@ < 64 ==> r@ < 64,
    {
        let r = GraphDirectionSet { bits: self.bits & other.bits };
        proof {
            let a = self.bits;
            let b = other.bits;
            let nb = r.bits;
            assert((a < 64 ==> nb < 64) && (b < 64 ==> nb < 64)) by (bit_vector)
                requires
                    nb == a & b,
            ;
            assert forall|g: int|
                set_has(nb, g) <==> (set_has(a, g) && set_has(b, g)) by {
                if 0 <= g < 6 {
                    let gu = g as u8;
                    assert(((nb >> gu) & 1 == 1) <==> (((a >> gu) & 1 == 1) && ((b >> gu) & 1
                        == 1))) by (bit_vector)
                        requires
                            nb == a & b,
                    ;
                }
            }
        }
        r
    }

    /// True when the set contains the given direction.
    pub fn contains(&self, dir: GraphDirection) -> (r: bool)
        ensures
            r == set_has(self@, dir_index(dir)),
    {
        let idx = dir.as_index();
        let r = (self.bits & (1u8 << idx)) != 0;
        proof {
            let b = self.bits;
            assert((b & (1u8 << idx) != 0) <==> ((b >> idx) & 1 == 1)) by (bit_vector)
                requires
                    idx < 6,
            ;
        }
        r
    }

    /// True when the set has no members at all.
    pub fn is_empty(&self) -> (r: bool)
        ensures
            r == (self@ == 0),
    {
        self.bits == 0
    }

    /// An iterator over the members of the set, in ascending canonical
    /// order.
    pub fn iter(&self) -> (it: GraphDirectionSetIter)
        requires
            self@ < 64,
        ensures
            it@ == self@,
    {
        GraphDirectionSetIter { bits: self.bits }
    }
}

impl GraphDirection {
    /// Spec-level alias for the canonical index, as a shift amount.
    pub open spec fn as_index_spec(&self) -> u8 {
        dir_index(*self) as u8
    }
}

/// Iterates the members of a `GraphDirectionSet` by repeatedly extracting
/// the lowest set bit, so members come out in ascending canonical order,
/// each exactly once.
pub struct GraphDirectionSetIter {
    bits: u8,
}

impl View for GraphDirectionSetIter {
    type V = u8;

    closed spec fn view(&self) -> u8 {
        self.bits
    }
}

impl GraphDirectionSetIter {
    /// Yields the smallest direction still in the set and removes it, or
    /// `None` when the set is exhausted.
    pub fn next(&mut self) -> (r: Option<GraphDirection>)
        requires
            old(self)@ < 64,
        ensures
            final(self)@ < 64,
            old(self)@ == 0 ==> r is None && final(self)@ == 0,
            old(self)@ != 0 ==> {
                &&& r is Some
                &&& final(self)@ < old(self)@
                &&& set_has(old(self)@, dir_index(r.unwrap()))
                &&& forall|g: int| g < dir_index(r.unwrap()) ==> !set_has(old(self)@, g)
                &&& forall|g: int|
                    set_has(final(self)@, g) <==> (set_has(old(self)@, g) && g != dir_index(
                        r.unwrap(),
                    ))
                &&& members_of(old(self)@) == seq![r.unwrap()] + members_of(final(self)@)
            },
    {
        if self.bits == 0 {
            proof {
                assert forall|g: int| !set_has(0, g) by {
                    lemma_empty_set_has_none(g);
                }
            }
            return None;
        }
        let b = self.bits;
        let mut k: u8 = 0;
        proof {
            assert(b >> 0u8 == b) by (bit_vector);
        }
        while (b >> k) & 1 != 1
            invariant
                k <= 5,
                b >> k != 0,
                forall|g: int| 0 <= g < k ==> !set_has(b, g),
            decreases 5 - k,
        {
            proof {
                assert(k <= 4 && (b >> (k + 1) as u8) != 0) by (bit_vector)
                    requires
                        b < 64,
                        b >> k != 0,
                        (b >> k) & 1 != 1,
                        k <= 5,
                ;
            }
            k = k + 1;
        }
        let dir = GraphDirection::from_int_unchecked(k);
        let nb = self.bits & !(1u8 << k);
        proof {
            assert((b >> k) & 1 == 1 ==> set_has(b, k as int));
            assert(nb < b && nb < 64) by (bit_vector)
                requires
                    nb == b & !(1u8 << k),
                    (b >> k) & 1 == 1,
                    k < 6,
                    b < 64,
            ;
            assert forall|g: int|
                set_has(nb, g) <==> (set_has(b, g) && g != k as int) by {
                if 0 <= g < 6 {
                    let gu = g as u8;
                    assert(((nb >> gu) & 1 == 1) <==> (((b >> gu) & 1 == 1) && gu != k))
                        by (bit_vector)
                        requires
                            nb == b & !(1u8 << k),
                            k < 6,
                            gu < 6,
                    ;
                }
            }
        }
        proof {
            assert(dir == dir_of_index(k as int));
            lemma_iteration_step(b, k as int, nb);
        }
        self.bits = nb;
        Some(dir)
    }
}

} // verus!
