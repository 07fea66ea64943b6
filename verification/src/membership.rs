//! Group membership: a member's rate commitment is a leaf of a Poseidon
//! Merkle tree of depth [`DEPTH`], and the member proves membership by
//! climbing from that leaf to the group root. At each level a path bit says
//! on which side the running node stands: `false` for a left child, `true`
//! for a right child; the bits of the leaf at index `idx` are the binary
//! digits of `idx`, least significant first.
use crate::field::Scalar;
use crate::poseidon::{hash1, hash2, poseidon, values, PoseidonHasher};
use vstd::prelude::*;

verus! {

/// Depth of the membership tree (the deployed network has 2^20 members).
pub const DEPTH: usize = 20;

/// `Poseidon(a0)`: the identity commitment of the secret `a0`.
pub open spec fn identity_commitment(a0: nat) -> nat {
    poseidon(seq![a0])
}

/// `Poseidon(Poseidon(a0), Qs)`: the leaf that binds the member's secret to
/// its quota `Qs`.
pub open spec fn rate_commitment(a0: nat, qs: nat) -> nat {
    poseidon(seq![identity_commitment(a0), qs])
}

/// The parent of `node` and its sibling `sib`: `Poseidon(node, sib)` when
/// the node is a left child, `Poseidon(sib, node)` when it is a right child.
pub open spec fn parent(node: nat, sib: nat, is_right: bool) -> nat {
    if is_right {
        poseidon(seq![sib, node])
    } else {
        poseidon(seq![node, sib])
    }
}

/// The node reached from `node` by hashing in each sibling in turn, on the
/// side that the matching path bit gives.
pub open spec fn climb(node: nat, siblings: Seq<nat>, is_right: Seq<bool>) -> nat
    decreases siblings.len(),
{
    if siblings.len() == 0 {
        node
    } else {
        climb(
            parent(node, siblings[0], is_right[0]),
            siblings.drop_first(),
            is_right.drop_first(),
        )
    }
}

/// The root reached from the member `(a0, Qs)` along `siblings`, on the
/// sides that `is_right` gives.
pub open spec fn member_root(a0: nat, qs: nat, siblings: Seq<nat>, is_right: Seq<bool>) -> nat {
    climb(rate_commitment(a0, qs), siblings, is_right)
}

/// The path bits of the leaf at index `idx` in a tree of depth `depth`:
/// its binary digits, least significant first.
pub open spec fn index_bits(idx: nat, depth: nat) -> Seq<bool>
    decreases depth,
{
    if depth == 0 {
        Seq::empty()
    } else {
        seq![idx % 2 == 1] + index_bits(idx / 2, (depth - 1) as nat)
    }
}

/// The siblings of the leftmost leaf of a tree whose other leaves are all
/// zero: `DEPTH` zeros.
pub open spec fn zero_siblings() -> Seq<nat> {
    Seq::new(DEPTH as nat, |i: int| 0nat)
}

/// The path bits of the leftmost leaf: `DEPTH` left turns.
pub open spec fn leftmost_bits() -> Seq<bool> {
    Seq::new(DEPTH as nat, |i: int| false)
}

/// The leftmost leaf is leaf 0.
pub proof fn lemma_leftmost_is_index_zero()
    ensures
        leftmost_bits() == index_bits(0, DEPTH as nat),
{
    lemma_index_zero_bits(DEPTH as nat);
    assert(leftmost_bits() =~= Seq::new(DEPTH as nat, |i: int| false));
}

proof fn lemma_index_zero_bits(depth: nat)
    ensures
        index_bits(0, depth) == Seq::new(depth, |i: int| false),
    decreases depth,
{
    if depth > 0 {
        lemma_index_zero_bits((depth - 1) as nat);
        assert(index_bits(0, depth) =~= Seq::new(depth, |i: int| false));
    } else {
        assert(index_bits(0, depth) =~= Seq::new(depth, |i: int| false));
    }
}

/// Computes the rate commitment `Poseidon(Poseidon(a0), Qs)`.
pub fn rate_commitment_of(h: &PoseidonHasher, a0: &Scalar, qs: &Scalar) -> (r: Scalar)
    ensures
        r@ == rate_commitment(a0@, qs@),
{
    let id_comm = hash1(h, a0);
    hash2(h, &id_comm, qs)
}

/// Climbs from `leaf` along the first `depth` siblings, on the sides that
/// the first `depth` path bits give.
pub fn climb_path(
    h: &PoseidonHasher,
    leaf: &Scalar,
    siblings: &[Scalar],
    is_right: &[bool],
    depth: usize,
) -> (r: Scalar)
    requires
        depth <= siblings@.len(),
        depth <= is_right@.len(),
    ensures
        r@ == climb(leaf@, values(siblings@.take(depth as int)), is_right@.take(depth as int)),
{
    let ghost path = values(siblings@.take(depth as int));
    let ghost bits = is_right@.take(depth as int);
    let mut cur = *leaf;
    let mut d: usize = 0;
    assert(path.skip(0) =~= path);
    assert(bits.skip(0) =~= bits);
    while d < depth
        invariant
            depth <= siblings@.len(),
            depth <= is_right@.len(),
            path == values(siblings@.take(depth as int)),
            bits == is_right@.take(depth as int),
            d <= depth,
            climb(cur@, path.skip(d as int), bits.skip(d as int)) == climb(leaf@, path, bits),
        decreases depth - d,
    {
        let next = if is_right[d] {
            hash2(h, &siblings[d], &cur)
        } else {
            hash2(h, &cur, &siblings[d])
        };
        proof {
            let rest = path.skip(d as int);
            let rest_bits = bits.skip(d as int);
            assert(rest[0] == siblings@[d as int]@);
            assert(rest_bits[0] == is_right@[d as int]);
            assert(rest.drop_first() =~= path.skip(d + 1));
            assert(rest_bits.drop_first() =~= bits.skip(d + 1));
        }
        cur = next;
        d = d + 1;
    }
    cur
}

/// The group root that the member `(a0, Qs)` reaches along all of
/// `siblings`, on the sides that `is_right` gives.
pub fn group_root(
    h: &PoseidonHasher,
    a0: &Scalar,
    qs: &Scalar,
    siblings: &[Scalar],
    is_right: &[bool],
) -> (r: Scalar)
    requires
        siblings@.len() == is_right@.len(),
    ensures
        r@ == member_root(a0@, qs@, values(siblings@), is_right@),
{
    let leaf = rate_commitment_of(h, a0, qs);
    let r = climb_path(h, &leaf, siblings, is_right, siblings.len());
    assert(siblings@.take(siblings@.len() as int) =~= siblings@);
    assert(is_right@.take(is_right@.len() as int) =~= is_right@);
    r
}

/// The group root of a tree whose leftmost leaf is the member `(a0, Qs)`
/// and whose other leaves are all zero.
pub fn leftmost_member_root(h: &PoseidonHasher, a0: &Scalar, qs: &Scalar) -> (r: Scalar)
    ensures
        r@ == member_root(a0@, qs@, zero_siblings(), leftmost_bits()),
{
    let zero = Scalar::zero();
    let mut siblings: Vec<Scalar> = Vec::new();
    let mut is_right: Vec<bool> = Vec::new();
    let mut i: usize = 0;
    while i < DEPTH
        invariant
            i <= DEPTH,
            siblings@.len() == i,
            is_right@.len() == i,
            zero@ == 0,
            forall|t: int| 0 <= t < i ==> siblings@[t] == zero,
            forall|t: int| 0 <= t < i ==> !is_right@[t],
        decreases DEPTH - i,
    {
        siblings.push(zero);
        is_right.push(false);
        i = i + 1;
    }
    assert(values(siblings@) =~= zero_siblings());
    assert(is_right@ =~= leftmost_bits());
    group_root(h, a0, qs, siblings.as_slice(), is_right.as_slice())
}

} // verus!
