//! Scheduling a burst of messages into fold steps.
//!
//! A burst of `total` messages from one member is folded `k` messages per
//! step: step `s` carries the messages `s*k .. s*k + k`, message `i` of the
//! burst being sent in quota slot `i + 1` with hash `1000 + i`. The member
//! is the leftmost leaf (leaf 0) of a tree whose other leaves are zero, so
//! every step climbs `DEPTH` zero siblings, always as a left child. Only
//! whole steps are scheduled: `total / k` of them.
use crate::field::Scalar;
use crate::membership::DEPTH;
use crate::step::RlnStep;
use vstd::prelude::*;

verus! {

/// Hash of the first message of a burst; message `i` has hash `FIRST_HASH + i`.
pub const FIRST_HASH: u64 = 1000;

/// `st` is step `s` of a burst of the member `(a0, Qs)` folded `k` messages
/// per step.
pub open spec fn is_burst_step(st: RlnStep, a0: Scalar, qs: Scalar, s: nat, k: nat) -> bool {
    &&& st.a0 == a0
    &&& st.qs == qs
    &&& st.j@.len() == k
    &&& st.x@.len() == k
    &&& forall|jj: int| 0 <= jj < k ==> #[trigger] st.j@[jj]@ == s * k + jj + 1
    &&& forall|jj: int| 0 <= jj < k ==> #[trigger] st.x@[jj]@ == FIRST_HASH + s * k + jj
    &&& st.path_elements@.len() == DEPTH
    &&& forall|d: int| 0 <= d < DEPTH ==> #[trigger] st.path_elements@[d]@ == 0
    &&& st.path_index@.len() == DEPTH
    &&& forall|d: int| 0 <= d < DEPTH ==> !#[trigger] st.path_index@[d]
}

/// `steps` are the steps of a burst of `total` messages of the member
/// `(a0, Qs)`, folded `k` messages per step.
pub open spec fn is_burst_schedule(
    steps: Seq<RlnStep>,
    a0: Scalar,
    qs: Scalar,
    total: nat,
    k: nat,
) -> bool {
    &&& k > 0
    &&& steps.len() == total / k
    &&& forall|s: int| 0 <= s < steps.len() ==> is_burst_step(#[trigger] steps[s], a0, qs, s as nat, k)
}

/// The steps of a burst of `total_msgs` messages of the member `(a0, Qs)`,
/// `k` messages per step.
pub fn burst_steps(a0: &Scalar, qs: &Scalar, total_msgs: usize, k: usize) -> (steps: Vec<RlnStep>)
    requires
        k > 0,
        (total_msgs / k) * k + FIRST_HASH <= usize::MAX + 1,
    ensures
        is_burst_schedule(steps@, *a0, *qs, total_msgs as nat, k as nat),
{
    let n = total_msgs / k;
    assert(n * k <= total_msgs) by (nonlinear_arith)
        requires
            n == total_msgs / k,
            k > 0,
    ;
    let zero = Scalar::zero();
    let mut steps: Vec<RlnStep> = Vec::new();
    let mut s: usize = 0;
    while s < n
        invariant
            k > 0,
            n == total_msgs / k,
            n * k + FIRST_HASH <= usize::MAX + 1,
            s <= n,
            zero@ == 0,
            steps@.len() == s,
            forall|t: int| 0 <= t < s ==> is_burst_step(#[trigger] steps@[t], *a0, *qs, t as nat, k as nat),
        decreases n - s,
    {
        assert(s * k + k <= n * k) by (nonlinear_arith)
            requires
                s < n,
        ;
        let base = s * k;
        let mut j: Vec<Scalar> = Vec::new();
        let mut x: Vec<Scalar> = Vec::new();
        let mut jj: usize = 0;
        while jj < k
            invariant
                base == s * k,
                base + k + FIRST_HASH <= usize::MAX + 1,
                jj <= k,
                j@.len() == jj,
                x@.len() == jj,
                forall|t: int| 0 <= t < jj ==> #[trigger] j@[t]@ == base + t + 1,
                forall|t: int| 0 <= t < jj ==> #[trigger] x@[t]@ == FIRST_HASH + base + t,
            decreases k - jj,
        {
            j.push(Scalar::from_u64((base + jj + 1) as u64));
            x.push(Scalar::from_u64((FIRST_HASH as usize + base + jj) as u64));
            jj = jj + 1;
        }
        let mut path_elements: Vec<Scalar> = Vec::new();
        let mut path_index: Vec<bool> = Vec::new();
        let mut d: usize = 0;
        while d < DEPTH
            invariant
                zero@ == 0,
                d <= DEPTH,
                path_elements@.len() == d,
                path_index@.len() == d,
                forall|t: int| 0 <= t < d ==> #[trigger] path_elements@[t]@ == 0,
                forall|t: int| 0 <= t < d ==> !#[trigger] path_index@[t],
            decreases DEPTH - d,
        {
            path_elements.push(zero);
            path_index.push(false);
            d = d + 1;
        }
        let st = RlnStep { a0: *a0, qs: *qs, j, x, path_elements, path_index };
        steps.push(st);
        proof {
            assert(is_burst_step(steps@[s as int], *a0, *qs, s as nat, k as nat));
        }
        s = s + 1;
    }
    steps
}

/// The state a burst is folded from: `[r, e, 0]`, with the group root `r`
/// and the external nullifier `e` that the verifier supplies.
pub fn initial_state(r: &Scalar, e: &Scalar) -> (z0: Vec<Scalar>)
    ensures
        z0@.len() == 3,
        z0@[0] == *r,
        z0@[1] == *e,
        z0@[2]@ == 0,
{
    let mut z0: Vec<Scalar> = Vec::new();
    z0.push(*r);
    z0.push(*e);
    z0.push(Scalar::zero());
    z0
}

} // verus!
