//! Laws that relate the functions of the library across calls.
use crate::burst::{is_burst_schedule, is_burst_step, FIRST_HASH};
use crate::field::{modulus, Scalar};
use crate::membership::{leftmost_bits, member_root, zero_siblings, DEPTH};
use crate::poseidon::{poseidon, values};
use crate::share::{accumulate, revealed, share, Revealed};
use crate::step::RlnStep;
use vstd::prelude::*;

verus! {

/// What the steps reveal in epoch `e`, step after step.
pub open spec fn revealed_by_steps(steps: Seq<RlnStep>, e: nat) -> Seq<Revealed>
    decreases steps.len(),
{
    if steps.len() == 0 {
        Seq::empty()
    } else {
        revealed_by_steps(steps.drop_last(), e) + steps.last().messages(e)
    }
}

/// The accumulator of the state after the steps are folded in order, each
/// step from the accumulator that the one before it produced.
pub open spec fn folded_acc(steps: Seq<RlnStep>, e: nat, acc: nat) -> nat
    decreases steps.len(),
{
    if steps.len() == 0 {
        acc
    } else {
        steps.last().next_acc(e, folded_acc(steps.drop_last(), e, acc))
    }
}

/// Absorbing two runs of messages one after the other is absorbing their
/// concatenation.
pub proof fn lemma_accumulate_append(acc: nat, a: Seq<Revealed>, b: Seq<Revealed>)
    ensures
        accumulate(accumulate(acc, a), b) == accumulate(acc, a + b),
    decreases b.len(),
{
    if b.len() == 0 {
        assert(a + b =~= a);
    } else {
        lemma_accumulate_append(acc, a, b.drop_last());
        assert((a + b).drop_last() =~= a + b.drop_last());
        assert((a + b).last() == b.last());
    }
}

/// Audit: the accumulator that folding the steps produces is the one that
/// absorbing every revealed triple `(nf, x, y)` of the burst, in order,
/// recomputes.
pub proof fn lemma_folded_acc_is_audit(steps: Seq<RlnStep>, e: nat, acc: nat)
    ensures
        folded_acc(steps, e, acc) == accumulate(acc, revealed_by_steps(steps, e)),
    decreases steps.len(),
{
    if steps.len() > 0 {
        lemma_folded_acc_is_audit(steps.drop_last(), e, acc);
        lemma_accumulate_append(
            acc,
            revealed_by_steps(steps.drop_last(), e),
            steps.last().messages(e),
        );
    }
}

/// The messages of a burst of `total` messages of the member with secret
/// `a0`, in epoch `e`: message `i` in slot `i + 1` with hash `1000 + i`.
pub open spec fn burst_messages(a0: nat, e: nat, count: nat) -> Seq<Revealed> {
    Seq::new(count, |i: int| revealed(a0, e, (i + 1) as nat, (FIRST_HASH + i) as nat))
}

/// A burst folded `k` messages per step reveals its first `(total / k) * k`
/// messages, in burst order, whatever `k` is.
pub proof fn lemma_burst_reveals_in_order(
    steps: Seq<RlnStep>,
    a0: Scalar,
    qs: Scalar,
    total: nat,
    k: nat,
    e: nat,
)
    requires
        is_burst_schedule(steps, a0, qs, total, k),
    ensures
        revealed_by_steps(steps, e) == burst_messages(a0@, e, steps.len() * k),
{
    lemma_schedule_prefix(steps, a0, qs, total, k, e, steps.len());
    assert(steps.take(steps.len() as int) =~= steps);
}

/// The first `m` steps of a burst schedule reveal the first `m * k`
/// messages of the burst.
proof fn lemma_schedule_prefix(
    steps: Seq<RlnStep>,
    a0: Scalar,
    qs: Scalar,
    total: nat,
    k: nat,
    e: nat,
    m: nat,
)
    requires
        is_burst_schedule(steps, a0, qs, total, k),
        m <= steps.len(),
    ensures
        revealed_by_steps(steps.take(m as int), e) == burst_messages(a0@, e, m * k),
        revealed_by_steps(steps.take(m as int), e).len() == m * k,
    decreases m,
{
    let pre = steps.take(m as int);
    if m > 0 {
        lemma_schedule_prefix(steps, a0, qs, total, k, e, (m - 1) as nat);
        assert(pre.drop_last() =~= steps.take(m - 1));
        let last = pre.last();
        assert(last == steps[m - 1]);
        assert(is_burst_step(last, a0, qs, (m - 1) as nat, k));
        let base = (m - 1) * k;
        assert(base + k == m * k) by (nonlinear_arith)
            requires
                base == (m - 1) * k,
                m > 0,
        ;
        let lhs = revealed_by_steps(pre, e);
        let rhs = burst_messages(a0@, e, m * k);
        assert(last.message_count() == k);
        assert forall|i: int| 0 <= i < m * k implies lhs[i] == rhs[i] by {
            if i < base {
                assert(lhs[i] == revealed_by_steps(steps.take(m - 1), e)[i]);
            } else {
                let jj = i - base;
                assert(lhs[i] == last.messages(e)[jj]);
                assert(last.j@[jj]@ == base + jj + 1);
                assert(last.x@[jj]@ == FIRST_HASH + base + jj);
            }
        }
        assert(lhs =~= rhs);
    } else {
        assert(revealed_by_steps(pre, e) =~= burst_messages(a0@, e, 0));
    }
}

/// Folding a whole burst gives the same accumulator whatever the number of
/// messages per step, as long as it divides the burst.
pub proof fn lemma_step_size_does_not_change_acc(
    steps1: Seq<RlnStep>,
    steps2: Seq<RlnStep>,
    a0: Scalar,
    qs: Scalar,
    total: nat,
    k1: nat,
    k2: nat,
    e: nat,
    acc: nat,
)
    requires
        is_burst_schedule(steps1, a0, qs, total, k1),
        is_burst_schedule(steps2, a0, qs, total, k2),
        total % k1 == 0,
        total % k2 == 0,
    ensures
        folded_acc(steps1, e, acc) == folded_acc(steps2, e, acc),
        folded_acc(steps1, e, acc) == accumulate(acc, burst_messages(a0@, e, total)),
{
    lemma_whole_steps(total, k1);
    lemma_whole_steps(total, k2);
    lemma_burst_reveals_in_order(steps1, a0, qs, total, k1, e);
    lemma_burst_reveals_in_order(steps2, a0, qs, total, k2, e);
    lemma_folded_acc_is_audit(steps1, e, acc);
    lemma_folded_acc_is_audit(steps2, e, acc);
}

proof fn lemma_whole_steps(total: nat, k: nat)
    requires
        k > 0,
        total % k == 0,
    ensures
        (total / k) * k == total,
{
    vstd::arithmetic::div_mod::lemma_fundamental_div_mod(total as int, k as int);
    vstd::arithmetic::mul::lemma_mul_is_commutative(k as int, (total / k) as int);
}

/// Every step of a burst climbs its `DEPTH` zero siblings to the root of the
/// tree whose leftmost leaf is the member and whose other leaves are zero.
pub proof fn lemma_burst_steps_climb_leftmost_root(
    steps: Seq<RlnStep>,
    a0: Scalar,
    qs: Scalar,
    total: nat,
    k: nat,
    s: int,
)
    requires
        is_burst_schedule(steps, a0, qs, total, k),
        0 <= s < steps.len(),
    ensures
        steps[s].climbed_root() == member_root(a0@, qs@, zero_siblings(), leftmost_bits()),
{
    let st = steps[s];
    assert(is_burst_step(st, a0, qs, s as nat, k));
    assert(values(st.path_elements@.take(DEPTH as int)) =~= zero_siblings());
    assert(st.path_index@.take(DEPTH as int) =~= leftmost_bits());
}

/// Two messages sent in one quota slot of one epoch reveal the same
/// nullifier.
pub proof fn lemma_slot_reuse_repeats_nullifier(a0: nat, e: nat, j: nat, x1: nat, x2: nat)
    ensures
        revealed(a0, e, j, x1).nf == revealed(a0, e, j, x2).nf,
{
}

/// Two messages sent in one quota slot of one epoch lie on one line: from
/// their hashes `x1 != x2` and shares `y1`, `y2`, with `d` the inverse of
/// `x2 - x1` in the field, the slope is `a1 = (y2 - y1) * d` and the
/// secret is `a0 = y1 - a1 * x1`.
pub proof fn lemma_slot_reuse_reveals_secret(a0: nat, e: nat, j: nat, x1: nat, x2: nat, d: int)
    requires
        a0 < modulus(),
        ((x2 - x1) * d) % (modulus() as int) == 1,
    ensures
        ({
            let y1 = revealed(a0, e, j, x1).y;
            let y2 = revealed(a0, e, j, x2).y;
            let a1 = ((y2 - y1) * d) % (modulus() as int);
            (y1 - a1 * x1) % (modulus() as int) == a0
        }),
{
    let p = modulus() as int;
    let a1 = crate::share::slot_slope(a0, e, j) as int;
    let y1 = revealed(a0, e, j, x1).y as int;
    let y2 = revealed(a0, e, j, x2).y as int;
    let dx = x2 - x1;
    vstd::arithmetic::div_mod::lemma_fundamental_div_mod(a0 + a1 * x1, p);
    vstd::arithmetic::div_mod::lemma_fundamental_div_mod(a0 + a1 * x2, p);
    vstd::arithmetic::div_mod::lemma_fundamental_div_mod(dx * d, p);
    let q1 = (a0 + a1 * x1) / p;
    let q2 = (a0 + a1 * x2) / p;
    let t = (dx * d) / p;
    assert(y1 == a0 + a1 * x1 - p * q1);
    assert(y2 == a0 + a1 * x2 - p * q2);
    assert(dx * d == p * t + 1);
    let num = (y2 - y1) * d;
    vstd::arithmetic::div_mod::lemma_fundamental_div_mod(num, p);
    let q3 = num / p;
    let s1 = num % p;
    assert(s1 == num - p * q3);
    let big_k = a1 * t + (q1 - q2) * d - q3;
    assert(big_k == a1 * t + (q1 - q2) * d - q3);
    let u = q1 - q2;
    assert(y2 - y1 == a1 * dx + p * u) by (nonlinear_arith)
        requires
            y1 == a0 + a1 * x1 - p * q1,
            y2 == a0 + a1 * x2 - p * q2,
            dx == x2 - x1,
            u == q1 - q2,
    ;
    assert(num == a1 * (dx * d) + p * (u * d)) by (nonlinear_arith)
        requires
            num == (y2 - y1) * d,
            y2 - y1 == a1 * dx + p * u,
    ;
    assert(a1 * (dx * d) == a1 + p * (a1 * t)) by (nonlinear_arith)
        requires
            dx * d == p * t + 1,
    ;
    assert(p * big_k == p * (a1 * t) + p * (u * d) - p * q3) by (nonlinear_arith)
        requires
            big_k == a1 * t + u * d - q3,
    ;
    assert(s1 == a1 + p * big_k);
    let z = -(q1 + big_k * x1);
    assert(y1 - s1 * x1 == p * z + a0) by (nonlinear_arith)
        requires
            y1 == a0 + a1 * x1 - p * q1,
            s1 == a1 + p * big_k,
            z == -(q1 + big_k * x1),
    ;
    vstd::arithmetic::div_mod::lemma_mod_multiples_vanish(z, a0 as int, p);
    vstd::arithmetic::div_mod::lemma_small_mod(a0, p as nat);
}

/// The state after the steps are evaluated in order from `z0`, each from
/// the state the one before it produced.
pub open spec fn fold_states(steps: Seq<RlnStep>, z0: Seq<nat>) -> Seq<nat>
    decreases steps.len(),
{
    if steps.len() == 0 {
        z0
    } else {
        steps.last().next_state(fold_states(steps.drop_last(), z0))
    }
}

/// Whether every step's membership constraint holds on the state it is
/// evaluated on, the steps being folded in order from `z0`.
pub open spec fn fold_accepted(steps: Seq<RlnStep>, z0: Seq<nat>) -> bool
    decreases steps.len(),
{
    if steps.len() == 0 {
        true
    } else {
        fold_accepted(steps.drop_last(), z0) && steps.last().accepts(
            fold_states(steps.drop_last(), z0),
        )
    }
}

/// Folding steps from `[r, e, acc]`: the group root and the external
/// nullifier pass through every step unchanged, only the accumulator moves
/// on, and every step is satisfied exactly when each climbs to `r`.
pub proof fn lemma_fold_keeps_root_and_epoch(steps: Seq<RlnStep>, z0: Seq<nat>)
    requires
        z0.len() == 3,
    ensures
        fold_states(steps, z0) == seq![z0[0], z0[1], folded_acc(steps, z0[1], z0[2])],
        fold_accepted(steps, z0) <==> forall|i: int|
            0 <= i < steps.len() ==> #[trigger] steps[i].climbed_root() == z0[0],
    decreases steps.len(),
{
    if steps.len() == 0 {
        assert(z0 =~= seq![z0[0], z0[1], z0[2]]);
    } else {
        let prev = steps.drop_last();
        lemma_fold_keeps_root_and_epoch(prev, z0);
        assert(forall|i: int| 0 <= i < prev.len() ==> prev[i] == steps[i]);
        assert(steps.last() == steps[steps.len() - 1]);
        let z = fold_states(prev, z0);
        assert(z[0] == z0[0] && z[1] == z0[1]);
        assert(fold_states(steps, z0) =~= seq![z0[0], z0[1], folded_acc(steps, z0[1], z0[2])]);
        if !fold_accepted(prev, z0) {
            let i = choose|i: int| 0 <= i < prev.len() && #[trigger] prev[i].climbed_root() != z0[0];
            assert(steps[i].climbed_root() != z0[0]);
        }
    }
}

/// The triple that message `x` in slot `j` of epoch `e` of the member with
/// secret `a0` reveals, written out: `nf = Poseidon(Poseidon(a0, e, j))`,
/// the hash `x`, and `y = a0 + Poseidon(a0, e, j) * x`.
pub open spec fn revealed_triple(a0: nat, e: nat, j: nat, x: nat) -> Revealed {
    Revealed {
        nf: poseidon(seq![poseidon(seq![a0, e, j])]),
        x: x,
        y: (a0 + poseidon(seq![a0, e, j]) * x) % modulus(),
    }
}

/// The accumulator starts from the value it is given, and each further
/// triple is absorbed as `acc' = Poseidon(acc, nf, x, y)`, whatever `acc`
/// is (zero included).
pub proof fn lemma_accumulate_step(acc: nat, msgs: Seq<Revealed>, m: Revealed)
    ensures
        accumulate(acc, Seq::empty()) == acc,
        accumulate(acc, msgs.push(m)) == poseidon(seq![accumulate(acc, msgs), m.nf, m.x, m.y]),
{
    assert(msgs.push(m).drop_last() =~= msgs);
}

/// A step pairs slots and hashes in order: it reveals as many triples as
/// the shorter of the two lists holds, and triple `i` is the one of slot
/// `j[i]` and hash `x[i]`.
pub proof fn lemma_step_reveals_zipped_pairs(st: RlnStep, e: nat)
    ensures
        st.messages(e).len() <= st.j@.len(),
        st.messages(e).len() <= st.x@.len(),
        st.messages(e).len() == st.j@.len() || st.messages(e).len() == st.x@.len(),
        forall|i: int|
            0 <= i < st.messages(e).len() ==> #[trigger] st.messages(e)[i] == revealed_triple(
                st.a0@,
                e,
                st.j@[i]@,
                st.x@[i]@,
            ),
{
}

/// A step with no slot or no hash absorbs nothing.
pub proof fn lemma_step_without_pairs(st: RlnStep, e: nat, acc: nat)
    requires
        st.j@.len() == 0 || st.x@.len() == 0,
    ensures
        st.next_acc(e, acc) == acc,
{
    assert(st.messages(e) =~= Seq::<Revealed>::empty());
}

/// Adding one more slot-hash pair to a step whose lists are paired one to
/// one absorbs that message's triple on top of what the step absorbed.
pub proof fn lemma_step_absorbs_each_pair(
    st: RlnStep,
    longer: RlnStep,
    e: nat,
    acc: nat,
    jn: Scalar,
    xn: Scalar,
)
    requires
        st.j@.len() == st.x@.len(),
        longer.a0 == st.a0,
        longer.j@ == st.j@.push(jn),
        longer.x@ == st.x@.push(xn),
    ensures
        longer.next_acc(e, acc) == poseidon(
            seq![
                st.next_acc(e, acc),
                revealed_triple(st.a0@, e, jn@, xn@).nf,
                xn@,
                revealed_triple(st.a0@, e, jn@, xn@).y,
            ],
        ),
{
    let m = revealed_triple(st.a0@, e, jn@, xn@);
    assert(longer.messages(e) =~= st.messages(e).push(m));
    lemma_accumulate_step(acc, st.messages(e), m);
}

/// A hash without a slot, or a slot without a hash, is not absorbed: the
/// step's accumulator is that of the step without it.
pub proof fn lemma_step_ignores_unpaired(
    st: RlnStep,
    longer: RlnStep,
    e: nat,
    acc: nat,
    jn: Scalar,
    xn: Scalar,
)
    requires
        longer.a0 == st.a0,
        (st.j@.len() <= st.x@.len() && longer.j@ == st.j@ && longer.x@ == st.x@.push(xn)) || (
        st.x@.len() <= st.j@.len() && longer.x@ == st.x@ && longer.j@ == st.j@.push(jn)),
    ensures
        longer.next_acc(e, acc) == st.next_acc(e, acc),
{
    assert(longer.messages(e) =~= st.messages(e));
}

} // verus!
