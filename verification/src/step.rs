//! One fold step: the batched relation over `K` messages, evaluated on the
//! running state `z = [r, e, acc]`.
//!
//! The step climbs the member's Merkle path once; its membership constraint
//! holds when the climbed root is the group root `r` of the state. Every
//! message of the step reveals its share and nullifier and extends the
//! accumulator. The group root `r` and the external nullifier `e` pass
//! through unchanged. The next state is computed whether or not the
//! membership constraint holds; whether it holds is reported beside it.
use crate::field::Scalar;
use crate::membership::{climb_path, member_root, rate_commitment_of, DEPTH};
use crate::poseidon::{values, PoseidonHasher};
use crate::share::{absorb_message, accumulate, reveal_message, revealed, Revealed};
use vstd::prelude::*;

verus! {

/// Number of state elements a step reads and writes: `[r, e, acc]`.
pub const ARITY: usize = 3;

/// The private inputs of one fold step.
#[derive(Clone, Debug)]
pub struct RlnStep {
    /// The member's identity secret.
    pub a0: Scalar,
    /// The member's quota, bound into its leaf.
    pub qs: Scalar,
    /// The quota slot of each message of the step.
    pub j: Vec<Scalar>,
    /// The hash of each message of the step.
    pub x: Vec<Scalar>,
    /// The siblings of the member's leaf, from the leaf up; the first
    /// `DEPTH` are climbed.
    pub path_elements: Vec<Scalar>,
    /// For each level from the leaf up, whether the running node is a right
    /// child (the bits of the leaf's index, least significant first); the
    /// first `DEPTH` are used.
    pub path_index: Vec<bool>,
}

/// What evaluating a step gives: the next state, and whether the step's
/// membership constraint holds for the state it was evaluated on.
#[derive(Clone, Debug, PartialEq, Eq)]
pub struct StepOutput {
    /// The next state `[r, e, acc']`.
    pub z_out: Vec<Scalar>,
    /// Whether the root climbed from the member's leaf is the group root `r`
    /// of the state; a step whose root does not match is not satisfied.
    pub root_matches: bool,
}

impl RlnStep {
    /// The number of messages of the step: slots and hashes are paired in
    /// order, and the shorter list decides.
    pub open spec fn message_count(&self) -> nat {
        if self.j@.len() <= self.x@.len() {
            self.j@.len()
        } else {
            self.x@.len()
        }
    }

    /// What the step's messages reveal in epoch `e`, in order.
    pub open spec fn messages(&self, e: nat) -> Seq<Revealed> {
        Seq::new(
            self.message_count(),
            |i: int| revealed(self.a0@, e, self.j@[i]@, self.x@[i]@),
        )
    }

    /// The root climbed from the member's leaf along the first `DEPTH`
    /// siblings, on the sides that the first `DEPTH` path bits give.
    pub open spec fn climbed_root(&self) -> nat {
        member_root(
            self.a0@,
            self.qs@,
            values(self.path_elements@.take(DEPTH as int)),
            self.path_index@.take(DEPTH as int),
        )
    }

    /// The accumulator after this step, from `acc` in epoch `e`.
    pub open spec fn next_acc(&self, e: nat, acc: nat) -> nat {
        accumulate(acc, self.messages(e))
    }

    /// The state after this step from the state `z = [r, e, acc, ..]`:
    /// `[r, e, acc']`.
    pub open spec fn next_state(&self, z: Seq<nat>) -> Seq<nat> {
        seq![z[0], z[1], self.next_acc(z[1], z[2])]
    }

    /// Whether the step's membership constraint holds on the state `z`: the
    /// climbed root is the group root `z[0]`.
    pub open spec fn accepts(&self, z: Seq<nat>) -> bool {
        self.climbed_root() == z[0]
    }

    /// The number of state elements of a step.
    pub fn arity(&self) -> (r: usize)
        ensures
            r == ARITY,
    {
        ARITY
    }

    /// Evaluates the step on the state `z_in = [r, e, acc, ..]`.
    ///
    /// Returns `[r, e, acc']`, where `acc'` has absorbed every message of the
    /// step, together with whether the climbed root is `r`.
    pub fn evaluate(&self, h: &PoseidonHasher, z_in: &[Scalar]) -> (res: StepOutput)
        requires
            z_in@.len() >= ARITY,
            self.path_elements@.len() >= DEPTH,
            self.path_index@.len() >= DEPTH,
        ensures
            res.root_matches == (self.climbed_root() == z_in@[0]@),
            res.root_matches == self.accepts(values(z_in@)),
            res.z_out@.len() == ARITY,
            res.z_out@[0] == z_in@[0],
            res.z_out@[1] == z_in@[1],
            res.z_out@[2]@ == self.next_acc(z_in@[1]@, z_in@[2]@),
            values(res.z_out@) == self.next_state(values(z_in@)),
    {
        let r_in = z_in[0];
        let e = z_in[1];
        let acc_in = z_in[2];

        // membership: the rate commitment climbs the Merkle path to the group root
        let leaf = rate_commitment_of(h, &self.a0, &self.qs);
        let root = climb_path(
            h,
            &leaf,
            self.path_elements.as_slice(),
            self.path_index.as_slice(),
            DEPTH,
        );
        let root_matches = root.equals(&r_in);

        // each message adds its share, its nullifier and one absorption
        let n = if self.j.len() <= self.x.len() {
            self.j.len()
        } else {
            self.x.len()
        };
        let ghost msgs = self.messages(e@);
        let mut acc = acc_in;
        let mut i: usize = 0;
        assert(msgs.take(0) =~= Seq::<Revealed>::empty());
        while i < n
            invariant
                n == self.message_count(),
                n <= self.j@.len(),
                n <= self.x@.len(),
                msgs == self.messages(e@),
                i <= n,
                acc@ == accumulate(acc_in@, msgs.take(i as int)),
            decreases n - i,
        {
            let m = reveal_message(h, &self.a0, &e, &self.j[i], &self.x[i]);
            acc = absorb_message(h, &acc, &m);
            proof {
                let prefix = msgs.take(i + 1);
                assert(prefix.drop_last() =~= msgs.take(i as int));
                assert(prefix.last() == msgs[i as int]);
            }
            i = i + 1;
        }
        assert(msgs.take(n as int) =~= msgs);
        let mut z_out: Vec<Scalar> = Vec::new();
        z_out.push(r_in);
        z_out.push(e);
        z_out.push(acc);
        assert(values(z_out@) =~= seq![r_in@, e@, acc@]);
        StepOutput { z_out, root_matches }
    }
}

} // verus!
