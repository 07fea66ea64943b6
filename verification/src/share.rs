//! The per-message relation of rate-limiting nullifiers and the audit
//! accumulator.
//!
//! A message `x` sent in quota slot `j` of epoch `e` by the member with
//! secret `a0` reveals a point `(x, y)` of the line `y = a0 + a1 * x`, with
//! slope `a1 = Poseidon(a0, e, j)`, and the nullifier `nf = Poseidon(a1)`.
//! Every message extends the accumulator: `acc' = Poseidon(acc, nf, x, y)`.
use crate::field::{field_add, field_mul, modulus, Scalar};
use crate::poseidon::{hash1, hash3, hash4, poseidon, PoseidonHasher};
use vstd::prelude::*;

verus! {

/// `a1 = Poseidon(a0, e, j)`: the slope of the member's line for slot `j`
/// of epoch `e`.
pub open spec fn slot_slope(a0: nat, e: nat, j: nat) -> nat {
    poseidon(seq![a0, e, j])
}

/// `y = a0 + a1 * x` in the field.
pub open spec fn share(a0: nat, a1: nat, x: nat) -> nat {
    (a0 + a1 * x) % modulus()
}

/// `nf = Poseidon(a1)`.
pub open spec fn nullifier(a1: nat) -> nat {
    poseidon(seq![a1])
}

/// What a message reveals: its nullifier, its hash `x` and its share `y`.
pub struct Revealed {
    pub nf: nat,
    pub x: nat,
    pub y: nat,
}

/// The triple that message `x` in slot `j` of epoch `e` reveals.
pub open spec fn revealed(a0: nat, e: nat, j: nat, x: nat) -> Revealed {
    let a1 = slot_slope(a0, e, j);
    Revealed { nf: nullifier(a1), x: x, y: share(a0, a1, x) }
}

/// `acc' = Poseidon(acc, nf, x, y)`.
pub open spec fn absorb(acc: nat, m: Revealed) -> nat {
    poseidon(seq![acc, m.nf, m.x, m.y])
}

/// The accumulator after absorbing `msgs` in order, starting from `acc`.
pub open spec fn accumulate(acc: nat, msgs: Seq<Revealed>) -> nat
    decreases msgs.len(),
{
    if msgs.len() == 0 {
        acc
    } else {
        absorb(accumulate(acc, msgs.drop_last()), msgs.last())
    }
}

/// A revealed triple, as field elements.
#[derive(Clone, Copy, Debug, PartialEq, Eq)]
pub struct RevealedMessage {
    pub nf: Scalar,
    pub x: Scalar,
    pub y: Scalar,
}

impl RevealedMessage {
    /// The values of the triple.
    pub open spec fn spec_revealed(self) -> Revealed {
        Revealed { nf: self.nf@, x: self.x@, y: self.y@ }
    }
}

/// Computes the slope `a1 = Poseidon(a0, e, j)`.
pub fn slot_slope_of(h: &PoseidonHasher, a0: &Scalar, e: &Scalar, j: &Scalar) -> (r: Scalar)
    ensures
        r@ == slot_slope(a0@, e@, j@),
{
    hash3(h, a0, e, j)
}

/// Computes the share `y = a0 + a1 * x` of the message `x` on the line of
/// slope `a1`.
pub fn share_of(a0: &Scalar, a1: &Scalar, x: &Scalar) -> (r: Scalar)
    ensures
        r@ == share(a0@, a1@, x@),
{
    let a1x = field_mul(a1, x);
    let y = field_add(a0, &a1x);
    proof {
        vstd::arithmetic::div_mod::lemma_add_mod_noop_right(
            a0@ as int,
            (a1@ * x@) as int,
            modulus() as int,
        );
    }
    y
}

/// Computes the nullifier `Poseidon(a1)`.
pub fn nullifier_of(h: &PoseidonHasher, a1: &Scalar) -> (r: Scalar)
    ensures
        r@ == nullifier(a1@),
{
    hash1(h, a1)
}

/// Computes what message `x` in slot `j` of epoch `e` reveals.
pub fn reveal_message(h: &PoseidonHasher, a0: &Scalar, e: &Scalar, j: &Scalar, x: &Scalar) -> (r: RevealedMessage)
    ensures
        r.spec_revealed() == revealed(a0@, e@, j@, x@),
        r.nf@ == poseidon(seq![poseidon(seq![a0@, e@, j@])]),
        r.x == *x,
        r.y@ == (a0@ + poseidon(seq![a0@, e@, j@]) * x@) % modulus(),
{
    let a1 = slot_slope_of(h, a0, e, j);
    let y = share_of(a0, &a1, x);
    let nf = nullifier_of(h, &a1);
    RevealedMessage { nf, x: *x, y }
}

/// Extends the accumulator by one revealed message.
pub fn absorb_message(h: &PoseidonHasher, acc: &Scalar, m: &RevealedMessage) -> (r: Scalar)
    ensures
        r@ == absorb(acc@, m.spec_revealed()),
        r@ == poseidon(seq![acc@, m.nf@, m.x@, m.y@]),
{
    hash4(h, acc, &m.nf, &m.x, &m.y)
}

} // verus!
