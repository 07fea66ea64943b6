//! The Poseidon hash over the BN254 scalar field: the sponge of `nova_snark`
//! with the standard-strength constants of width 24, absorbing all inputs
//! in one pass and squeezing one element.
use crate::field::Scalar;
use generic_array::typenum::U24;
use nova_snark::frontend::gadgets::poseidon::{
    IOPattern, PoseidonConstants, Simplex, Sponge, SpongeAPI, SpongeOp, SpongeTrait, Strength,
};
use nova_snark::provider::bn256_grumpkin::bn256::Scalar as Fr;
use vstd::prelude::*;

verus! {

/// The Poseidon digest of a sequence of field elements, each given by its
/// value in `[0, modulus())`.
pub uninterp spec fn poseidon(inputs: Seq<nat>) -> nat;

/// The values of a sequence of field elements.
pub open spec fn values(s: Seq<Scalar>) -> Seq<nat> {
    s.map_values(|x: Scalar| x@)
}

/// The round constants and matrices of `nova_snark`'s Poseidon sponge of
/// width 24 at standard strength, built once and shared by every hash.
///
/// The struct is opaque to verification: `nova_snark`'s `PoseidonConstants`
/// is generic over a trait that the crate keeps private, so it cannot be
/// declared as an outside type. Its one constructor is [`PoseidonHasher::new`].
#[verifier::external_body]
pub struct PoseidonHasher {
    constants: PoseidonConstants<Fr, U24>,
}

impl PoseidonHasher {
    /// Builds the constants by `nova_snark`'s
    /// `Sponge::<Fr, U24>::api_constants(Strength::Standard)`. Nothing is
    /// claimed of the result; what the constants are for is stated by
    /// `poseidon_native`.
    #[verifier::external_body]
    pub fn new() -> (h: PoseidonHasher) {
        PoseidonHasher { constants: Sponge::<Fr, U24>::api_constants(Strength::Standard) }
    }
}

/// Absorb-all, squeeze-one Poseidon hash by `nova_snark`'s native `Sponge`
/// (the constants of a [`PoseidonHasher`], `Simplex` mode, the pattern
/// `Absorb(n), Squeeze(1)`). The contract claims only that the
/// digest is the one that `poseidon` names for the inputs' values. The
/// absorb length is a `u32` whose top bit the sponge refuses, hence the
/// bound on the number of inputs.
#[verifier::external_body]
pub(crate) fn poseidon_native(h: &PoseidonHasher, inputs: &[Scalar]) -> (r: Scalar)
    requires
        inputs@.len() < 0x8000_0000,
    ensures
        r@ == poseidon(values(inputs@)),
{
    let elts: Vec<Fr> = inputs.iter().map(|s| Fr::from_bytes(&s.bytes).unwrap()).collect();
    let n = elts.len() as u32;
    let mut sponge = Sponge::new_with_constants(&h.constants, Simplex);
    let acc = &mut ();
    sponge.start(IOPattern(vec![SpongeOp::Absorb(n), SpongeOp::Squeeze(1u32)]), None, acc);
    SpongeAPI::absorb(&mut sponge, n, &elts, acc);
    let out = SpongeAPI::squeeze(&mut sponge, 1, acc);
    sponge.finish(acc).unwrap();
    Scalar { bytes: out[0].to_bytes() }
}

/// The digest of one element.
pub fn hash1(h: &PoseidonHasher, a: &Scalar) -> (r: Scalar)
    ensures
        r@ == poseidon(seq![a@]),
{
    let v = vec![*a];
    proof {
        assert(values(v@) =~= seq![a@]);
    }
    poseidon_native(h, v.as_slice())
}

/// The digest of two elements, in this order.
pub fn hash2(h: &PoseidonHasher, a: &Scalar, b: &Scalar) -> (r: Scalar)
    ensures
        r@ == poseidon(seq![a@, b@]),
{
    let v = vec![*a, *b];
    proof {
        assert(values(v@) =~= seq![a@, b@]);
    }
    poseidon_native(h, v.as_slice())
}

/// The digest of three elements, in this order.
pub fn hash3(h: &PoseidonHasher, a: &Scalar, b: &Scalar, c: &Scalar) -> (r: Scalar)
    ensures
        r@ == poseidon(seq![a@, b@, c@]),
{
    let v = vec![*a, *b, *c];
    proof {
        assert(values(v@) =~= seq![a@, b@, c@]);
    }
    poseidon_native(h, v.as_slice())
}

/// The digest of four elements, in this order.
pub fn hash4(h: &PoseidonHasher, a: &Scalar, b: &Scalar, c: &Scalar, d: &Scalar) -> (r: Scalar)
    ensures
        r@ == poseidon(seq![a@, b@, c@, d@]),
{
    let v = vec![*a, *b, *c, *d];
    proof {
        assert(values(v@) =~= seq![a@, b@, c@, d@]);
    }
    poseidon_native(h, v.as_slice())
}

} // verus!
