//! Elements of the BN254 scalar field, the field over which the folded
//! relation is stated.
//!
//! A [`Scalar`] holds the canonical little-endian encoding of a field element;
//! its view is the integer that the encoding denotes, always below
//! [`modulus`].
use nova_snark::provider::bn256_grumpkin::bn256::Scalar as Fr;
use vstd::prelude::*;

verus! {

/// The order of the BN254 scalar field.
pub open spec fn modulus() -> nat {
    21888242871839275222246405745257275088548364400416034343698204186575808495617nat
}

/// The integer denoted by a little-endian byte string.
pub open spec fn le_value(bytes: Seq<u8>) -> nat
    decreases bytes.len(),
{
    if bytes.len() == 0 {
        0
    } else {
        bytes[0] as nat + 256 * le_value(bytes.drop_first())
    }
}

/// A string of zero bytes denotes zero.
pub proof fn lemma_le_value_zeros(bytes: Seq<u8>)
    requires
        forall|i: int| 0 <= i < bytes.len() ==> bytes[i] == 0,
    ensures
        le_value(bytes) == 0,
    decreases bytes.len(),
{
    if bytes.len() > 0 {
        lemma_le_value_zeros(bytes.drop_first());
    }
}

/// Trailing zero bytes do not change the denoted integer.
pub proof fn lemma_le_value_trailing_zeros(bytes: Seq<u8>, k: nat)
    requires
        k <= bytes.len(),
        forall|i: int| k <= i < bytes.len() ==> bytes[i] == 0,
    ensures
        le_value(bytes) == le_value(bytes.take(k as int)),
    decreases k,
{
    if k == 0 {
        lemma_le_value_zeros(bytes);
        assert(bytes.take(0) =~= Seq::<u8>::empty());
    } else {
        let rest = bytes.drop_first();
        lemma_le_value_trailing_zeros(rest, (k - 1) as nat);
        assert(bytes.take(k as int).drop_first() =~= rest.take(k - 1));
    }
}

/// Two byte strings of one length that denote the same integer are equal.
pub proof fn lemma_le_value_injective(a: Seq<u8>, b: Seq<u8>)
    requires
        a.len() == b.len(),
        le_value(a) == le_value(b),
    ensures
        a == b,
    decreases a.len(),
{
    if a.len() > 0 {
        let ra = le_value(a.drop_first());
        let rb = le_value(b.drop_first());
        assert(a[0] as nat == (a[0] as nat + 256 * ra) % 256 && ra == (a[0] as nat + 256 * ra)
            / 256) by (nonlinear_arith)
            requires
                a[0] < 256,
        ;
        assert(b[0] as nat == (b[0] as nat + 256 * rb) % 256 && rb == (b[0] as nat + 256 * rb)
            / 256) by (nonlinear_arith)
            requires
                b[0] < 256,
        ;
        lemma_le_value_injective(a.drop_first(), b.drop_first());
        assert(a =~= b) by {
            assert forall|i: int| 0 <= i < a.len() implies a[i] == b[i] by {
                if i > 0 {
                    assert(a[i] == a.drop_first()[i - 1]);
                    assert(b[i] == b.drop_first()[i - 1]);
                }
            }
        }
    } else {
        assert(a =~= b);
    }
}

/// An element of the BN254 scalar field, held as its canonical
/// little-endian encoding.
#[derive(Clone, Copy, Debug, PartialEq, Eq)]
pub struct Scalar {
    pub(crate) bytes: [u8; 32],
}

impl Scalar {
    /// The encoding is canonical: it denotes an integer below the modulus.
    #[verifier::type_invariant]
    spec fn canonical(self) -> bool {
        le_value(self.bytes@) < modulus()
    }

    /// The integer in `[0, modulus())` that this element stands for: the
    /// integer its encoding denotes (canonical encodings are below the
    /// modulus, so the reduction leaves them unchanged).
    pub closed spec fn value(self) -> nat {
        le_value(self.bytes@) % modulus()
    }

    /// The additive identity.
    pub fn zero() -> (r: Scalar)
        ensures
            r@ == 0,
    {
        let bytes = [0u8; 32];
        proof {
            lemma_le_value_zeros(bytes@);
            vstd::arithmetic::div_mod::lemma_small_mod(0, modulus());
        }
        Scalar { bytes }
    }

    /// The element that the integer `n` stands for.
    pub fn from_u64(n: u64) -> (r: Scalar)
        ensures
            r@ == n,
    {
        let b0 = (n & 0xff) as u8;
        let b1 = ((n >> 8u64) & 0xff) as u8;
        let b2 = ((n >> 16u64) & 0xff) as u8;
        let b3 = ((n >> 24u64) & 0xff) as u8;
        let b4 = ((n >> 32u64) & 0xff) as u8;
        let b5 = ((n >> 40u64) & 0xff) as u8;
        let b6 = ((n >> 48u64) & 0xff) as u8;
        let b7 = ((n >> 56u64) & 0xff) as u8;
        let bytes = [
            b0, b1, b2, b3, b4, b5, b6, b7,
            0, 0, 0, 0, 0, 0, 0, 0,
            0, 0, 0, 0, 0, 0, 0, 0,
            0, 0, 0, 0, 0, 0, 0, 0,
        ];
        proof {
            assert(n == b0 as nat + 256 * (b1 as nat + 256 * (b2 as nat + 256 * (b3 as nat + 256 * (
            b4 as nat + 256 * (b5 as nat + 256 * (b6 as nat + 256 * (b7 as nat)))))))) by (bit_vector)
                requires
                    b0 == (n & 0xff) as u8,
                    b1 == ((n >> 8u64) & 0xff) as u8,
                    b2 == ((n >> 16u64) & 0xff) as u8,
                    b3 == ((n >> 24u64) & 0xff) as u8,
                    b4 == ((n >> 32u64) & 0xff) as u8,
                    b5 == ((n >> 40u64) & 0xff) as u8,
                    b6 == ((n >> 48u64) & 0xff) as u8,
                    b7 == ((n >> 56u64) & 0xff) as u8,
            ;
            lemma_le_value_trailing_zeros(bytes@, 8);
            let low = bytes@.take(8);
            assert(low =~= seq![b0, b1, b2, b3, b4, b5, b6, b7]);
            reveal_with_fuel(le_value, 9);
            assert(le_value(low) == n);
            assert(n < modulus());
            vstd::arithmetic::div_mod::lemma_small_mod(n as nat, modulus());
        }
        Scalar { bytes }
    }

    /// Whether the two elements are equal.
    pub fn equals(&self, other: &Scalar) -> (r: bool)
        ensures
            r == (self@ == other@),
    {
        proof {
            use_type_invariant(self);
            use_type_invariant(other);
            vstd::arithmetic::div_mod::lemma_small_mod(le_value(self.bytes@), modulus());
            vstd::arithmetic::div_mod::lemma_small_mod(le_value(other.bytes@), modulus());
        }
        let mut i: usize = 0;
        while i < 32
            invariant
                i <= 32,
                self.bytes@.len() == 32,
                other.bytes@.len() == 32,
                le_value(self.bytes@) == self@,
                le_value(other.bytes@) == other@,
                forall|t: int| 0 <= t < i ==> self.bytes@[t] == other.bytes@[t],
            decreases 32 - i,
        {
            if self.bytes[i] != other.bytes[i] {
                proof {
                    if self@ == other@ {
                        lemma_le_value_injective(self.bytes@, other.bytes@);
                    }
                }
                return false;
            }
            i = i + 1;
        }
        assert(self.bytes@ =~= other.bytes@);
        true
    }

    /// The canonical little-endian encoding of this element.
    pub fn to_bytes(&self) -> (r: [u8; 32])
        ensures
            le_value(r@) == self@,
    {
        proof {
            use_type_invariant(self);
            vstd::arithmetic::div_mod::lemma_small_mod(le_value(self.bytes@), modulus());
        }
        self.bytes
    }
}

/// Field addition, by `Add` of the BN254 scalar field of `halo2curves`
/// (reached through `nova_snark`'s `bn256::Scalar`); the contract claims the
/// sum modulo the field's order, which is what a prime field's addition is.
#[verifier::external_body]
pub(crate) fn field_add(a: &Scalar, b: &Scalar) -> (r: Scalar)
    ensures
        r@ == (a@ + b@) % modulus(),
{
    let x = Fr::from_bytes(&a.bytes).unwrap();
    let y = Fr::from_bytes(&b.bytes).unwrap();
    Scalar { bytes: (x + y).to_bytes() }
}

/// Field multiplication, by `Mul` of the BN254 scalar field of `halo2curves`
/// (reached through `nova_snark`'s `bn256::Scalar`); the contract claims the
/// product modulo the field's order.
#[verifier::external_body]
pub(crate) fn field_mul(a: &Scalar, b: &Scalar) -> (r: Scalar)
    ensures
        r@ == (a@ * b@) % modulus(),
{
    let x = Fr::from_bytes(&a.bytes).unwrap();
    let y = Fr::from_bytes(&b.bytes).unwrap();
    Scalar { bytes: (x * y).to_bytes() }
}

impl View for Scalar {
    type V = nat;

    closed spec fn view(&self) -> nat {
        self.value()
    }
}

/// Every element's value lies in `[0, modulus())`.
pub broadcast proof fn lemma_value_in_field(s: Scalar)
    ensures
        #[trigger] s@ < modulus(),
{
    vstd::arithmetic::div_mod::lemma_mod_bound(le_value(s.bytes@) as int, modulus() as int);
}

} // verus!
