//! Prime-field elements: the interface the permutation is generic over, and
//! its implementation for the BLS12-381 scalar field.
use vstd::prelude::*;
use vstd::arithmetic::power::pow;

verus! {

/// The prime order of the BLS12-381 scalar field.
pub open spec fn bls12_381_modulus() -> int {
    limbs_value(
        seq![
            0xffff_ffff_0000_0001u64,
            0x53bd_a402_fffe_5bfeu64,
            0x3339_d808_09a1_d805u64,
            0x73ed_a753_299d_7d48u64,
        ],
    )
}

/// The weight of one 64-bit limb.
pub open spec fn limb_base() -> int {
    0x1_0000_0000_0000_0000
}

/// The value of four little-endian 64-bit limbs.
pub open spec fn limbs_value(l: Seq<u64>) -> int {
    l[0] as int + limb_base() * (l[1] as int + limb_base() * (l[2] as int + limb_base()
        * l[3] as int))
}

/// Addition modulo `p`.
pub open spec fn fadd(p: int, a: int, b: int) -> int {
    (a + b) % p
}

/// Multiplication modulo `p`.
pub open spec fn fmul(p: int, a: int, b: int) -> int {
    (a * b) % p
}

/// Exponentiation by a natural exponent modulo `p`.
pub open spec fn fpow(p: int, a: int, e: nat) -> int {
    pow(a, e) % p
}

/// An element of a prime field, seen as its canonical representative, with
/// the operations the permutation needs.
pub trait FieldElement: Copy + Sized {
    /// The prime order of the field.
    spec fn modulus() -> int;

    /// The canonical representative of the element.
    spec fn value(&self) -> int;

    /// The additive identity.
    fn zero() -> (r: Self)
        ensures
            r.value() == 0,
    ;

    /// Field addition.
    fn add(&self, other: &Self) -> (r: Self)
        ensures
            r.value() == fadd(Self::modulus(), self.value(), other.value()),
    ;

    /// Field multiplication.
    fn mul(&self, other: &Self) -> (r: Self)
        ensures
            r.value() == fmul(Self::modulus(), self.value(), other.value()),
    ;

    /// Exponentiation by a small exponent.
    fn pow(&self, e: u32) -> (r: Self)
        ensures
            r.value() == fpow(Self::modulus(), self.value(), e as nat),
    ;
}

/// An element of the scalar field, held as its canonical representative in
/// four little-endian 64-bit limbs.
#[derive(Clone, Copy, Debug)]
pub struct Scalar {
    limbs: [u64; 4],
}

/// Relies on `ark_ff`'s `Add` for `ark_bls12_381::Fr` (with the `From`
/// conversions between `Fr` and `BigInt<4>`): addition modulo the prime.
#[verifier::external_body]
fn ark_add(a: [u64; 4], b: [u64; 4]) -> (r: [u64; 4])
    requires
        limbs_value(a@) < bls12_381_modulus(),
        limbs_value(b@) < bls12_381_modulus(),
    ensures
        limbs_value(r@) == fadd(bls12_381_modulus(), limbs_value(a@), limbs_value(b@)),
{
    let x = ark_bls12_381::Fr::from(ark_ff::BigInt::new(a));
    let y = ark_bls12_381::Fr::from(ark_ff::BigInt::new(b));
    ark_ff::BigInt::from(x + y).0
}

/// Relies on `ark_ff`'s `Mul` for `ark_bls12_381::Fr` (with the `From`
/// conversions between `Fr` and `BigInt<4>`): multiplication modulo the prime.
#[verifier::external_body]
fn ark_mul(a: [u64; 4], b: [u64; 4]) -> (r: [u64; 4])
    requires
        limbs_value(a@) < bls12_381_modulus(),
        limbs_value(b@) < bls12_381_modulus(),
    ensures
        limbs_value(r@) == fmul(bls12_381_modulus(), limbs_value(a@), limbs_value(b@)),
{
    let x = ark_bls12_381::Fr::from(ark_ff::BigInt::new(a));
    let y = ark_bls12_381::Fr::from(ark_ff::BigInt::new(b));
    ark_ff::BigInt::from(x * y).0
}

/// Relies on `ark_ff::Field::pow` for `ark_bls12_381::Fr` (with the `From`
/// conversions between `Fr` and `BigInt<4>`): the power modulo the prime.
#[verifier::external_body]
fn ark_pow(a: [u64; 4], e: u64) -> (r: [u64; 4])
    requires
        limbs_value(a@) < bls12_381_modulus(),
    ensures
        limbs_value(r@) == fpow(bls12_381_modulus(), limbs_value(a@), e as nat),
{
    let x = ark_bls12_381::Fr::from(ark_ff::BigInt::new(a));
    ark_ff::BigInt::from(ark_ff::Field::pow(&x, [e])).0
}

/// Relies on `ark_ff::PrimeField::from_bigint` for `ark_bls12_381::Fr`:
/// it succeeds exactly when the integer is below the modulus.
#[verifier::external_body]
fn ark_is_canonical(l: [u64; 4]) -> (r: bool)
    ensures
        r == (limbs_value(l@) < bls12_381_modulus()),
{
    <ark_bls12_381::Fr as ark_ff::PrimeField>::from_bigint(ark_ff::BigInt::new(l)).is_some()
}

impl View for Scalar {
    type V = int;

    closed spec fn view(&self) -> int {
        limbs_value(self.limbs@)
    }
}

impl Scalar {
    #[verifier::type_invariant]
    spec fn canonical(self) -> bool {
        0 <= limbs_value(self.limbs@) < bls12_381_modulus()
    }

    /// The element with the given small integer value.
    pub fn from_u64(n: u64) -> (r: Scalar)
        ensures
            r@ == n as int,
    {
        Scalar { limbs: [n, 0, 0, 0] }
    }

    /// The element whose canonical representative has these little-endian
    /// limbs, or `None` when they encode an integer not below the modulus.
    pub fn from_limbs(limbs: [u64; 4]) -> (r: Option<Scalar>)
        ensures
            limbs_value(limbs@) < bls12_381_modulus() <==> r is Some,
            r matches Some(x) ==> x@ == limbs_value(limbs@),
    {
        if ark_is_canonical(limbs) {
            proof {
                assert(0 <= limbs_value(limbs@));
            }
            Some(Scalar { limbs })
        } else {
            None
        }
    }

    /// The little-endian limbs of the canonical representative.
    pub fn limbs(&self) -> (r: [u64; 4])
        ensures
            limbs_value(r@) == self@,
    {
        self.limbs
    }
}

impl FieldElement for Scalar {
    open spec fn modulus() -> int {
        bls12_381_modulus()
    }

    open spec fn value(&self) -> int {
        self@
    }

    /// The additive identity.
    fn zero() -> (r: Scalar)
    {
        Scalar { limbs: [0, 0, 0, 0] }
    }

    /// Field addition.
    fn add(&self, other: &Scalar) -> (r: Scalar)
    {
        proof {
            use_type_invariant(self);
            use_type_invariant(other);
        }
        Scalar { limbs: ark_add(self.limbs, other.limbs) }
    }

    /// Field multiplication.
    fn mul(&self, other: &Scalar) -> (r: Scalar)
    {
        proof {
            use_type_invariant(self);
            use_type_invariant(other);
        }
        Scalar { limbs: ark_mul(self.limbs, other.limbs) }
    }

    /// Exponentiation by a small exponent.
    fn pow(&self, e: u32) -> (r: Scalar)
    {
        proof {
            use_type_invariant(self);
        }
        Scalar { limbs: ark_pow(self.limbs, e as u64) }
    }
}

} // verus!
