//! The scalar field of BN254: its elements, their integer model and arithmetic.
//!
//! An element is held as its canonical representative, an integer below the
//! field's order, in four 64-bit limbs. The arithmetic itself is `ark_ff`'s;
//! each operation is stated here over the integers.

use ark_ff::{BigInteger256, Field, PrimeField, UniformRand};
use ark_std::rand::rngs::StdRng;
use vstd::arithmetic::div_mod::{lemma_mul_mod_noop_general, lemma_small_mod};
use vstd::arithmetic::mul::lemma_mul_is_associative;
use vstd::prelude::*;

verus! {

/// The order of the scalar field.
pub open spec fn fr_modulus() -> nat {
    21888242871839275222246405745257275088548364400416034343698204186575808495617nat
}

/// The integer that four 64-bit limbs hold, least significant limb first.
pub open spec fn limbs_value(l: Seq<u64>) -> nat {
    (l[0] as nat) + (l[1] as nat) * 0x1_0000_0000_0000_0000nat + (l[2] as nat)
        * 0x1_0000_0000_0000_0000_0000_0000_0000_0000nat + (l[3] as nat)
        * 0x1_0000_0000_0000_0000_0000_0000_0000_0000_0000_0000_0000_0000nat
}

/// The integer that a byte string holds, least significant byte first.
pub open spec fn le_value(b: Seq<u8>) -> nat
    decreases b.len(),
{
    if b.len() == 0 {
        0
    } else {
        (b[0] as nat) + 256 * le_value(b.drop_first())
    }
}

/// Whether the characters are a decimal numeral: digits only, at least one,
/// and no zero in front of another digit.
pub open spec fn is_decimal(s: Seq<char>) -> bool {
    &&& s.len() > 0
    &&& forall|i: int| 0 <= i < s.len() ==> 48 <= (#[trigger] s[i]) as u32 <= 57
    &&& (s[0] as u32 != 48 || s.len() == 1)
}

/// The number that a decimal numeral stands for.
pub open spec fn decimal_value(s: Seq<char>) -> nat
    decreases s.len(),
{
    if s.len() == 0 {
        0
    } else {
        10 * decimal_value(s.drop_last()) + ((s.last() as u32 - 48) as nat)
    }
}

/// Addition in the field, over representatives.
pub open spec fn fr_add_spec(a: nat, b: nat) -> nat {
    (a + b) % fr_modulus()
}

/// Subtraction in the field, over representatives.
pub open spec fn fr_sub_spec(a: nat, b: nat) -> nat {
    ((a as int - b as int) % (fr_modulus() as int)) as nat
}

/// Multiplication in the field, over representatives.
pub open spec fn fr_mul_spec(a: nat, b: nat) -> nat {
    (a * b) % fr_modulus()
}

/// The additive inverse in the field.
pub open spec fn fr_neg_spec(a: nat) -> nat {
    fr_sub_spec(0, a)
}

/// `b` raised to `e` in the field.
pub open spec fn fr_pow_spec(b: nat, e: nat) -> nat
    decreases e,
{
    if e == 0 {
        1
    } else {
        fr_mul_spec(b, fr_pow_spec(b, (e - 1) as nat))
    }
}

/// Whether `x` is the canonical multiplicative inverse of `a`.
pub open spec fn fr_is_inverse(a: nat, x: nat) -> bool {
    x < fr_modulus() && fr_mul_spec(a, x) == 1
}

/// The multiplicative inverse of `a`, where it has one.
pub open spec fn fr_inverse_spec(a: nat) -> nat {
    choose|x: nat| fr_is_inverse(a, x)
}

/// An element has at most one canonical inverse.
pub proof fn lemma_inverse_unique(a: nat, x: nat, y: nat)
    requires
        fr_is_inverse(a, x),
        fr_is_inverse(a, y),
    ensures
        x == y,
{
    let m = fr_modulus() as int;
    let (ai, xi, yi) = (a as int, x as int, y as int);
    // x = x * (a * y) = (x * a) * y = y, all modulo m.
    lemma_mul_mod_noop_general(xi, ai * yi, m);
    assert((xi * ((ai * yi) % m)) % m == (xi * (ai * yi)) % m);
    assert((xi * 1) % m == (xi * (ai * yi)) % m);
    lemma_mul_is_associative(xi, ai, yi);
    assert(xi * (ai * yi) == (xi * ai) * yi);
    lemma_mul_mod_noop_general(xi * ai, yi, m);
    assert((((xi * ai) % m) * yi) % m == ((xi * ai) * yi) % m);
    assert(xi * ai == ai * xi) by (nonlinear_arith);
    assert((1 * yi) % m == ((xi * ai) * yi) % m);
    lemma_small_mod(x, fr_modulus());
    lemma_small_mod(y, fr_modulus());
}

/// The inverse that [`fr_inverse_spec`] names is the one that was found.
pub proof fn lemma_inverse_is(a: nat, x: nat)
    requires
        fr_is_inverse(a, x),
    ensures
        fr_inverse_spec(a) == x,
        fr_mul_spec(a, fr_inverse_spec(a)) == 1,
{
    lemma_inverse_unique(a, x, fr_inverse_spec(a));
}

/// An element of the scalar field.
#[derive(Clone, Copy, Debug)]
pub struct Scalar {
    limbs: [u64; 4],
}

impl View for Scalar {
    type V = nat;

    closed spec fn view(&self) -> nat {
        limbs_value(self.limbs@)
    }
}

/// The views of a sequence of elements.
pub open spec fn fr_values(s: Seq<Scalar>) -> Seq<nat> {
    Seq::new(s.len(), |i: int| s[i]@)
}

impl Scalar {
    /// Every element is held as the representative below the field's order.
    #[verifier::type_invariant]
    pub open spec fn canonical(self) -> bool {
        self@ < fr_modulus()
    }

    pub fn zero() -> (r: Scalar)
        ensures
            r@ == 0,
    {
        Scalar { limbs: [0, 0, 0, 0] }
    }

    pub fn one() -> (r: Scalar)
        ensures
            r@ == 1,
    {
        Scalar { limbs: [1, 0, 0, 0] }
    }

    pub fn from_u64(x: u64) -> (r: Scalar)
        ensures
            r@ == x,
    {
        Scalar { limbs: [x, 0, 0, 0] }
    }

    /// The element with the given limbs, where they hold a canonical
    /// representative.
    pub fn from_limbs(l: [u64; 4]) -> (r: Option<Scalar>)
        ensures
            r is Some <==> limbs_value(l@) < fr_modulus(),
            r is Some ==> r->0@ == limbs_value(l@),
    {
        let below = if l[3] != 3486998266802970665u64 {
            l[3] < 3486998266802970665u64
        } else if l[2] != 13281191951274694749u64 {
            l[2] < 13281191951274694749u64
        } else if l[1] != 2896914383306846353u64 {
            l[1] < 2896914383306846353u64
        } else {
            l[0] < 4891460686036598785u64
        };
        if below {
            Some(Scalar { limbs: l })
        } else {
            None
        }
    }

    /// The element that the decimal numeral stands for, reduced into the
    /// field; nothing where `s` is no decimal numeral.
    pub fn from_decimal(s: &str) -> (r: Option<Scalar>)
        ensures
            r is Some <==> is_decimal(s@),
            r is Some ==> r->0@ == decimal_value(s@) % fr_modulus(),
    {
        fr_parse(s)
    }

    pub fn to_limbs(&self) -> (l: [u64; 4])
        ensures
            limbs_value(l@) == self@,
            limbs_value(l@) < fr_modulus(),
    {
        proof {
            use_type_invariant(self);
        }
        self.limbs
    }

    pub fn is_zero(&self) -> (b: bool)
        ensures
            b == (self@ == 0),
    {
        self.limbs[0] == 0 && self.limbs[1] == 0 && self.limbs[2] == 0 && self.limbs[3] == 0
    }

    /// Whether two elements are the same element of the field.
    pub fn eq(&self, other: &Scalar) -> (b: bool)
        ensures
            b == (self@ == other@),
            b == (*self == *other),
    {
        let b = self.limbs[0] == other.limbs[0] && self.limbs[1] == other.limbs[1]
            && self.limbs[2] == other.limbs[2] && self.limbs[3] == other.limbs[3];
        proof {
            if b {
                assert(self.limbs@ =~= other.limbs@);
                assert(self.limbs =~= other.limbs);
            }
        }
        b
    }

    pub fn add(&self, other: &Scalar) -> (r: Scalar)
        ensures
            r@ == fr_add_spec(self@, other@),
    {
        fr_add(self, other)
    }

    pub fn sub(&self, other: &Scalar) -> (r: Scalar)
        ensures
            r@ == fr_sub_spec(self@, other@),
    {
        fr_sub(self, other)
    }

    pub fn mul(&self, other: &Scalar) -> (r: Scalar)
        ensures
            r@ == fr_mul_spec(self@, other@),
    {
        fr_mul(self, other)
    }

    pub fn neg(&self) -> (r: Scalar)
        ensures
            r@ == fr_neg_spec(self@),
    {
        fr_neg(self)
    }

    pub fn square(&self) -> (r: Scalar)
        ensures
            r@ == fr_mul_spec(self@, self@),
    {
        fr_square(self)
    }

    /// The multiplicative inverse; zero has none.
    pub fn inverse(&self) -> (r: Option<Scalar>)
        ensures
            r is None <==> self@ == 0,
            r is Some ==> r->0@ == fr_inverse_spec(self@) && fr_is_inverse(self@, r->0@),
    {
        let r = fr_inverse(self);
        proof {
            if let Some(x) = r {
                use_type_invariant(x);
                lemma_inverse_is(self@, x@);
            }
        }
        r
    }

    pub fn pow(&self, e: u64) -> (r: Scalar)
        ensures
            r@ == fr_pow_spec(self@, e as nat),
    {
        fr_pow(self, e)
    }
}

/// `ark_ff`'s addition on `ark_bn254::Fr`: the sum of the two values, reduced
/// modulo the field's order.
#[verifier::external_body]
pub(crate) fn fr_add(a: &Scalar, b: &Scalar) -> (r: Scalar)
    ensures
        r@ == fr_add_spec(a@, b@),
{
    let x = ark_bn254::Fr::from_repr(BigInteger256(a.limbs)).unwrap();
    let y = ark_bn254::Fr::from_repr(BigInteger256(b.limbs)).unwrap();
    Scalar { limbs: (x + y).into_repr().0 }
}

/// `ark_ff`'s subtraction on `ark_bn254::Fr`: the difference of the two
/// values, reduced modulo the field's order into the canonical range.
#[verifier::external_body]
pub(crate) fn fr_sub(a: &Scalar, b: &Scalar) -> (r: Scalar)
    ensures
        r@ == fr_sub_spec(a@, b@),
{
    let x = ark_bn254::Fr::from_repr(BigInteger256(a.limbs)).unwrap();
    let y = ark_bn254::Fr::from_repr(BigInteger256(b.limbs)).unwrap();
    Scalar { limbs: (x - y).into_repr().0 }
}

/// `ark_ff`'s multiplication on `ark_bn254::Fr`: the product of the two
/// values, reduced modulo the field's order.
#[verifier::external_body]
pub(crate) fn fr_mul(a: &Scalar, b: &Scalar) -> (r: Scalar)
    ensures
        r@ == fr_mul_spec(a@, b@),
{
    let x = ark_bn254::Fr::from_repr(BigInteger256(a.limbs)).unwrap();
    let y = ark_bn254::Fr::from_repr(BigInteger256(b.limbs)).unwrap();
    Scalar { limbs: (x * y).into_repr().0 }
}

/// `ark_ff`'s negation on `ark_bn254::Fr`: zero for zero, else the field's
/// order minus the value.
#[verifier::external_body]
pub(crate) fn fr_neg(a: &Scalar) -> (r: Scalar)
    ensures
        r@ == fr_neg_spec(a@),
{
    let x = ark_bn254::Fr::from_repr(BigInteger256(a.limbs)).unwrap();
    Scalar { limbs: (-x).into_repr().0 }
}

/// `ark_ff::Field::square` on `ark_bn254::Fr`: the value times itself, reduced
/// modulo the field's order.
#[verifier::external_body]
pub(crate) fn fr_square(a: &Scalar) -> (r: Scalar)
    ensures
        r@ == fr_mul_spec(a@, a@),
{
    let x = ark_bn254::Fr::from_repr(BigInteger256(a.limbs)).unwrap();
    Scalar { limbs: x.square().into_repr().0 }
}

/// `ark_ff::Field::inverse` on `ark_bn254::Fr`: nothing for zero, else the
/// element whose product with the argument is one.
#[verifier::external_body]
pub(crate) fn fr_inverse(a: &Scalar) -> (r: Option<Scalar>)
    ensures
        r is None <==> a@ == 0,
        r is Some ==> fr_mul_spec(a@, r->0@) == 1,
{
    let x = ark_bn254::Fr::from_repr(BigInteger256(a.limbs)).unwrap();
    x.inverse().map(|y| Scalar { limbs: y.into_repr().0 })
}

/// `ark_ff::Field::pow` on `ark_bn254::Fr` with a one-limb exponent: the value
/// raised to the exponent in the field.
#[verifier::external_body]
pub(crate) fn fr_pow(a: &Scalar, e: u64) -> (r: Scalar)
    ensures
        r@ == fr_pow_spec(a@, e as nat),
{
    let x = ark_bn254::Fr::from_repr(BigInteger256(a.limbs)).unwrap();
    Scalar { limbs: x.pow(&[e]).into_repr().0 }
}

/// `FromStr` on `ark_bn254::Fr`: it reads a decimal numeral without needless
/// zeros in front and reduces its value into the field; it fails on anything
/// else.
#[verifier::external_body]
pub(crate) fn fr_parse(s: &str) -> (r: Option<Scalar>)
    ensures
        r is Some <==> is_decimal(s@),
        r is Some ==> r->0@ == decimal_value(s@) % fr_modulus(),
{
    s.parse::<ark_bn254::Fr>().ok().map(|y| Scalar { limbs: y.into_repr().0 })
}

/// The value that [`fr_from_random_bytes`] reads out of 32 bytes: the
/// little-endian integer with its two highest bits cleared.
pub open spec fn shaved_value(bytes: Seq<u8>) -> nat {
    le_value(bytes) % 0x4000_0000_0000_0000_0000_0000_0000_0000_0000_0000_0000_0000_0000_0000_0000_0000nat
}

/// `ark_ff::Field::from_random_bytes` on `ark_bn254::Fr`, for 32 bytes: the
/// bits above the modulus' 254 are cleared, and what is left is the element if
/// it lies below the field's order.
#[verifier::external_body]
pub(crate) fn fr_from_random_bytes(bytes: &Vec<u8>) -> (r: Option<Scalar>)
    requires
        bytes.len() == 32,
    ensures
        r is Some <==> shaved_value(bytes@) < fr_modulus(),
        r is Some ==> r->0@ == shaved_value(bytes@),
{
    ark_bn254::Fr::from_random_bytes(&bytes[..]).map(|y| Scalar { limbs: y.into_repr().0 })
}

/// A source of randomness: `rand`'s standard generator, as `ark_std` hands it on.
#[verifier::external_type_specification]
#[verifier::external_body]
pub struct ExStdRng(StdRng);

/// `ark_ff::UniformRand::rand` on `ark_bn254::Fr`: some element of the field.
#[verifier::external_body]
pub(crate) fn fr_random(rng: &mut StdRng) -> (r: Scalar) {
    Scalar { limbs: ark_bn254::Fr::rand(rng).into_repr().0 }
}

} // verus!
