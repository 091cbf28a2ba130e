//! The groups of BN254: points of G1 and G2 and elements of the target field.
//!
//! A value is held in the plain layout that `ark_ff` reads and writes: each
//! base-field coordinate as 32 little-endian bytes of its canonical
//! representative, and for a point one more byte for the flag of infinity.
//! The group operations and the pairing are `ark_ec`'s. What they return is
//! named here, not computed: a contract that speaks of a sum or of a Miller
//! loop means the value that the outside code yields on those operands.

use crate::field::{decimal_value, fr_values, is_decimal, le_value, Scalar};
use ark_ec::msm::{FixedBaseMSM, VariableBaseMSM};
use ark_ec::{AffineCurve, PairingEngine, ProjectiveCurve};
use ark_ff::{BigInteger256, Field, FromBytes, One, PrimeField, ToBytes};
use ark_serialize::{CanonicalDeserialize, CanonicalSerialize};
use vstd::prelude::*;

verus! {

/// The order of the base field.
pub open spec fn fq_modulus() -> nat {
    21888242871839275222246405745257275088696311157297823662689037894645226208583nat
}

/// Whether the 32 bytes from `at` on hold a canonical base-field element.
pub open spec fn canonical_at(b: Seq<u8>, at: int) -> bool {
    le_value(b.subrange(at, at + 32)) < fq_modulus()
}

/// The layout of a point of G1: `x`, `y`, and the flag of infinity.
pub open spec fn g1_layout(b: Seq<u8>) -> bool {
    &&& b.len() == 65
    &&& canonical_at(b, 0)
    &&& canonical_at(b, 32)
    &&& b[64] <= 1
}

/// The layout of a point of G2: the two halves of `x`, those of `y`, and the
/// flag of infinity.
pub open spec fn g2_layout(b: Seq<u8>) -> bool {
    &&& b.len() == 129
    &&& forall|k: int| 0 <= k < 4 ==> canonical_at(b, #[trigger] (32 * k))
    &&& b[128] <= 1
}

/// The layout of an element of the target field: twelve base-field coefficients.
pub open spec fn fq12_layout(b: Seq<u8>) -> bool {
    &&& b.len() == 384
    &&& forall|k: int| 0 <= k < 12 ==> canonical_at(b, #[trigger] (32 * k))
}

/// The layout of the generator of G1: the point `(1, 2)`.
pub open spec fn g1_generator_layout(b: Seq<u8>) -> bool {
    &&& b.len() == 65
    &&& le_value(b.subrange(0, 32)) == 1
    &&& le_value(b.subrange(32, 64)) == 2
    &&& b[64] == 0
}

/// The layout of the generator of G2.
pub open spec fn g2_generator_layout(b: Seq<u8>) -> bool {
    &&& b.len() == 129
    &&& le_value(b.subrange(0, 32))
        == 10857046999023057135944570762232829481370756359578518086990519993285655852781nat
    &&& le_value(b.subrange(32, 64))
        == 11559732032986387107991004021392285783925812861821192530917403151452391805634nat
    &&& le_value(b.subrange(64, 96))
        == 8495653923123431417604973247489272438418190587263600148770280649306958101930nat
    &&& le_value(b.subrange(96, 128))
        == 4082367875863433681332203403145435568316851327593401208105741076214120093531nat
    &&& b[128] == 0
}

/// The layout of the point at infinity of G1: `(0, 1)` with the flag set.
pub open spec fn g1_infinity_layout(b: Seq<u8>) -> bool {
    &&& b.len() == 65
    &&& le_value(b.subrange(0, 32)) == 0
    &&& le_value(b.subrange(32, 64)) == 1
    &&& b[64] == 1
}

/// The layout of the point at infinity of G2: `(0, 1)` with the flag set.
pub open spec fn g2_infinity_layout(b: Seq<u8>) -> bool {
    &&& b.len() == 129
    &&& le_value(b.subrange(0, 32)) == 0
    &&& le_value(b.subrange(32, 64)) == 0
    &&& le_value(b.subrange(64, 96)) == 1
    &&& le_value(b.subrange(96, 128)) == 0
    &&& b[128] == 1
}

/// The layout of a base-field element.
pub open spec fn fq_layout(b: Seq<u8>) -> bool {
    b.len() == 32 && canonical_at(b, 0)
}

/// The layout of an element of the quadratic extension: two coefficients.
pub open spec fn fq2_layout(b: Seq<u8>) -> bool {
    &&& b.len() == 64
    &&& forall|k: int| 0 <= k < 2 ==> canonical_at(b, #[trigger] (32 * k))
}

/// The layout of an element of the sextic extension: six coefficients.
pub open spec fn fq6_layout(b: Seq<u8>) -> bool {
    &&& b.len() == 192
    &&& forall|k: int| 0 <= k < 6 ==> canonical_at(b, #[trigger] (32 * k))
}

/// The layout of the target field's one: the coefficient one, then zeros.
pub open spec fn fq12_one_layout(b: Seq<u8>) -> bool {
    &&& b.len() == 384
    &&& b[0] == 1
    &&& forall|i: int| 1 <= i < 384 ==> b[i] == 0
}

/// Byte strings of one length that hold the same integer are the same.
pub proof fn lemma_le_value_injective(a: Seq<u8>, b: Seq<u8>)
    requires
        a.len() == b.len(),
        le_value(a) == le_value(b),
    ensures
        a == b,
    decreases a.len(),
{
    if a.len() > 0 {
        let (x, y) = (le_value(a.drop_first()), le_value(b.drop_first()));
        assert(a[0] + 256 * x == b[0] + 256 * y);
        assert(a[0] == b[0] && x == y);
        lemma_le_value_injective(a.drop_first(), b.drop_first());
        assert(a =~= seq![a[0]] + a.drop_first());
        assert(b =~= seq![b[0]] + b.drop_first());
    } else {
        assert(a =~= b);
    }
}

/// Whether two byte arrays hold the same bytes.
pub fn bytes_equal<const N: usize>(a: &[u8; N], b: &[u8; N]) -> (r: bool)
    ensures
        r == (a@ == b@),
        r == (*a == *b),
{
    let mut i: usize = 0;
    while i < N
        invariant
            i <= N,
            forall|j: int| 0 <= j < i ==> a@[j] == b@[j],
        decreases N - i,
    {
        if a[i] != b[i] {
            return false;
        }
        i += 1;
    }
    proof {
        assert(a@ =~= b@);
        assert(*a =~= *b);
    }
    true
}

/// A point of G1, in affine form.
#[derive(Clone, Copy, Debug)]
pub struct G1 {
    bytes: [u8; 65],
}

/// A point of G2, in affine form.
#[derive(Clone, Copy, Debug)]
pub struct G2 {
    bytes: [u8; 129],
}

/// An element of the base field.
#[derive(Clone, Copy, Debug)]
pub struct Fq {
    bytes: [u8; 32],
}

/// An element of the quadratic extension of the base field.
#[derive(Clone, Copy, Debug)]
pub struct Fq2 {
    bytes: [u8; 64],
}

/// An element of the sextic extension of the base field.
#[derive(Clone, Copy, Debug)]
pub struct Fq6 {
    bytes: [u8; 192],
}

/// An element of the target field, the degree-twelve extension of the base field.
#[derive(Clone, Copy, Debug)]
pub struct Fq12 {
    bytes: [u8; 384],
}

/// The affine form of the sum of two points of G1.
pub uninterp spec fn g1_sum(a: G1, b: G1) -> G1;

/// The affine form of a point of G1 times a scalar.
pub uninterp spec fn g1_scaled(p: G1, s: nat) -> G1;

/// The negative of a point of G1.
pub uninterp spec fn g1_negated(p: G1) -> G1;

/// The affine form of the multi-scalar product of bases in G1 and scalars.
pub uninterp spec fn g1_msm_value(bases: Seq<G1>, scalars: Seq<nat>) -> G1;

/// The table of the multiples of a point of G1 in affine form, for scalars
/// of `bits` bits cut into windows of `window` bits: one row for each window.
pub uninterp spec fn g1_window_table(bits: nat, window: nat, g: G1) -> Seq<Seq<G1>>;

/// The affine forms of the products of a point of G1 with each of the
/// scalars, summed up from the table of the point's multiples.
pub uninterp spec fn g1_table_products(
    bits: nat,
    window: nat,
    table: Seq<Seq<G1>>,
    scalars: Seq<nat>,
) -> Seq<G1>;

/// The table of the multiples of a point of G2 in affine form, for scalars
/// of `bits` bits cut into windows of `window` bits: one row for each window.
pub uninterp spec fn g2_window_table(bits: nat, window: nat, g: G2) -> Seq<Seq<G2>>;

/// The affine forms of the products of a point of G2 with each of the
/// scalars, summed up from the table of the point's multiples.
pub uninterp spec fn g2_table_products(
    bits: nat,
    window: nat,
    table: Seq<Seq<G2>>,
    scalars: Seq<nat>,
) -> Seq<G2>;

/// The number of bits of the scalar field's modulus.
pub open spec fn scalar_bits() -> nat {
    254
}

/// The least `k` with `n <= 2^k`.
pub open spec fn log2_up(n: nat) -> nat
    decreases n,
{
    if n <= 1 {
        0
    } else {
        1 + log2_up((n + 1) / 2)
    }
}

/// The width of the windows that a table for `n` scalars is cut into.
pub open spec fn window_size_spec(n: nat) -> nat {
    if n < 32 {
        3
    } else {
        log2_up(n) * 69 / 100
    }
}

/// The rows of a table of points.
pub open spec fn table_rows<G>(t: Seq<Vec<G>>) -> Seq<Seq<G>> {
    Seq::new(t.len(), |i: int| t[i]@)
}

/// The compressed canonical serialisation of a point of G1.
pub uninterp spec fn g1_serialized(p: G1) -> Seq<u8>;

/// The point of G1 that a compressed canonical serialisation holds.
pub uninterp spec fn g1_deserialized(bytes: Seq<u8>) -> Option<G1>;

/// The point of G2 that a compressed canonical serialisation holds.
pub uninterp spec fn g2_deserialized(bytes: Seq<u8>) -> Option<G2>;

/// The element of the target field that a canonical serialisation holds.
pub uninterp spec fn fq12_deserialized(bytes: Seq<u8>) -> Option<Fq12>;

/// The affine form of the sum of two points of G2.
pub uninterp spec fn g2_sum(a: G2, b: G2) -> G2;

/// The affine form of a point of G2 times a scalar.
pub uninterp spec fn g2_scaled(p: G2, s: nat) -> G2;

/// The negative of a point of G2.
pub uninterp spec fn g2_negated(p: G2) -> G2;

/// The affine form of the multi-scalar product of bases in G2 and scalars.
pub uninterp spec fn g2_msm_value(bases: Seq<G2>, scalars: Seq<nat>) -> G2;

/// The compressed canonical serialisation of a point of G2.
pub uninterp spec fn g2_serialized(p: G2) -> Seq<u8>;

/// The sum of two elements of the target field.
pub uninterp spec fn fq12_sum(a: Fq12, b: Fq12) -> Fq12;

/// The product of two elements of the target field.
pub uninterp spec fn fq12_product(a: Fq12, b: Fq12) -> Fq12;

/// An element of the target field raised to a scalar.
pub uninterp spec fn fq12_power(a: Fq12, e: nat) -> Fq12;

/// The canonical serialisation of an element of the target field.
pub uninterp spec fn fq12_serialized(a: Fq12) -> Seq<u8>;

/// The canonical serialisation of a pair of elements of the target field.
pub uninterp spec fn fq12_pair_serialized(a: Fq12, b: Fq12) -> Seq<u8>;

/// The point of G1 with the Jacobian coordinates `x`, `y`, `z`, in affine form.
pub uninterp spec fn g1_affine_value(x: Fq, y: Fq, z: Fq) -> G1;

/// The point of G2 with the Jacobian coordinates `x`, `y`, `z`, in affine form.
pub uninterp spec fn g2_affine_value(x: Fq2, y: Fq2, z: Fq2) -> G2;

/// The point of G2 prepared for the Miller loop: the coefficients of its
/// lines, and whether it is the point at infinity.
pub uninterp spec fn g2_prepared_value(p: G2) -> (Seq<(Fq2, Fq2, Fq2)>, bool);

/// The Miller loop over the pairs `(a[i], b[i])`, before the final exponentiation.
pub uninterp spec fn miller_value(a: Seq<G1>, b: Seq<G2>) -> Fq12;

/// The final exponentiation of a Miller loop's result, where it has one.
pub uninterp spec fn final_exp_value(f: Fq12) -> Option<Fq12>;

/// What the points of G1 and of G2 have in common.
pub trait CurvePoint: Sized + Copy {
    /// The sum of two points.
    spec fn spec_add(self, other: Self) -> Self;

    /// The point times a scalar.
    spec fn spec_mul(self, s: nat) -> Self;

    /// The negative of the point.
    spec fn spec_neg(self) -> Self;

    /// The multi-scalar product of bases and scalars.
    spec fn spec_msm(bases: Seq<Self>, scalars: Seq<nat>) -> Self;

    fn add(&self, other: &Self) -> (r: Self)
        ensures
            r == self.spec_add(*other),
    ;

    fn mul(&self, s: &Scalar) -> (r: Self)
        ensures
            r == self.spec_mul(s@),
    ;

    fn neg(&self) -> (r: Self)
        ensures
            r == self.spec_neg(),
    ;

    /// `self - other`, as the sum of `self` and the negative of `other`.
    fn sub(&self, other: &Self) -> (r: Self)
        ensures
            r == self.spec_add(other.spec_neg()),
    ;

    fn msm(bases: &[Self], scalars: &[Scalar]) -> (r: Self)
        ensures
            r == Self::spec_msm(bases@, fr_values(scalars@)),
    ;

    /// The products of the point with each of the scalars.
    spec fn spec_fixed_products(self, scalars: Seq<nat>) -> Seq<Self>;

    /// The products of the point with each of the scalars, computed over a
    /// table of the point's multiples.
    fn fixed_products(&self, scalars: &[Scalar]) -> (r: Vec<Self>)
        ensures
            r.len() == scalars.len(),
            r@ == self.spec_fixed_products(fr_values(scalars@)),
    ;

    fn same(&self, other: &Self) -> (b: bool)
        ensures
            b == (*self == *other),
    ;
}

impl G1 {
    /// Every point is held in the layout of G1.
    #[verifier::type_invariant]
    pub open spec fn well_formed(self) -> bool {
        g1_layout(self.encoding())
    }

    /// The bytes that hold the point.
    pub closed spec fn encoding(self) -> Seq<u8> {
        self.bytes@
    }

    /// The point that the bytes hold, where they are in the layout of G1.
    pub fn from_bytes(bytes: &[u8; 65]) -> (r: Option<G1>)
        ensures
            r is Some <==> g1_layout(bytes@),
            r is Some ==> r->0.encoding() == bytes@,
    {
        g1_decode(bytes)
    }

    pub fn to_bytes(&self) -> (b: [u8; 65])
        ensures
            b@ == self.encoding(),
            g1_layout(b@),
    {
        proof {
            use_type_invariant(self);
        }
        self.bytes
    }
}

/// A byte string of a point's layout is its coordinates and its flag, one
/// after the other.
proof fn lemma_layout_parts(a: Seq<u8>, b: Seq<u8>, coordinates: int)
    requires
        coordinates >= 0,
        a.len() == 32 * coordinates + 1,
        b.len() == a.len(),
        a[32 * coordinates] == b[32 * coordinates],
        forall|k: int|
            0 <= k < coordinates ==> le_value(#[trigger] a.subrange(32 * k, 32 * k + 32))
                == le_value(b.subrange(32 * k, 32 * k + 32)),
    ensures
        a == b,
{
    assert forall|i: int| 0 <= i < a.len() implies a[i] == b[i] by {
        if i < 32 * coordinates {
            let k = i / 32;
            assert(0 <= k < coordinates);
            let (x, y) = (a.subrange(32 * k, 32 * k + 32), b.subrange(32 * k, 32 * k + 32));
            lemma_le_value_injective(x, y);
            assert(a[i] == x[i - 32 * k]);
            assert(b[i] == y[i - 32 * k]);
        }
    }
    assert(a =~= b);
}

impl G1 {
    /// The generator of G1.
    pub open spec fn spec_generator() -> G1 {
        choose|p: G1| g1_generator_layout(p.encoding())
    }

    /// The generator of G1: the point `(1, 2)`.
    pub fn generator() -> (r: G1)
        ensures
            r == G1::spec_generator(),
            g1_generator_layout(r.encoding()),
    {
        let r = g1_generator();
        proof {
            let other = G1::spec_generator();
            let (a, b) = (r.bytes@, other.bytes@);
            assert(a.subrange(32 * 0int, 32 * 0int + 32) == a.subrange(0, 32));
            assert(a.subrange(32 * 1int, 32 * 1int + 32) == a.subrange(32, 64));
            assert(b.subrange(32 * 0int, 32 * 0int + 32) == b.subrange(0, 32));
            assert(b.subrange(32 * 1int, 32 * 1int + 32) == b.subrange(32, 64));
            assert forall|k: int| 0 <= k < 2 implies le_value(
                #[trigger] a.subrange(32 * k, 32 * k + 32),
            ) == le_value(b.subrange(32 * k, 32 * k + 32)) by {
                assert(k == 0 || k == 1);
            }
            lemma_layout_parts(a, b, 2);
            assert(r.bytes =~= other.bytes);
        }
        r
    }

    /// The point with the Jacobian coordinates `x`, `y`, `z`, in affine form:
    /// `(x, y)` itself where `z` is one, the point at infinity where `z` is
    /// zero.
    pub fn from_jacobian(x: &Fq, y: &Fq, z: &Fq) -> (r: G1)
        ensures
            r == g1_affine_value(*x, *y, *z),
            z.value() == 1 ==> r.encoding() == x.encoding() + y.encoding() + seq![0u8],
            z.value() == 0 ==> g1_infinity_layout(r.encoding()),
    {
        g1_from_jacobian(x, y, z)
    }
}

impl G2 {
    /// The generator of G2.
    pub open spec fn spec_generator() -> G2 {
        choose|p: G2| g2_generator_layout(p.encoding())
    }

    /// The generator of G2.
    pub fn generator() -> (r: G2)
        ensures
            r == G2::spec_generator(),
            g2_generator_layout(r.encoding()),
    {
        let r = g2_generator();
        proof {
            let other = G2::spec_generator();
            let (a, b) = (r.bytes@, other.bytes@);
            assert(a.subrange(32 * 0int, 32 * 0int + 32) == a.subrange(0, 32));
            assert(a.subrange(32 * 1int, 32 * 1int + 32) == a.subrange(32, 64));
            assert(a.subrange(32 * 2int, 32 * 2int + 32) == a.subrange(64, 96));
            assert(a.subrange(32 * 3int, 32 * 3int + 32) == a.subrange(96, 128));
            assert(b.subrange(32 * 0int, 32 * 0int + 32) == b.subrange(0, 32));
            assert(b.subrange(32 * 1int, 32 * 1int + 32) == b.subrange(32, 64));
            assert(b.subrange(32 * 2int, 32 * 2int + 32) == b.subrange(64, 96));
            assert(b.subrange(32 * 3int, 32 * 3int + 32) == b.subrange(96, 128));
            assert forall|k: int| 0 <= k < 4 implies le_value(
                #[trigger] a.subrange(32 * k, 32 * k + 32),
            ) == le_value(b.subrange(32 * k, 32 * k + 32)) by {
                assert(k == 0 || k == 1 || k == 2 || k == 3);
            }
            lemma_layout_parts(a, b, 4);
            assert(r.bytes =~= other.bytes);
        }
        r
    }

    /// The point with the Jacobian coordinates `x`, `y`, `z`, in affine form:
    /// `(x, y)` itself where `z` is one, the point at infinity where `z` is
    /// zero.
    pub fn from_jacobian(x: &Fq2, y: &Fq2, z: &Fq2) -> (r: G2)
        ensures
            r == g2_affine_value(*x, *y, *z),
            z.is_unit() ==> r.encoding() == x.encoding() + y.encoding() + seq![0u8],
            z.is_null() ==> g2_infinity_layout(r.encoding()),
    {
        g2_from_jacobian(x, y, z)
    }

    /// The point prepared for the Miller loop: the coefficients of its
    /// lines, and whether it is the point at infinity.
    pub fn prepare(&self) -> (r: (Vec<(Fq2, Fq2, Fq2)>, bool))
        ensures
            (r.0@, r.1) == g2_prepared_value(*self),
    {
        g2_prepare(self)
    }
}

impl CurvePoint for G1 {
    open spec fn spec_add(self, other: Self) -> Self {
        g1_sum(self, other)
    }

    open spec fn spec_mul(self, s: nat) -> Self {
        g1_scaled(self, s)
    }

    open spec fn spec_neg(self) -> Self {
        g1_negated(self)
    }

    open spec fn spec_msm(bases: Seq<Self>, scalars: Seq<nat>) -> Self {
        g1_msm_value(bases, scalars)
    }

    open spec fn spec_fixed_products(self, scalars: Seq<nat>) -> Seq<Self> {
        let window = window_size_spec(scalars.len());
        g1_table_products(
            scalar_bits(),
            window,
            g1_window_table(scalar_bits(), window, self),
            scalars,
        )
    }

    fn fixed_products(&self, scalars: &[Scalar]) -> (r: Vec<Self>) {
        let bits = fr_size_in_bits();
        let window = fixed_base_window_size(scalars.len());
        let table = g1_fixed_base_table(bits, window, self);
        g1_fixed_base_products(bits, window, &table, scalars)
    }

    fn add(&self, other: &Self) -> (r: Self) {
        g1_add(self, other)
    }

    fn mul(&self, s: &Scalar) -> (r: Self) {
        g1_mul(self, s)
    }

    fn neg(&self) -> (r: Self) {
        g1_neg(self)
    }

    fn sub(&self, other: &Self) -> (r: Self) {
        g1_add(self, &g1_neg(other))
    }

    fn msm(bases: &[Self], scalars: &[Scalar]) -> (r: Self) {
        g1_msm(bases, scalars)
    }

    fn same(&self, other: &Self) -> (b: bool) {
        bytes_equal(&self.bytes, &other.bytes)
    }
}

impl G2 {
    /// Every point is held in the layout of G2.
    #[verifier::type_invariant]
    pub open spec fn well_formed(self) -> bool {
        g2_layout(self.encoding())
    }

    /// The bytes that hold the point.
    pub closed spec fn encoding(self) -> Seq<u8> {
        self.bytes@
    }

    /// The point that the bytes hold, where they are in the layout of G2.
    pub fn from_bytes(bytes: &[u8; 129]) -> (r: Option<G2>)
        ensures
            r is Some <==> g2_layout(bytes@),
            r is Some ==> r->0.encoding() == bytes@,
    {
        g2_decode(bytes)
    }

    pub fn to_bytes(&self) -> (b: [u8; 129])
        ensures
            b@ == self.encoding(),
            g2_layout(b@),
    {
        proof {
            use_type_invariant(self);
        }
        self.bytes
    }
}

impl CurvePoint for G2 {
    open spec fn spec_add(self, other: Self) -> Self {
        g2_sum(self, other)
    }

    open spec fn spec_mul(self, s: nat) -> Self {
        g2_scaled(self, s)
    }

    open spec fn spec_neg(self) -> Self {
        g2_negated(self)
    }

    open spec fn spec_msm(bases: Seq<Self>, scalars: Seq<nat>) -> Self {
        g2_msm_value(bases, scalars)
    }

    open spec fn spec_fixed_products(self, scalars: Seq<nat>) -> Seq<Self> {
        let window = window_size_spec(scalars.len());
        g2_table_products(
            scalar_bits(),
            window,
            g2_window_table(scalar_bits(), window, self),
            scalars,
        )
    }

    fn fixed_products(&self, scalars: &[Scalar]) -> (r: Vec<Self>) {
        let bits = fr_size_in_bits();
        let window = fixed_base_window_size(scalars.len());
        let table = g2_fixed_base_table(bits, window, self);
        g2_fixed_base_products(bits, window, &table, scalars)
    }

    fn add(&self, other: &Self) -> (r: Self) {
        g2_add(self, other)
    }

    fn mul(&self, s: &Scalar) -> (r: Self) {
        g2_mul(self, s)
    }

    fn neg(&self) -> (r: Self) {
        g2_neg(self)
    }

    fn sub(&self, other: &Self) -> (r: Self) {
        g2_add(self, &g2_neg(other))
    }

    fn msm(bases: &[Self], scalars: &[Scalar]) -> (r: Self) {
        g2_msm(bases, scalars)
    }

    fn same(&self, other: &Self) -> (b: bool) {
        bytes_equal(&self.bytes, &other.bytes)
    }
}

impl Fq {
    /// Every element is held as its canonical representative.
    #[verifier::type_invariant]
    pub open spec fn well_formed(self) -> bool {
        fq_layout(self.encoding())
    }

    /// The bytes that hold the element.
    pub closed spec fn encoding(self) -> Seq<u8> {
        self.bytes@
    }

    /// The element that the bytes hold, where they are canonical.
    pub fn from_bytes(bytes: &[u8; 32]) -> (r: Option<Fq>)
        ensures
            r is Some <==> fq_layout(bytes@),
            r is Some ==> r->0.encoding() == bytes@,
    {
        fq_decode(bytes)
    }

    /// The element that the decimal numeral stands for, reduced into the
    /// field; nothing where `s` is no decimal numeral.
    pub fn from_decimal(s: &str) -> (r: Option<Fq>)
        ensures
            r is Some <==> is_decimal(s@),
            r is Some ==> r->0 == Fq::with_value(decimal_value(s@) % fq_modulus()),
            r is Some ==> r->0.value() == decimal_value(s@) % fq_modulus(),
    {
        let r = fq_parse(s);
        proof {
            if let Some(x) = r {
                x.lemma_value_determines();
            }
        }
        r
    }

    /// The integer that the element is held as.
    pub open spec fn value(self) -> nat {
        le_value(self.encoding())
    }

    /// The element that is held as the integer `v`.
    pub open spec fn with_value(v: nat) -> Fq {
        choose|x: Fq| x.value() == v
    }

    /// An element is the one that is held as its integer.
    pub proof fn lemma_value_determines(self)
        ensures
            self == Fq::with_value(self.value()),
    {
        let other = Fq::with_value(self.value());
        lemma_le_value_injective(self.bytes@, other.bytes@);
        assert(self.bytes =~= other.bytes);
    }

    pub fn to_bytes(&self) -> (b: [u8; 32])
        ensures
            b@ == self.encoding(),
            fq_layout(b@),
    {
        proof {
            use_type_invariant(self);
        }
        self.bytes
    }
}

impl Fq2 {
    /// Every element is held in the layout of the quadratic extension.
    #[verifier::type_invariant]
    pub open spec fn well_formed(self) -> bool {
        fq2_layout(self.encoding())
    }

    /// The bytes that hold the element.
    pub closed spec fn encoding(self) -> Seq<u8> {
        self.bytes@
    }

    /// Whether the element is zero.
    pub open spec fn is_null(self) -> bool {
        le_value(self.encoding().subrange(0, 32)) == 0 && le_value(
            self.encoding().subrange(32, 64),
        ) == 0
    }

    /// Whether the element is one.
    pub open spec fn is_unit(self) -> bool {
        le_value(self.encoding().subrange(0, 32)) == 1 && le_value(
            self.encoding().subrange(32, 64),
        ) == 0
    }

    /// The element `c0 + c1 u`.
    pub open spec fn spec_new(c0: Fq, c1: Fq) -> Fq2 {
        choose|x: Fq2| x.encoding() == c0.encoding() + c1.encoding()
    }

    /// The element `c0 + c1 u`.
    pub fn new(c0: Fq, c1: Fq) -> (r: Fq2)
        ensures
            r.encoding() == c0.encoding() + c1.encoding(),
            r == Fq2::spec_new(c0, c1),
    {
        let r = fq2_new(&c0, &c1);
        proof {
            let other = Fq2::spec_new(c0, c1);
            assert(r.bytes@ =~= other.bytes@);
            assert(r.bytes =~= other.bytes);
        }
        r
    }

    pub fn to_bytes(&self) -> (b: [u8; 64])
        ensures
            b@ == self.encoding(),
            fq2_layout(b@),
    {
        proof {
            use_type_invariant(self);
        }
        self.bytes
    }
}

impl Fq6 {
    /// Every element is held in the layout of the sextic extension.
    #[verifier::type_invariant]
    pub open spec fn well_formed(self) -> bool {
        fq6_layout(self.encoding())
    }

    /// The bytes that hold the element.
    pub closed spec fn encoding(self) -> Seq<u8> {
        self.bytes@
    }

    /// The element `c0 + c1 v + c2 v^2`.
    pub open spec fn spec_new(c0: Fq2, c1: Fq2, c2: Fq2) -> Fq6 {
        choose|x: Fq6| x.encoding() == c0.encoding() + c1.encoding() + c2.encoding()
    }

    /// The element `c0 + c1 v + c2 v^2`.
    pub fn new(c0: Fq2, c1: Fq2, c2: Fq2) -> (r: Fq6)
        ensures
            r.encoding() == c0.encoding() + c1.encoding() + c2.encoding(),
            r == Fq6::spec_new(c0, c1, c2),
    {
        let r = fq6_new(&c0, &c1, &c2);
        proof {
            let other = Fq6::spec_new(c0, c1, c2);
            assert(r.bytes@ =~= other.bytes@);
            assert(r.bytes =~= other.bytes);
        }
        r
    }

    pub fn to_bytes(&self) -> (b: [u8; 192])
        ensures
            b@ == self.encoding(),
            fq6_layout(b@),
    {
        proof {
            use_type_invariant(self);
        }
        self.bytes
    }
}

impl Fq12 {
    /// The element `c0 + c1 w`.
    pub open spec fn spec_new(c0: Fq6, c1: Fq6) -> Fq12 {
        choose|x: Fq12| x.encoding() == c0.encoding() + c1.encoding()
    }

    /// The element `c0 + c1 w`.
    pub fn new(c0: Fq6, c1: Fq6) -> (r: Fq12)
        ensures
            r.encoding() == c0.encoding() + c1.encoding(),
            r == Fq12::spec_new(c0, c1),
    {
        let r = fq12_new(&c0, &c1);
        proof {
            let other = Fq12::spec_new(c0, c1);
            assert(r.bytes@ =~= other.bytes@);
            assert(r.bytes =~= other.bytes);
        }
        r
    }

    /// Every element is held in the layout of the target field.
    #[verifier::type_invariant]
    pub open spec fn well_formed(self) -> bool {
        fq12_layout(self.encoding())
    }

    /// The bytes that hold the element.
    pub closed spec fn encoding(self) -> Seq<u8> {
        self.bytes@
    }

    /// Whether this is the field's one.
    pub open spec fn spec_is_one(self) -> bool {
        fq12_one_layout(self.encoding())
    }

    /// The element that the bytes hold, where they are in the layout of the
    /// target field.
    pub fn from_bytes(bytes: &[u8; 384]) -> (r: Option<Fq12>)
        ensures
            r is Some <==> fq12_layout(bytes@),
            r is Some ==> r->0.encoding() == bytes@,
    {
        fq12_decode(bytes)
    }

    pub fn to_bytes(&self) -> (b: [u8; 384])
        ensures
            b@ == self.encoding(),
            fq12_layout(b@),
    {
        proof {
            use_type_invariant(self);
        }
        self.bytes
    }

    /// The field's one.
    pub open spec fn spec_one() -> Fq12 {
        choose|x: Fq12| x.spec_is_one()
    }

    pub fn one() -> (r: Fq12)
        ensures
            r == Fq12::spec_one(),
            Fq12::spec_one().spec_is_one(),
    {
        let r = fq12_one();
        proof {
            lemma_one_is_unique(r, Fq12::spec_one());
        }
        r
    }

    pub fn add(&self, other: &Fq12) -> (r: Fq12)
        ensures
            r == fq12_sum(*self, *other),
    {
        fq12_add(self, other)
    }

    pub fn is_one(&self) -> (b: bool)
        ensures
            b == self.spec_is_one(),
            b ==> *self == Fq12::spec_one(),
    {
        proof {
            if self.spec_is_one() {
                lemma_one_is_unique(*self, Fq12::spec_one());
            }
        }
        if self.bytes[0] != 1 {
            return false;
        }
        let mut i: usize = 1;
        while i < 384
            invariant
                1 <= i <= 384,
                self.bytes@[0] == 1,
                forall|j: int| 1 <= j < i ==> self.bytes@[j] == 0,
            decreases 384 - i,
        {
            if self.bytes[i] != 0 {
                return false;
            }
            i += 1;
        }
        true
    }

    pub fn same(&self, other: &Fq12) -> (b: bool)
        ensures
            b == (*self == *other),
    {
        bytes_equal(&self.bytes, &other.bytes)
    }

    pub fn mul(&self, other: &Fq12) -> (r: Fq12)
        ensures
            r == fq12_product(*self, *other),
    {
        fq12_mul(self, other)
    }

    pub fn pow(&self, e: &Scalar) -> (r: Fq12)
        ensures
            r == fq12_power(*self, e@),
    {
        fq12_pow(self, e)
    }
}

/// Two elements that are both the field's one are the same element.
pub proof fn lemma_one_is_unique(a: Fq12, b: Fq12)
    requires
        a.spec_is_one(),
        b.spec_is_one(),
    ensures
        a == b,
{
    assert(a.bytes@ =~= b.bytes@);
    assert(a.bytes =~= b.bytes);
}

/// The Miller loop over the pairs `(a[i], b[i])`.
pub fn miller_loop(a: &[G1], b: &[G2]) -> (r: Fq12)
    ensures
        r == miller_value(a@, b@),
{
    pairing_miller_loop(a, b)
}

/// The final exponentiation of a Miller loop's result.
pub fn final_exponentiation(f: &Fq12) -> (r: Option<Fq12>)
    ensures
        r == final_exp_value(*f),
{
    pairing_final_exponentiation(f)
}

/// `ark_ff::FromBytes::read` on `ark_bn254::G1Affine`: it reads `x`, `y` and
/// the flag, and fails where a coordinate is not canonical or the flag is
/// neither 0 nor 1.
#[verifier::external_body]
fn g1_decode(bytes: &[u8; 65]) -> (r: Option<G1>)
    ensures
        r is Some <==> g1_layout(bytes@),
        r is Some ==> r->0.encoding() == bytes@,
{
    ark_bn254::G1Affine::read(&bytes[..]).ok().map(|_| G1 { bytes: *bytes })
}

/// `ProjectiveCurve::prime_subgroup_generator` on `ark_bn254::G1Projective`,
/// in affine form: the point `(1, 2)`.
#[verifier::external_body]
fn g1_generator() -> (r: G1)
    ensures
        g1_generator_layout(r.encoding()),
{
    let mut out = [0u8; 65];
    ark_bn254::G1Projective::prime_subgroup_generator().into_affine().write(&mut out[..]).unwrap();
    G1 { bytes: out }
}

/// `FixedBaseMSM::get_mul_window_size`: three bits for fewer than 32 scalars,
/// else 69 hundredths of the number of bits that their count takes, which is
/// at least three and under the width of a machine word.
#[verifier::external_body]
fn fixed_base_window_size(n: usize) -> (w: usize)
    ensures
        w == window_size_spec(n as nat),
        3 <= w < usize::BITS,
{
    FixedBaseMSM::get_mul_window_size(n)
}

/// `PrimeField::size_in_bits` on `ark_bn254::Fr`: the number of bits of its
/// modulus.
#[verifier::external_body]
fn fr_size_in_bits() -> (bits: usize)
    ensures
        bits == scalar_bits(),
{
    ark_bn254::Fr::size_in_bits()
}

/// `FixedBaseMSM::get_window_table` on G1, each row brought over point by
/// point. The window is at least one bit wide and narrower than a machine
/// word, and there is at least one bit to cover.
#[verifier::external_body]
fn g1_fixed_base_table(bits: usize, window: usize, g: &G1) -> (r: Vec<Vec<G1>>)
    requires
        1 <= bits <= 256,
        1 <= window < usize::BITS,
    ensures
        table_rows(r@) == g1_window_table(bits as nat, window as nat, *g),
{
    let p = ark_bn254::G1Affine::read(&g.bytes[..]).unwrap().into_projective();
    let table = FixedBaseMSM::get_window_table(bits, window, p);
    table.iter().map(|row| row.iter().map(|q| {
        let mut b = [0u8; 65];
        q.write(&mut b[..]).unwrap();
        G1 { bytes: b }
    }).collect()).collect()
}

/// `FixedBaseMSM::multi_scalar_mul` on G1, over a table that
/// `get_window_table` made for the same bits and window: one product for
/// each scalar, brought back to affine form.
#[verifier::external_body]
fn g1_fixed_base_products(
    bits: usize,
    window: usize,
    table: &Vec<Vec<G1>>,
    scalars: &[Scalar],
) -> (r: Vec<G1>)
    requires
        1 <= bits <= 256,
        1 <= window < usize::BITS,
        exists|g: G1|
            table_rows(table@) == #[trigger] g1_window_table(bits as nat, window as nat, g),
    ensures
        r.len() == scalars.len(),
        r@ == g1_table_products(
            bits as nat,
            window as nat,
            table_rows(table@),
            fr_values(scalars@),
        ),
{
    let t: Vec<Vec<ark_bn254::G1Affine>> = table.iter().map(|row| row.iter().map(
        |p| ark_bn254::G1Affine::read(&p.bytes[..]).unwrap(),
    ).collect()).collect();
    let f = |x: &Scalar| ark_bn254::Fr::from_repr(BigInteger256(x.to_limbs())).unwrap();
    let v: Vec<ark_bn254::Fr> = scalars.iter().map(f).collect();
    let out = FixedBaseMSM::multi_scalar_mul::<ark_bn254::G1Projective>(bits, window, &t, &v);
    out.iter().map(|q| {
        let mut b = [0u8; 65];
        q.into_affine().write(&mut b[..]).unwrap();
        G1 { bytes: b }
    }).collect()
}

/// `ark_ec`'s mixed addition on `G1Projective`, brought back to affine form.
#[verifier::external_body]
fn g1_add(a: &G1, b: &G1) -> (r: G1)
    ensures
        r == g1_sum(*a, *b),
{
    let mut s = ark_bn254::G1Affine::read(&a.bytes[..]).unwrap().into_projective();
    s.add_assign_mixed(&ark_bn254::G1Affine::read(&b.bytes[..]).unwrap());
    let mut out = [0u8; 65];
    s.into_affine().write(&mut out[..]).unwrap();
    G1 { bytes: out }
}

/// `ark_ec::AffineCurve::mul` on `G1Affine`, brought back to affine form.
#[verifier::external_body]
fn g1_mul(p: &G1, s: &Scalar) -> (r: G1)
    ensures
        r == g1_scaled(*p, s@),
{
    let q = ark_bn254::G1Affine::read(&p.bytes[..]).unwrap();
    let mut out = [0u8; 65];
    q.mul(BigInteger256(s.to_limbs())).into_affine().write(&mut out[..]).unwrap();
    G1 { bytes: out }
}

/// Negation on `G1Affine`.
#[verifier::external_body]
fn g1_neg(p: &G1) -> (r: G1)
    ensures
        r == g1_negated(*p),
{
    let q = ark_bn254::G1Affine::read(&p.bytes[..]).unwrap();
    let mut out = [0u8; 65];
    (-q).write(&mut out[..]).unwrap();
    G1 { bytes: out }
}

/// `ark_ec::msm::VariableBaseMSM::multi_scalar_mul` on G1, brought back to
/// affine form. Where the lengths differ it uses the shorter.
#[verifier::external_body]
fn g1_msm(bases: &[G1], scalars: &[Scalar]) -> (r: G1)
    ensures
        r == g1_msm_value(bases@, fr_values(scalars@)),
{
    let b: Vec<_> =
        bases.iter().map(|p| ark_bn254::G1Affine::read(&p.bytes[..]).unwrap()).collect();
    let s: Vec<_> = scalars.iter().map(|x| BigInteger256(x.to_limbs())).collect();
    let mut out = [0u8; 65];
    VariableBaseMSM::multi_scalar_mul(&b, &s).into_affine().write(&mut out[..]).unwrap();
    G1 { bytes: out }
}

/// `ark_serialize::CanonicalDeserialize::deserialize` on `G1Affine`, which
/// takes only a point of the curve.
#[verifier::external_body]
pub(crate) fn g1_deserialize(bytes: &[u8]) -> (r: Option<G1>)
    ensures
        r == g1_deserialized(bytes@),
{
    let p = ark_bn254::G1Affine::deserialize(bytes).ok()?;
    let mut out = [0u8; 65];
    p.write(&mut out[..]).unwrap();
    Some(G1 { bytes: out })
}

/// `ark_serialize::CanonicalSerialize::serialize` on `G1Affine`. The
/// serialisation is compressed: it has the size of one coordinate.
#[verifier::external_body]
pub(crate) fn g1_serialize(p: &G1) -> (b: Vec<u8>)
    ensures
        b@ == g1_serialized(*p),
        b.len() == 32,
{
    let mut out = Vec::new();
    ark_bn254::G1Affine::read(&p.bytes[..]).unwrap().serialize(&mut out).unwrap();
    out
}

/// `ark_ff::FromBytes::read` on `ark_bn254::G2Affine`: it reads the four
/// halves of `x` and `y` and the flag, and fails where one is not canonical or
/// the flag is neither 0 nor 1.
#[verifier::external_body]
fn g2_decode(bytes: &[u8; 129]) -> (r: Option<G2>)
    ensures
        r is Some <==> g2_layout(bytes@),
        r is Some ==> r->0.encoding() == bytes@,
{
    ark_bn254::G2Affine::read(&bytes[..]).ok().map(|_| G2 { bytes: *bytes })
}

/// `ProjectiveCurve::prime_subgroup_generator` on `ark_bn254::G2Projective`,
/// in affine form.
#[verifier::external_body]
fn g2_generator() -> (r: G2)
    ensures
        g2_generator_layout(r.encoding()),
{
    let mut out = [0u8; 129];
    ark_bn254::G2Projective::prime_subgroup_generator().into_affine().write(&mut out[..]).unwrap();
    G2 { bytes: out }
}

/// `FixedBaseMSM::get_window_table` on G2, each row brought over point by
/// point. The window is at least one bit wide and narrower than a machine
/// word, and there is at least one bit to cover.
#[verifier::external_body]
fn g2_fixed_base_table(bits: usize, window: usize, g: &G2) -> (r: Vec<Vec<G2>>)
    requires
        1 <= bits <= 256,
        1 <= window < usize::BITS,
    ensures
        table_rows(r@) == g2_window_table(bits as nat, window as nat, *g),
{
    let p = ark_bn254::G2Affine::read(&g.bytes[..]).unwrap().into_projective();
    let table = FixedBaseMSM::get_window_table(bits, window, p);
    table.iter().map(|row| row.iter().map(|q| {
        let mut b = [0u8; 129];
        q.write(&mut b[..]).unwrap();
        G2 { bytes: b }
    }).collect()).collect()
}

/// `FixedBaseMSM::multi_scalar_mul` on G2, over a table that
/// `get_window_table` made for the same bits and window: one product for
/// each scalar, brought back to affine form.
#[verifier::external_body]
fn g2_fixed_base_products(
    bits: usize,
    window: usize,
    table: &Vec<Vec<G2>>,
    scalars: &[Scalar],
) -> (r: Vec<G2>)
    requires
        1 <= bits <= 256,
        1 <= window < usize::BITS,
        exists|g: G2|
            table_rows(table@) == #[trigger] g2_window_table(bits as nat, window as nat, g),
    ensures
        r.len() == scalars.len(),
        r@ == g2_table_products(
            bits as nat,
            window as nat,
            table_rows(table@),
            fr_values(scalars@),
        ),
{
    let t: Vec<Vec<ark_bn254::G2Affine>> = table.iter().map(|row| row.iter().map(
        |p| ark_bn254::G2Affine::read(&p.bytes[..]).unwrap(),
    ).collect()).collect();
    let f = |x: &Scalar| ark_bn254::Fr::from_repr(BigInteger256(x.to_limbs())).unwrap();
    let v: Vec<ark_bn254::Fr> = scalars.iter().map(f).collect();
    let out = FixedBaseMSM::multi_scalar_mul::<ark_bn254::G2Projective>(bits, window, &t, &v);
    out.iter().map(|q| {
        let mut b = [0u8; 129];
        q.into_affine().write(&mut b[..]).unwrap();
        G2 { bytes: b }
    }).collect()
}

/// `ark_ec`'s mixed addition on `G2Projective`, brought back to affine form.
#[verifier::external_body]
fn g2_add(a: &G2, b: &G2) -> (r: G2)
    ensures
        r == g2_sum(*a, *b),
{
    let mut s = ark_bn254::G2Affine::read(&a.bytes[..]).unwrap().into_projective();
    s.add_assign_mixed(&ark_bn254::G2Affine::read(&b.bytes[..]).unwrap());
    let mut out = [0u8; 129];
    s.into_affine().write(&mut out[..]).unwrap();
    G2 { bytes: out }
}

/// `ark_ec::AffineCurve::mul` on `G2Affine`, brought back to affine form.
#[verifier::external_body]
fn g2_mul(p: &G2, s: &Scalar) -> (r: G2)
    ensures
        r == g2_scaled(*p, s@),
{
    let q = ark_bn254::G2Affine::read(&p.bytes[..]).unwrap();
    let mut out = [0u8; 129];
    q.mul(BigInteger256(s.to_limbs())).into_affine().write(&mut out[..]).unwrap();
    G2 { bytes: out }
}

/// Negation on `G2Affine`.
#[verifier::external_body]
fn g2_neg(p: &G2) -> (r: G2)
    ensures
        r == g2_negated(*p),
{
    let q = ark_bn254::G2Affine::read(&p.bytes[..]).unwrap();
    let mut out = [0u8; 129];
    (-q).write(&mut out[..]).unwrap();
    G2 { bytes: out }
}

/// `ark_ec::msm::VariableBaseMSM::multi_scalar_mul` on G2, brought back to
/// affine form. Where the lengths differ it uses the shorter.
#[verifier::external_body]
fn g2_msm(bases: &[G2], scalars: &[Scalar]) -> (r: G2)
    ensures
        r == g2_msm_value(bases@, fr_values(scalars@)),
{
    let b: Vec<_> =
        bases.iter().map(|p| ark_bn254::G2Affine::read(&p.bytes[..]).unwrap()).collect();
    let s: Vec<_> = scalars.iter().map(|x| BigInteger256(x.to_limbs())).collect();
    let mut out = [0u8; 129];
    VariableBaseMSM::multi_scalar_mul(&b, &s).into_affine().write(&mut out[..]).unwrap();
    G2 { bytes: out }
}

/// `ark_serialize::CanonicalDeserialize::deserialize` on `G2Affine`, which
/// takes only a point of the curve's subgroup.
#[verifier::external_body]
pub(crate) fn g2_deserialize(bytes: &[u8]) -> (r: Option<G2>)
    ensures
        r == g2_deserialized(bytes@),
{
    let p = ark_bn254::G2Affine::deserialize(bytes).ok()?;
    let mut out = [0u8; 129];
    p.write(&mut out[..]).unwrap();
    Some(G2 { bytes: out })
}

/// `ark_serialize::CanonicalSerialize::serialize` on `G2Affine`. The
/// serialisation is compressed: it has the size of one coordinate.
#[verifier::external_body]
pub(crate) fn g2_serialize(p: &G2) -> (b: Vec<u8>)
    ensures
        b@ == g2_serialized(*p),
        b.len() == 64,
{
    let mut out = Vec::new();
    ark_bn254::G2Affine::read(&p.bytes[..]).unwrap().serialize(&mut out).unwrap();
    out
}

/// `ark_ff::FromBytes::read` on `ark_bn254::Fq`: it fails where the value is
/// not below the field's order.
#[verifier::external_body]
fn fq_decode(bytes: &[u8; 32]) -> (r: Option<Fq>)
    ensures
        r is Some <==> fq_layout(bytes@),
        r is Some ==> r->0.encoding() == bytes@,
{
    ark_bn254::Fq::read(&bytes[..]).ok().map(|_| Fq { bytes: *bytes })
}

/// `FromStr` on `ark_bn254::Fq`: it reads a decimal numeral without needless
/// zeros in front and reduces its value into the field; it fails on anything
/// else.
#[verifier::external_body]
fn fq_parse(s: &str) -> (r: Option<Fq>)
    ensures
        r is Some <==> is_decimal(s@),
        r is Some ==> r->0.value() == decimal_value(s@) % fq_modulus(),
{
    let x = s.parse::<ark_bn254::Fq>().ok()?;
    let mut out = [0u8; 32];
    x.write(&mut out[..]).unwrap();
    Some(Fq { bytes: out })
}

/// `ark_bn254::G1Projective::new` and the conversion of the point to
/// `G1Affine`: with `z` one the point is `(x, y)` as it stands, with `z` zero
/// it is the point at infinity.
#[verifier::external_body]
fn g1_from_jacobian(x: &Fq, y: &Fq, z: &Fq) -> (r: G1)
    ensures
        r == g1_affine_value(*x, *y, *z),
        z.value() == 1 ==> r.encoding() == x.encoding() + y.encoding() + seq![0u8],
        z.value() == 0 ==> g1_infinity_layout(r.encoding()),
{
    let a = ark_bn254::Fq::read(&x.bytes[..]).unwrap();
    let b = ark_bn254::Fq::read(&y.bytes[..]).unwrap();
    let c = ark_bn254::Fq::read(&z.bytes[..]).unwrap();
    let mut out = [0u8; 65];
    ark_bn254::G1Affine::from(ark_bn254::G1Projective::new(a, b, c)).write(&mut out[..]).unwrap();
    G1 { bytes: out }
}

/// `ark_bn254::G2Projective::new` and the conversion of the point to
/// `G2Affine`: with `z` one the point is `(x, y)` as it stands, with `z` zero
/// it is the point at infinity.
#[verifier::external_body]
fn g2_from_jacobian(x: &Fq2, y: &Fq2, z: &Fq2) -> (r: G2)
    ensures
        r == g2_affine_value(*x, *y, *z),
        z.is_unit() ==> r.encoding() == x.encoding() + y.encoding() + seq![0u8],
        z.is_null() ==> g2_infinity_layout(r.encoding()),
{
    let a = ark_bn254::Fq2::read(&x.bytes[..]).unwrap();
    let b = ark_bn254::Fq2::read(&y.bytes[..]).unwrap();
    let c = ark_bn254::Fq2::read(&z.bytes[..]).unwrap();
    let mut out = [0u8; 129];
    ark_bn254::G2Affine::from(ark_bn254::G2Projective::new(a, b, c)).write(&mut out[..]).unwrap();
    G2 { bytes: out }
}

/// The conversion of a `G2Affine` into `ark_ec::bn::G2Prepared`.
#[verifier::external_body]
fn g2_prepare(p: &G2) -> (r: (Vec<(Fq2, Fq2, Fq2)>, bool))
    ensures
        (r.0@, r.1) == g2_prepared_value(*p),
{
    let q = ark_bn254::G2Affine::read(&p.bytes[..]).unwrap();
    let pc: ark_ec::bn::G2Prepared<ark_bn254::Parameters> = q.into();
    let w = |x: &ark_bn254::Fq2| {
        let mut b = [0u8; 64];
        x.write(&mut b[..]).unwrap();
        Fq2 { bytes: b }
    };
    (pc.ell_coeffs.iter().map(|c| (w(&c.0), w(&c.1), w(&c.2))).collect(), pc.infinity)
}

/// `ark_bn254::Fq2::new`: the element with the two coefficients.
#[verifier::external_body]
fn fq2_new(c0: &Fq, c1: &Fq) -> (r: Fq2)
    ensures
        r.encoding() == c0.encoding() + c1.encoding(),
{
    let x = ark_bn254::Fq::read(&c0.bytes[..]).unwrap();
    let y = ark_bn254::Fq::read(&c1.bytes[..]).unwrap();
    let mut out = [0u8; 64];
    ark_bn254::Fq2::new(x, y).write(&mut out[..]).unwrap();
    Fq2 { bytes: out }
}

/// `ark_bn254::Fq6::new`: the element with the three coefficients.
#[verifier::external_body]
fn fq6_new(c0: &Fq2, c1: &Fq2, c2: &Fq2) -> (r: Fq6)
    ensures
        r.encoding() == c0.encoding() + c1.encoding() + c2.encoding(),
{
    let x = ark_bn254::Fq2::read(&c0.bytes[..]).unwrap();
    let y = ark_bn254::Fq2::read(&c1.bytes[..]).unwrap();
    let z = ark_bn254::Fq2::read(&c2.bytes[..]).unwrap();
    let mut out = [0u8; 192];
    ark_bn254::Fq6::new(x, y, z).write(&mut out[..]).unwrap();
    Fq6 { bytes: out }
}

/// `ark_bn254::Fq12::new`: the element with the two coefficients.
#[verifier::external_body]
fn fq12_new(c0: &Fq6, c1: &Fq6) -> (r: Fq12)
    ensures
        r.encoding() == c0.encoding() + c1.encoding(),
{
    let x = ark_bn254::Fq6::read(&c0.bytes[..]).unwrap();
    let y = ark_bn254::Fq6::read(&c1.bytes[..]).unwrap();
    let mut out = [0u8; 384];
    ark_bn254::Fq12::new(x, y).write(&mut out[..]).unwrap();
    Fq12 { bytes: out }
}

/// `ark_ff::FromBytes::read` on `ark_bn254::Fq12`: it reads the twelve
/// coefficients and fails where one is not canonical.
#[verifier::external_body]
fn fq12_decode(bytes: &[u8; 384]) -> (r: Option<Fq12>)
    ensures
        r is Some <==> fq12_layout(bytes@),
        r is Some ==> r->0.encoding() == bytes@,
{
    ark_bn254::Fq12::read(&bytes[..]).ok().map(|_| Fq12 { bytes: *bytes })
}

/// `ark_ff::One::one` on `ark_bn254::Fq12`: the first coefficient is one, the
/// others are zero.
#[verifier::external_body]
fn fq12_one() -> (r: Fq12)
    ensures
        fq12_one_layout(r.encoding()),
{
    let mut out = [0u8; 384];
    ark_bn254::Fq12::one().write(&mut out[..]).unwrap();
    Fq12 { bytes: out }
}

/// Addition on `ark_bn254::Fq12`.
#[verifier::external_body]
fn fq12_add(a: &Fq12, b: &Fq12) -> (r: Fq12)
    ensures
        r == fq12_sum(*a, *b),
{
    let x = ark_bn254::Fq12::read(&a.bytes[..]).unwrap();
    let y = ark_bn254::Fq12::read(&b.bytes[..]).unwrap();
    let mut out = [0u8; 384];
    (x + y).write(&mut out[..]).unwrap();
    Fq12 { bytes: out }
}

/// Multiplication on `ark_bn254::Fq12`.
#[verifier::external_body]
fn fq12_mul(a: &Fq12, b: &Fq12) -> (r: Fq12)
    ensures
        r == fq12_product(*a, *b),
{
    let x = ark_bn254::Fq12::read(&a.bytes[..]).unwrap();
    let y = ark_bn254::Fq12::read(&b.bytes[..]).unwrap();
    let mut out = [0u8; 384];
    (x * y).write(&mut out[..]).unwrap();
    Fq12 { bytes: out }
}

/// `ark_ff::Field::pow` on `ark_bn254::Fq12`, the exponent a scalar's
/// canonical representative.
#[verifier::external_body]
fn fq12_pow(a: &Fq12, e: &Scalar) -> (r: Fq12)
    ensures
        r == fq12_power(*a, e@),
{
    let x = ark_bn254::Fq12::read(&a.bytes[..]).unwrap();
    let mut out = [0u8; 384];
    x.pow(BigInteger256(e.to_limbs())).write(&mut out[..]).unwrap();
    Fq12 { bytes: out }
}

/// `ark_serialize::CanonicalDeserialize::deserialize` on `ark_bn254::Fq12`.
#[verifier::external_body]
pub(crate) fn fq12_deserialize(bytes: &[u8]) -> (r: Option<Fq12>)
    ensures
        r == fq12_deserialized(bytes@),
{
    let x = ark_bn254::Fq12::deserialize(bytes).ok()?;
    let mut out = [0u8; 384];
    x.write(&mut out[..]).unwrap();
    Some(Fq12 { bytes: out })
}

/// `ark_serialize::CanonicalSerialize::serialize` on `ark_bn254::Fq12`: its
/// twelve coefficients.
#[verifier::external_body]
pub(crate) fn fq12_serialize(a: &Fq12) -> (b: Vec<u8>)
    ensures
        b@ == fq12_serialized(*a),
        b.len() == 384,
{
    let mut out = Vec::new();
    ark_bn254::Fq12::read(&a.bytes[..]).unwrap().serialize(&mut out).unwrap();
    out
}

/// `ark_serialize::CanonicalSerialize::serialize` on a pair of `ark_bn254::Fq12`.
#[verifier::external_body]
pub(crate) fn fq12_pair_serialize(a: &Fq12, b: &Fq12) -> (out: Vec<u8>)
    ensures
        out@ == fq12_pair_serialized(*a, *b),
{
    let x = ark_bn254::Fq12::read(&a.bytes[..]).unwrap();
    let y = ark_bn254::Fq12::read(&b.bytes[..]).unwrap();
    let mut out = Vec::new();
    (x, y).serialize(&mut out).unwrap();
    out
}

/// `ark_ec::PairingEngine::miller_loop` on `ark_bn254::Bn254`, over the pairs
/// made of the two slices, each point prepared first. Where the slices differ
/// in length, the pairs end with the shorter.
#[verifier::external_body]
fn pairing_miller_loop(a: &[G1], b: &[G2]) -> (r: Fq12)
    ensures
        r == miller_value(a@, b@),
{
    let pairs: Vec<_> = a.iter().zip(b.iter()).map(|(p, q)| (
        ark_bn254::G1Affine::read(&p.bytes[..]).unwrap().into(),
        ark_bn254::G2Affine::read(&q.bytes[..]).unwrap().into(),
    )).collect();
    let mut out = [0u8; 384];
    ark_bn254::Bn254::miller_loop(pairs.iter()).write(&mut out[..]).unwrap();
    Fq12 { bytes: out }
}

/// `ark_ec::PairingEngine::final_exponentiation` on `ark_bn254::Bn254`.
#[verifier::external_body]
fn pairing_final_exponentiation(f: &Fq12) -> (r: Option<Fq12>)
    ensures
        r == final_exp_value(*f),
{
    let x = ark_bn254::Fq12::read(&f.bytes[..]).unwrap();
    let y = ark_bn254::Bn254::final_exponentiation(&x)?;
    let mut out = [0u8; 384];
    y.write(&mut out[..]).unwrap();
    Some(Fq12 { bytes: out })
}

} // verus!
