//! Aggregation of Groth16 proofs over BN254 into one short proof: commitments
//! to the proofs' points, an inner-product argument that halves them round by
//! round, openings that show the final commitment keys to be well formed, and
//! a verifier that checks all of it in one batched pairing equation.

pub mod algebra;
pub mod commitment;
pub mod curve;
pub mod errors;
pub mod field;
pub mod ip;
pub mod pairing_check;
pub mod polynomial;
pub mod proofs;
pub mod prover;
pub mod snarkjs_proof;
pub mod srs;
pub mod transcript;
pub mod verify;
pub mod wire;

use crate::curve::CurvePoint;
use crate::field::{fr_pow_spec, fr_values, Scalar};
use vstd::prelude::*;

verus! {

/// Whether `n` is a power of two.
pub open spec fn is_power_of_two_spec(n: nat) -> bool
    decreases n,
{
    if n <= 1 {
        n == 1
    } else {
        n % 2 == 0 && is_power_of_two_spec(n / 2)
    }
}

/// Whether `n` is a power of two.
pub fn is_power_of_two(n: usize) -> (r: bool)
    ensures
        r == is_power_of_two_spec(n as nat),
{
    let mut m = n;
    while m > 1 && m % 2 == 0
        invariant
            is_power_of_two_spec(m as nat) == is_power_of_two_spec(n as nat),
        decreases m,
    {
        m = m / 2;
    }
    m == 1
}

/// The vector folded in half with the factor `x`: each point of the upper part
/// times `x`, plus the point of the lower part at its place.
pub open spec fn compressed<C: CurvePoint>(v: Seq<C>, split: int, x: nat) -> Seq<C> {
    Seq::new(
        split as nat,
        |i: int|
            if split + i < v.len() {
                v[split + i].spec_mul(x).spec_add(v[i])
            } else {
                v[i]
            },
    )
}

/// Folds the upper part of `vec`, from `split` on, into its lower part with the
/// factor `scaler`, and cuts `vec` down to the lower part.
pub fn compress<C: CurvePoint>(vec: &mut Vec<C>, split: usize, scaler: &Scalar)
    requires
        split <= old(vec).len(),
    ensures
        final(vec)@ == compressed(old(vec)@, split as int, scaler@),
{
    let len = vec.len();
    let n = if len - split < split {
        len - split
    } else {
        split
    };
    let mut i: usize = 0;
    while i < n
        invariant
            i <= n,
            n <= split,
            split + n <= len,
            vec.len() == len,
            len == old(vec).len(),
            forall|j: int| 0 <= j < i ==> vec@[j] == compressed(old(vec)@, split as int, scaler@)[j],
            forall|j: int| i <= j < len ==> vec@[j] == old(vec)@[j],
        decreases n - i,
    {
        let x = vec[split + i].mul(scaler).add(&vec[i]);
        vec.set(i, x);
        i += 1;
    }
    vec.truncate(split);
    assert(vec@ =~= compressed(old(vec)@, split as int, scaler@));
}

/// The powers `1, s, s^2, ...` of `s`: `num` of them, and one of them where
/// `num` is zero.
pub open spec fn structured_scalar_power_spec(num: nat, s: nat) -> Seq<nat> {
    Seq::new(
        if num == 0 {
            1
        } else {
            num
        },
        |i: int| fr_pow_spec(s, i as nat),
    )
}

/// The powers `1, s, s^2, ...` of `s`, up to the power `num - 1`.
pub fn structured_scalar_power(num: usize, s: &Scalar) -> (powers: Vec<Scalar>)
    ensures
        fr_values(powers@) == structured_scalar_power_spec(num as nat, s@),
{
    let mut powers: Vec<Scalar> = Vec::new();
    powers.push(Scalar::one());
    let mut i: usize = 1;
    while i < num
        invariant
            1 <= i,
            num == 0 ==> i == 1,
            num > 0 ==> i <= num,
            powers.len() == i,
            forall|j: int| 0 <= j < i ==> powers@[j]@ == fr_pow_spec(s@, j as nat),
        decreases num - i,
    {
        let next = powers[i - 1].mul(s);
        proof {
            let p = fr_pow_spec(s@, (i - 1) as nat);
            assert(p * s@ == s@ * p) by (nonlinear_arith);
        }
        powers.push(next);
        i += 1;
    }
    assert(fr_values(powers@) =~= structured_scalar_power_spec(num as nat, s@));
    powers
}

} // verus!
