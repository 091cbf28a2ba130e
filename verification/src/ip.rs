//! Inner products: of points of G1 with points of G2 under the pairing, and of
//! points with scalars.

use crate::curve::{
    final_exp_value, final_exponentiation, miller_loop, miller_value, CurvePoint, Fq12, G1, G2,
};
use crate::errors::{agrees, Error, ErrorKind};
use crate::field::{fr_values, Scalar};
use vstd::prelude::*;

verus! {

/// The Miller loop over two vectors of one length.
pub open spec fn pairing_miller_affine_spec(left: Seq<G1>, right: Seq<G2>) -> Result<
    Fq12,
    ErrorKind,
> {
    if left.len() != right.len() {
        Err(ErrorKind::InvalidIPVectorLength)
    } else {
        Ok(miller_value(left, right))
    }
}

/// The product of the pairings of two vectors of one length.
pub open spec fn pairing_spec(left: Seq<G1>, right: Seq<G2>) -> Result<Fq12, ErrorKind> {
    if left.len() != right.len() {
        Err(ErrorKind::InvalidIPVectorLength)
    } else {
        match final_exp_value(miller_value(left, right)) {
            Some(v) => Ok(v),
            None => Err(ErrorKind::InvalidPairing),
        }
    }
}

/// The sum of the points, each times its scalar.
pub open spec fn multiexponentiation_spec<G: CurvePoint>(left: Seq<G>, right: Seq<nat>) -> Result<
    G,
    ErrorKind,
> {
    if left.len() != right.len() {
        Err(ErrorKind::InvalidIPVectorLength)
    } else {
        Ok(G::spec_msm(left, right))
    }
}

/// The Miller loop over the pairs `(left[i], right[i])`: the product of the
/// pairings before its final exponentiation.
pub fn pairing_miller_affine(left: &[G1], right: &[G2]) -> (r: Result<Fq12, Error>)
    ensures
        agrees(r, pairing_miller_affine_spec(left@, right@)),
{
    if left.len() != right.len() {
        return Err(Error::InvalidIPVectorLength);
    }
    Ok(miller_loop(left, right))
}

/// The product of the pairings `e(left[i], right[i])`.
pub fn pairing(left: &[G1], right: &[G2]) -> (r: Result<Fq12, Error>)
    ensures
        agrees(r, pairing_spec(left@, right@)),
{
    if left.len() != right.len() {
        return Err(Error::InvalidIPVectorLength);
    }
    match final_exponentiation(&miller_loop(left, right)) {
        Some(v) => Ok(v),
        None => Err(Error::InvalidPairing),
    }
}

/// The sum of the points `left[i]`, each times its scalar `right[i]`.
pub fn multiexponentiation<G: CurvePoint>(left: &[G], right: &[Scalar]) -> (r: Result<G, Error>)
    ensures
        agrees(r, multiexponentiation_spec(left@, fr_values(right@))),
{
    if left.len() != right.len() {
        return Err(Error::InvalidIPVectorLength);
    }
    Ok(G::msm(left, right))
}

} // verus!
