//! Pairing equations batched into one check.
//!
//! A check stands for an equation `e(A_1, B_1) e(A_2, B_2) ... = T`. It holds
//! the product of the Miller loops of the left side, not yet exponentiated,
//! and the right side. Checks that were each raised to a random scalar of
//! their own can be merged, so that one final exponentiation decides all of
//! them at once.

use crate::curve::{
    final_exp_value, final_exponentiation, fq12_power, fq12_product, fq12_sum, g1_scaled,
    miller_loop, miller_value, CurvePoint, Fq12, G1, G2,
};
use crate::field::{fr_random, Scalar};
use ark_std::rand::rngs::StdRng;
use vstd::prelude::*;

verus! {

/// A batch of pairing equations.
#[derive(Debug, Clone, Copy)]
pub struct PairingCheck {
    left: Fq12,
    right: Fq12,
    /// How many of the merged checks were not randomised. With more than one
    /// of them the batch is invalid.
    non_randomized: u8,
}

/// What a [`PairingCheck`] holds.
pub ghost struct PairingCheckView {
    /// The product of the Miller loops of the left sides.
    pub left: Fq12,
    /// The product of the right sides.
    pub right: Fq12,
    /// How many of the merged checks were not randomised.
    pub non_randomized: u8,
}

impl View for PairingCheck {
    type V = PairingCheckView;

    closed spec fn view(&self) -> PairingCheckView {
        PairingCheckView {
            left: self.left,
            right: self.right,
            non_randomized: self.non_randomized,
        }
    }
}

/// The product of the elements, taken from the left, starting from one.
pub open spec fn product_spec(lefts: Seq<Fq12>) -> Fq12
    decreases lefts.len(),
{
    if lefts.len() == 0 {
        Fq12::spec_one()
    } else {
        fq12_product(product_spec(lefts.drop_last()), lefts.last())
    }
}

/// The product of the Miller loops of the pairs, the first point of each
/// pair times `coeff`, taken from the left, starting from one.
pub open spec fn randomized_miller_spec(coeff: nat, it: Seq<(G1, G2)>) -> Fq12
    decreases it.len(),
{
    if it.len() == 0 {
        Fq12::spec_one()
    } else {
        fq12_product(
            randomized_miller_spec(coeff, it.drop_last()),
            miller_value(seq![g1_scaled(it.last().0, coeff)], seq![it.last().1]),
        )
    }
}

/// One side of a check multiplied by a side of another, where a side that is
/// one is not multiplied.
pub open spec fn mul_if_not_one_spec(left: Fq12, right: Fq12) -> Fq12 {
    if left == Fq12::spec_one() {
        right
    } else if right == Fq12::spec_one() {
        left
    } else {
        fq12_product(left, right)
    }
}

impl PairingCheckView {
    /// The check that holds: one equals one.
    pub open spec fn new() -> PairingCheckView {
        PairingCheckView { left: Fq12::spec_one(), right: Fq12::spec_one(), non_randomized: 0 }
    }

    /// The check that fails whatever is merged into it.
    pub open spec fn new_invalid() -> PairingCheckView {
        PairingCheckView {
            left: Fq12::spec_one(),
            right: fq12_sum(Fq12::spec_one(), Fq12::spec_one()),
            non_randomized: 2,
        }
    }

    /// The check of the equation with the given Miller loops on its left, not
    /// randomised.
    pub open spec fn from_products(lefts: Seq<Fq12>, right: Fq12) -> PairingCheckView {
        PairingCheckView { left: product_spec(lefts), right, non_randomized: 1 }
    }

    /// The check of the equation `e(A_1, B_1) e(A_2, B_2) ... = out`, both
    /// sides raised to `coeff`.
    pub open spec fn rand(coeff: nat, it: Seq<(G1, G2)>, out: Fq12) -> PairingCheckView {
        PairingCheckView {
            left: randomized_miller_spec(coeff, it),
            right: if out == Fq12::spec_one() {
                out
            } else {
                fq12_power(out, coeff)
            },
            non_randomized: 0,
        }
    }

    /// The two checks as one.
    pub open spec fn merge(self, other: PairingCheckView) -> PairingCheckView {
        PairingCheckView {
            left: mul_if_not_one_spec(self.left, other.left),
            right: mul_if_not_one_spec(self.right, other.right),
            non_randomized: (self.non_randomized + other.non_randomized) as u8,
        }
    }

    /// Whether the batch holds: at most one of its checks was not
    /// randomised, and the final exponentiation of its left side is its
    /// right side.
    pub open spec fn verify(self) -> bool {
        self.non_randomized <= 1 && final_exp_value(self.left) == Some(self.right)
    }
}

/// The check that fails is found to fail.
pub proof fn lemma_invalid_never_verifies()
    ensures
        !PairingCheckView::new_invalid().verify(),
{
}

/// A batch in which more than one check was not randomised never holds,
/// whatever its two sides are; so a batch into which the check that fails
/// was merged never holds.
pub proof fn lemma_plain_checks_do_not_batch(a: PairingCheckView, b: PairingCheckView)
    requires
        a.non_randomized + b.non_randomized <= u8::MAX,
    ensures
        a.non_randomized + b.non_randomized >= 2 ==> !a.merge(b).verify(),
        !a.merge(PairingCheckView::new_invalid()).verify() || a.non_randomized + 2 > u8::MAX,
        !PairingCheckView::new_invalid().merge(b).verify() || b.non_randomized + 2 > u8::MAX,
{
}

/// How many times in a row [`rand_fr`] draws again after a zero.
pub const ZERO_REDRAWS: usize = 64;

/// A random scalar that is not zero: the first of the next draws that is not
/// zero, and one where all of them are.
pub fn rand_fr(rng: &mut StdRng) -> (c: Scalar)
    ensures
        c@ != 0,
{
    let mut left: usize = ZERO_REDRAWS;
    while left > 0
        decreases left,
    {
        let c = fr_random(rng);
        if !c.is_zero() {
            return c;
        }
        left -= 1;
    }
    Scalar::one()
}

/// Multiplies `left` by `right`, except that a side that is one is not
/// multiplied: where `left` is one it becomes `right`, and where `right` is
/// one it stays.
pub fn mul_if_not_one(left: &mut Fq12, right: &Fq12)
    ensures
        *final(left) == mul_if_not_one_spec(*old(left), *right),
{
    let one = Fq12::one();
    proof {
        if right.spec_is_one() {
            crate::curve::lemma_one_is_unique(*right, one);
        }
        if old(left).spec_is_one() {
            crate::curve::lemma_one_is_unique(*old(left), one);
        }
    }
    if left.is_one() {
        *left = *right;
        return ;
    } else if right.is_one() {
        return ;
    }
    *left = left.mul(right);
}

impl PairingCheck {
    /// The check that holds: one equals one. It does not count as a check
    /// that was not randomised.
    pub fn new() -> (r: PairingCheck)
        ensures
            r@ == PairingCheckView::new(),
    {
        PairingCheck { left: Fq12::one(), right: Fq12::one(), non_randomized: 0 }
    }

    /// The check that fails whatever is merged into it.
    pub fn new_invalid() -> (r: PairingCheck)
        ensures
            r@ == PairingCheckView::new_invalid(),
            !r@.verify(),
    {
        let one = Fq12::one();
        PairingCheck { left: one, right: one.add(&one), non_randomized: 2 }
    }

    /// The check that the final exponentiation of `result` is `exp`, not
    /// randomised.
    fn from_pair(result: Fq12, exp: Fq12) -> (r: PairingCheck)
        ensures
            r@ == (PairingCheckView { left: result, right: exp, non_randomized: 1 }),
    {
        PairingCheck { left: result, right: exp, non_randomized: 1 }
    }

    /// The check that the final exponentiation of the product of `lefts` is
    /// `right`. It is not randomised: at most one such check may be merged
    /// into a batch.
    pub fn from_products(lefts: Vec<Fq12>, right: Fq12) -> (r: PairingCheck)
        ensures
            r@ == PairingCheckView::from_products(lefts@, right),
    {
        let mut product = Fq12::one();
        let mut i: usize = 0;
        while i < lefts.len()
            invariant
                i <= lefts.len(),
                product == product_spec(lefts@.subrange(0, i as int)),
            decreases lefts.len() - i,
        {
            proof {
                let next = lefts@.subrange(0, i + 1);
                assert(next.drop_last() =~= lefts@.subrange(0, i as int));
            }
            product = product.mul(&lefts[i]);
            i += 1;
        }
        proof {
            assert(lefts@.subrange(0, lefts.len() as int) =~= lefts@);
        }
        Self::from_pair(product, right)
    }

    /// The check of the equation `e(A_1, B_1) e(A_2, B_2) ... = out` for the
    /// pairs `(A_i, B_i)` of `it`, both sides raised to `coeff`: each `A_i`
    /// is multiplied by `coeff`, and `out` is raised to it unless it is one.
    pub fn rand_with(coeff: &Scalar, it: &[(G1, G2)], out: &Fq12) -> (r: PairingCheck)
        ensures
            r@ == PairingCheckView::rand(coeff@, it@, *out),
    {
        let mut miller_out = Fq12::one();
        let mut i: usize = 0;
        while i < it.len()
            invariant
                i <= it.len(),
                miller_out == randomized_miller_spec(coeff@, it@.subrange(0, i as int)),
            decreases it.len() - i,
        {
            proof {
                let next = it@.subrange(0, i + 1);
                assert(next.drop_last() =~= it@.subrange(0, i as int));
            }
            let na = it[i].0.mul(coeff);
            let a: Vec<G1> = vec![na];
            let b: Vec<G2> = vec![it[i].1];
            proof {
                assert(a@ =~= seq![g1_scaled(it@[i as int].0, coeff@)]);
                assert(b@ =~= seq![it@[i as int].1]);
            }
            let res = miller_loop(a.as_slice(), b.as_slice());
            miller_out = miller_out.mul(&res);
            i += 1;
        }
        proof {
            assert(it@.subrange(0, it.len() as int) =~= it@);
        }
        let mut outt = *out;
        if !out.is_one() {
            outt = outt.pow(coeff);
        }
        PairingCheck { left: miller_out, right: outt, non_randomized: 0 }
    }

    /// The check of the equation `e(A_1, B_1) e(A_2, B_2) ... = out`, both
    /// sides raised to a random scalar that is not zero. A batch of such
    /// checks holds only if, but for a negligible chance, each of them does.
    pub fn rand(rng: &mut StdRng, it: &[(G1, G2)], out: &Fq12) -> (r: PairingCheck)
        ensures
            exists|coeff: nat| coeff != 0 && r@ == #[trigger] PairingCheckView::rand(coeff, it@, *out),
    {
        let coeff = rand_fr(rng);
        Self::rand_with(&coeff, it, out)
    }

    /// Merges another check into this one. Neither is randomised by this:
    /// they must have been before.
    pub fn merge(&mut self, other: &PairingCheck)
        requires
            old(self)@.non_randomized + other@.non_randomized <= u8::MAX,
        ensures
            final(self)@ == old(self)@.merge(other@),
    {
        mul_if_not_one(&mut self.left, &other.left);
        mul_if_not_one(&mut self.right, &other.right);
        self.non_randomized += other.non_randomized;
    }

    /// Whether the batch holds: false where more than one of its checks was
    /// not randomised, and otherwise whether the final exponentiation of its
    /// left side is its right side.
    pub fn verify(&self) -> (b: bool)
        ensures
            b == self@.verify(),
    {
        if self.non_randomized > 1 {
            return false;
        }
        match final_exponentiation(&self.left) {
            Some(v) => v.same(&self.right),
            None => false,
        }
    }
}

} // verus!
