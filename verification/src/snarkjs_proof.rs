//! Proofs and verifying keys in the textual form that SnarkJS writes, and the
//! Groth16 verifying key in the form that the verifier takes.

use crate::curve::{
    final_exp_value, g1_affine_value, g1_infinity_layout, g2_affine_value, g2_infinity_layout,
    g2_negated, g2_prepared_value, miller_value, CurvePoint, Fq, Fq12, Fq2, G1, G2,
};
use crate::errors::{Error, ErrorKind};
use crate::field::{decimal_value, fr_modulus, is_decimal, Scalar};
use crate::ip::pairing;
use crate::proofs::Proof;
use vstd::pervasive::unreached;
use vstd::prelude::*;

verus! {

/// A Groth16 proof as SnarkJS writes it: projective coordinates as decimal strings.
#[derive(Debug, Clone)]
pub struct SnarkJSProof {
    pub curve: String,
    pub protocol: String,
    pub pi_a: Vec<String>,
    pub pi_b: Vec<Vec<String>>,
    pub pi_c: Vec<String>,
}

/// A Groth16 verifying key as SnarkJS writes it.
#[derive(Debug, Clone, Default)]
pub struct SnarkJSVK {
    pub curve: String,
    pub protocol: String,
    pub n_public: i32,
    pub vk_alpha_1: Vec<String>,
    pub vk_beta_2: Vec<Vec<String>>,
    pub vk_gamma_2: Vec<Vec<String>>,
    pub vk_delta_2: Vec<Vec<String>>,
    pub vk_alphabeta_12: Vec<Vec<Vec<String>>>,
    pub ic: Vec<Vec<String>>,
}

/// A point of G2 prepared for the Miller loop: the coefficients of its lines.
#[derive(Debug, Clone)]
pub struct G2Prepared {
    pub ell_coeffs: Vec<(Fq2, Fq2, Fq2)>,
    pub infinity: bool,
}

impl G2Prepared {
    pub fn new(ell_coeffs_: Vec<(Fq2, Fq2, Fq2)>, inf: bool) -> (r: G2Prepared)
        ensures
            r.ell_coeffs@ == ell_coeffs_@,
            r.infinity == inf,
    {
        G2Prepared { ell_coeffs: ell_coeffs_, infinity: inf }
    }
}

/// A Groth16 verifying key.
#[derive(Debug, Clone)]
pub struct VerifyingKey {
    pub alpha_g1: G1,
    pub beta_g2: G2,
    pub gamma_g2: G2,
    pub delta_g2: G2,
    pub gamma_abc_g1: Vec<G1>,
}

/// A Groth16 verifying key with what its verification equation needs of it
/// computed beforehand.
#[derive(Debug, Clone)]
pub struct PreparedVerifyingKey {
    pub vk: VerifyingKey,
    /// The pairing of `alpha_g1` and `beta_g2`.
    pub alpha_g1_beta_g2: Fq12,
    /// The negative of `gamma_g2`, prepared.
    pub gamma_g2_neg_pc: G2Prepared,
    /// The negative of `delta_g2`, prepared.
    pub delta_g2_neg_pc: G2Prepared,
}

/// The base-field element that a decimal numeral stands for.
pub open spec fn fq_of(s: Seq<char>) -> Fq {
    Fq::with_value(decimal_value(s) % crate::curve::fq_modulus())
}

/// The element of the quadratic extension that two decimal numerals stand for.
pub open spec fn fq2_of(c: Seq<String>) -> Fq2 {
    Fq2::spec_new(fq_of(c[0]@), fq_of(c[1]@))
}

/// The point of G1 whose Jacobian coordinates the three numerals give.
pub open spec fn g1_of(g1: Seq<String>) -> G1 {
    g1_affine_value(fq_of(g1[0]@), fq_of(g1[1]@), fq_of(g1[2]@))
}

/// The point of G2 whose Jacobian coordinates the three pairs of numerals give.
pub open spec fn g2_of(g2: Seq<Vec<String>>) -> G2 {
    g2_affine_value(fq2_of(g2[0]@), fq2_of(g2[1]@), fq2_of(g2[2]@))
}

/// Whether the strings give the three Jacobian coordinates of a point of G1.
pub open spec fn g1_strings(g1: Seq<String>) -> bool {
    g1.len() >= 3 && forall|i: int| 0 <= i < 3 ==> is_decimal((#[trigger] g1[i])@)
}

/// Whether the strings give the three Jacobian coordinates of a point of G2,
/// two numerals for each.
pub open spec fn g2_strings(g2: Seq<Vec<String>>) -> bool {
    g2.len() >= 3 && forall|i: int|
        0 <= i < 3 ==> (#[trigger] g2[i]).len() >= 2 && is_decimal(g2[i]@[0]@) && is_decimal(
            g2[i]@[1]@,
        )
}

/// The scalar that the decimal numeral `s` stands for.
pub fn fr_from_str(s: String) -> (r: Scalar)
    requires
        is_decimal(s@),
    ensures
        r@ == decimal_value(s@) % fr_modulus(),
{
    match Scalar::from_decimal(s.as_str()) {
        Some(x) => x,
        None => unreached(),
    }
}

/// The base-field element that the decimal numeral `s` stands for.
pub fn fq_from_str(s: &String) -> (r: Fq)
    requires
        is_decimal(s@),
    ensures
        r == fq_of(s@),
        r.value() == decimal_value(s@) % crate::curve::fq_modulus(),
{
    match Fq::from_decimal(s.as_str()) {
        Some(x) => x,
        None => unreached(),
    }
}

/// The point of G1 whose Jacobian coordinates the three numerals give: the
/// point of the first two as they stand where the third is one, the point at
/// infinity where it is zero.
pub fn g1_from_str(g1: &[String]) -> (r: G1)
    requires
        g1_strings(g1@),
    ensures
        r == g1_of(g1@),
        fq_of(g1@[2]@).value() == 1 ==> r.encoding() == fq_of(g1@[0]@).encoding() + fq_of(
            g1@[1]@,
        ).encoding() + seq![0u8],
        fq_of(g1@[2]@).value() == 0 ==> g1_infinity_layout(r.encoding()),
{
    let x = fq_from_str(&g1[0]);
    let y = fq_from_str(&g1[1]);
    let z = fq_from_str(&g1[2]);
    G1::from_jacobian(&x, &y, &z)
}

/// The element of the quadratic extension that the two numerals give.
fn fq2_from_str(c: &Vec<String>) -> (r: Fq2)
    requires
        c.len() >= 2,
        is_decimal(c@[0]@),
        is_decimal(c@[1]@),
    ensures
        r == fq2_of(c@),
{
    let c0 = fq_from_str(&c[0]);
    let c1 = fq_from_str(&c[1]);
    Fq2::new(c0, c1)
}

/// The point of G2 whose Jacobian coordinates the three pairs of numerals
/// give: the point of the first two as they stand where the third is one, the
/// point at infinity where it is zero.
pub fn g2_from_str(g2: &[Vec<String>]) -> (r: G2)
    requires
        g2_strings(g2@),
    ensures
        r == g2_of(g2@),
        fq2_of(g2@[2]@).is_unit() ==> r.encoding() == fq2_of(g2@[0]@).encoding() + fq2_of(
            g2@[1]@,
        ).encoding() + seq![0u8],
        fq2_of(g2@[2]@).is_null() ==> g2_infinity_layout(r.encoding()),
{
    let x = fq2_from_str(&g2[0]);
    let y = fq2_from_str(&g2[1]);
    let z = fq2_from_str(&g2[2]);
    G2::from_jacobian(&x, &y, &z)
}

impl SnarkJSProof {
    /// Whether the three points of the proof are given by numerals.
    pub open spec fn well_formed(&self) -> bool {
        g1_strings(self.pi_a@) && g2_strings(self.pi_b@) && g1_strings(self.pi_c@)
    }

    /// The proof that the strings give.
    pub open spec fn spec_proof(&self) -> Proof {
        Proof { a: g1_of(self.pi_a@), b: g2_of(self.pi_b@), c: g1_of(self.pi_c@) }
    }

    /// The proof in the form that the aggregation takes.
    pub fn to_proof(&self) -> (r: Proof)
        requires
            self.well_formed(),
        ensures
            r == self.spec_proof(),
    {
        Proof {
            a: g1_from_str(self.pi_a.as_slice()),
            b: g2_from_str(self.pi_b.as_slice()),
            c: g1_from_str(self.pi_c.as_slice()),
        }
    }
}

impl SnarkJSVK {
    /// Whether all the points of the key are given by numerals.
    pub open spec fn well_formed(&self) -> bool {
        &&& g1_strings(self.vk_alpha_1@)
        &&& g2_strings(self.vk_beta_2@)
        &&& g2_strings(self.vk_gamma_2@)
        &&& g2_strings(self.vk_delta_2@)
        &&& forall|i: int| 0 <= i < self.ic.len() ==> g1_strings((#[trigger] self.ic@[i])@)
    }

    /// Whether `vk` is the key that the strings give.
    pub open spec fn gives(&self, vk: VerifyingKey) -> bool {
        &&& vk.alpha_g1 == g1_of(self.vk_alpha_1@)
        &&& vk.beta_g2 == g2_of(self.vk_beta_2@)
        &&& vk.gamma_g2 == g2_of(self.vk_gamma_2@)
        &&& vk.delta_g2 == g2_of(self.vk_delta_2@)
        &&& vk.gamma_abc_g1@ == Seq::new(self.ic.len() as nat, |i: int| g1_of(self.ic@[i]@))
    }

    /// The key in the form that the verifier takes.
    pub fn to_verifying_key(&self) -> (r: VerifyingKey)
        requires
            self.well_formed(),
        ensures
            self.gives(r),
    {
        let alpha_g1 = g1_from_str(self.vk_alpha_1.as_slice());
        let beta_g2 = g2_from_str(self.vk_beta_2.as_slice());
        let gamma_g2 = g2_from_str(self.vk_gamma_2.as_slice());
        let delta_g2 = g2_from_str(self.vk_delta_2.as_slice());
        let mut gamma_abc_g1: Vec<G1> = Vec::with_capacity(self.ic.len());
        let mut i: usize = 0;
        while i < self.ic.len()
            invariant
                i <= self.ic.len(),
                self.well_formed(),
                gamma_abc_g1.len() == i,
                forall|j: int| 0 <= j < i ==> gamma_abc_g1@[j] == g1_of(self.ic@[j]@),
            decreases self.ic.len() - i,
        {
            gamma_abc_g1.push(g1_from_str(self.ic[i].as_slice()));
            i += 1;
        }
        proof {
            assert(gamma_abc_g1@ =~= Seq::new(self.ic.len() as nat, |i: int| g1_of(self.ic@[i]@)));
        }
        VerifyingKey { alpha_g1, beta_g2, gamma_g2, delta_g2, gamma_abc_g1 }
    }
}

/// Whether `r` is the preparation of the key `vk`, or the error of its
/// pairing that has no final exponentiation.
pub open spec fn prepared_from(r: Result<PreparedVerifyingKey, Error>, vk: VerifyingKey) -> bool {
    match final_exp_value(miller_value(seq![vk.alpha_g1], seq![vk.beta_g2])) {
        Some(e) => {
            &&& r is Ok
            &&& r->Ok_0.vk == vk
            &&& r->Ok_0.alpha_g1_beta_g2 == e
            &&& (r->Ok_0.gamma_g2_neg_pc.ell_coeffs@, r->Ok_0.gamma_g2_neg_pc.infinity)
                == g2_prepared_value(g2_negated(vk.gamma_g2))
            &&& (r->Ok_0.delta_g2_neg_pc.ell_coeffs@, r->Ok_0.delta_g2_neg_pc.infinity)
                == g2_prepared_value(g2_negated(vk.delta_g2))
        },
        None => r is Err && r->Err_0.kind() == ErrorKind::InvalidPairing,
    }
}

/// The verifying key with what its verification equation needs of it
/// computed beforehand: the pairing of `alpha_g1` and `beta_g2`, and the
/// negatives of `gamma_g2` and `delta_g2`, prepared. It fails where the
/// Miller loop of `alpha_g1` and `beta_g2` has no final exponentiation.
pub fn prepare_verifying_key(vk: VerifyingKey) -> (r: Result<PreparedVerifyingKey, Error>)
    ensures
        prepared_from(r, vk),
{
    let a: Vec<G1> = vec![vk.alpha_g1];
    let b: Vec<G2> = vec![vk.beta_g2];
    proof {
        assert(a@ =~= seq![vk.alpha_g1]);
        assert(b@ =~= seq![vk.beta_g2]);
    }
    let alpha_g1_beta_g2 = pairing(a.as_slice(), b.as_slice())?;
    let gamma = vk.gamma_g2.neg().prepare();
    let delta = vk.delta_g2.neg().prepare();
    Ok(
        PreparedVerifyingKey {
            vk,
            alpha_g1_beta_g2,
            gamma_g2_neg_pc: G2Prepared::new(gamma.0, gamma.1),
            delta_g2_neg_pc: G2Prepared::new(delta.0, delta.1),
        },
    )
}

/// The prepared verifying key of the key that SnarkJS wrote.
pub fn get_prepared_verifying_key(vkey: SnarkJSVK) -> (r: Result<PreparedVerifyingKey, Error>)
    requires
        vkey.well_formed(),
    ensures
        exists|vk: VerifyingKey| vkey.gives(vk) && #[trigger] prepared_from(r, vk),
{
    let parse_vkey = vkey.to_verifying_key();
    prepare_verifying_key(parse_vkey)
}

} // verus!
