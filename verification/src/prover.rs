//! The prover: it aggregates Groth16 proofs into one proof.

use crate::commitment::{pair, pair_spec, single_g1, single_g1_spec, KeyView, Output, VKey, WKey};
use crate::compress;
use crate::compressed;
use crate::curve::{CurvePoint, Fq12, G1, G2};
use crate::errors::{agrees, Error, ErrorKind};
use crate::field::{
    fr_add_spec, fr_inverse_spec, fr_mul_spec, fr_neg_spec, fr_pow_spec, fr_values, Scalar,
};
use crate::ip::{multiexponentiation, multiexponentiation_spec, pairing, pairing_spec};
use crate::polynomial::{
    coefficients_spec, opening_quotient, opening_quotient_spec, poly_from_coefficients,
    polynomial_coefficients_from_transcript, polynomial_evaluation_product_form_from_transcript,
    product_form_spec, resized_spec, trimmed_spec,
};
use crate::algebra::lemma_fr_pow_inverse;
use crate::field::fr_is_inverse;
use crate::is_power_of_two;
use crate::is_power_of_two_spec;
use crate::proofs::{
    AggregateProof, AggregateProofView, GipaProof, GipaProofView, KZGOpening, Proof, TippMippProof,
    TippMippProofView,
};
use crate::srs::{ProverSRS, ProverSRSView};
use crate::structured_scalar_power;
use crate::structured_scalar_power_spec;
use crate::transcript::{CanonicalBytes, LocalTranscript};
use vstd::pervasive::unreached;
use vstd::slice::{slice_subrange, slice_to_vec};
use vstd::prelude::*;

verus! {

/// The opening of a commitment key at `z`: for the polynomial `poly` with the
/// value `eval` at `z`, the multi-scalar products of both tables of powers with
/// the coefficients of `(poly - eval) / (X - z)`.
pub open spec fn kzg_opening_spec<G: CurvePoint>(
    alpha: Seq<G>,
    beta: Seq<G>,
    poly: Seq<nat>,
    eval: nat,
    z: nat,
) -> Result<KZGOpening<G>, ErrorKind> {
    if poly.len() != alpha.len() {
        Err(ErrorKind::InvalidSRS)
    } else {
        let q = resized_spec(opening_quotient_spec(poly, eval, fr_neg_spec(z)), alpha.len());
        if q.len() != beta.len() {
            Err(ErrorKind::InvalidSRS)
        } else {
            Ok(KZGOpening(G::spec_msm(alpha, q), G::spec_msm(beta, q)))
        }
    }
}

/// The message of the error that a table of powers and a polynomial of
/// different lengths give.
#[verifier::external_body]
fn srs_len_message(srs_len: usize, coeffs_len: usize) -> (m: String) {
    format!("SRS len {} != coefficients len {}", srs_len, coeffs_len)
}

/// Brings the coefficients to the length `n`: cuts them, or fills them up with
/// zeros.
pub fn resize_coefficients(coeffs: &mut Vec<Scalar>, n: usize)
    ensures
        fr_values(final(coeffs)@) == resized_spec(fr_values(old(coeffs)@), n as nat),
{
    coeffs.truncate(n);
    while coeffs.len() < n
        invariant
            coeffs.len() <= n,
            coeffs.len() >= old(coeffs).len() || coeffs.len() == n,
            forall|i: int|
                0 <= i < coeffs.len() ==> coeffs@[i]@ == resized_spec(
                    fr_values(old(coeffs)@),
                    n as nat,
                )[i],
        decreases n - coeffs.len(),
    {
        coeffs.push(Scalar::zero());
    }
    assert(fr_values(coeffs@) =~= resized_spec(fr_values(old(coeffs)@), n as nat));
}

/// Opens a commitment key at the point `kzg_challenge`: it returns, for each
/// of the two tables of powers, the commitment to the quotient
/// `(poly - eval_poly) / (X - kzg_challenge)`. `poly` holds the coefficients
/// of the key's polynomial, without zeros above the highest non-zero one.
pub fn create_kzg_opening<G: CurvePoint>(
    srs_powers_alpha_table: &[G],
    srs_powers_beta_table: &[G],
    poly: &Vec<Scalar>,
    eval_poly: &Scalar,
    kzg_challenge: &Scalar,
) -> (r: Result<KZGOpening<G>, Error>)
    ensures
        agrees(
            r,
            kzg_opening_spec(
                srs_powers_alpha_table@,
                srs_powers_beta_table@,
                fr_values(poly@),
                eval_poly@,
                kzg_challenge@,
            ),
        ),
{
    let neg_kzg_challenge = kzg_challenge.neg();
    if poly.len() != srs_powers_alpha_table.len() {
        return Err(Error::InvalidSRS(srs_len_message(srs_powers_alpha_table.len(), poly.len())));
    }
    let mut quotient = opening_quotient(poly, eval_poly, &neg_kzg_challenge);
    resize_coefficients(&mut quotient, srs_powers_alpha_table.len());
    if quotient.len() != srs_powers_beta_table.len() {
        return Err(Error::InvalidSRS(srs_len_message(srs_powers_beta_table.len(), quotient.len())));
    }
    let a = G::msm(srs_powers_alpha_table, quotient.as_slice());
    let b = G::msm(srs_powers_beta_table, quotient.as_slice());
    Ok(KZGOpening(a, b))
}

/// The opening of the final key `v`: its polynomial is `f` with the shift one.
pub open spec fn commitment_v_spec<G: CurvePoint>(
    alpha: Seq<G>,
    beta: Seq<G>,
    x: Seq<nat>,
    z: nat,
) -> Result<KZGOpening<G>, ErrorKind> {
    kzg_opening_spec(
        alpha,
        beta,
        trimmed_spec(coefficients_spec(x, 1)),
        product_form_spec(x, z, 1),
        z,
    )
}

/// The coefficients of `X^n f(X)`, for the `n` coefficients `f`.
pub open spec fn shifted_up_spec(f: Seq<nat>) -> Seq<nat> {
    Seq::new(f.len(), |i: int| 0nat) + f
}

/// The opening of the final key `w`: its polynomial is `X^n f(X)`, with `f`
/// shifted by `r_shift` and `n` the number of coefficients of `f`; its value at
/// `z` is `z^n f(z)`.
pub open spec fn commitment_w_spec<G: CurvePoint>(
    alpha: Seq<G>,
    beta: Seq<G>,
    x: Seq<nat>,
    r_shift: nat,
    z: nat,
) -> Result<KZGOpening<G>, ErrorKind> {
    kzg_opening_spec(
        alpha,
        beta,
        trimmed_spec(shifted_up_spec(coefficients_spec(x, r_shift))),
        fr_mul_spec(
            product_form_spec(x, z, r_shift),
            fr_pow_spec(z, coefficients_spec(x, r_shift).len()),
        ),
        z,
    )
}

/// Opens the final commitment key `v` at `kzg_challenge`. `transcript` holds
/// the inverses of the rounds' challenges, last round first.
pub fn prove_commitment_v<G: CurvePoint>(
    srs_powers_alpha_table: &[G],
    srs_powers_beta_table: &[G],
    transcript: &[Scalar],
    kzg_challenge: &Scalar,
) -> (r: Result<KZGOpening<G>, Error>)
    requires
        transcript.len() >= 1,
    ensures
        agrees(
            r,
            commitment_v_spec(
                srs_powers_alpha_table@,
                srs_powers_beta_table@,
                fr_values(transcript@),
                kzg_challenge@,
            ),
        ),
{
    let one = Scalar::one();
    let vkey_poly = poly_from_coefficients(
        &polynomial_coefficients_from_transcript(transcript, &one),
    );
    let vkey_poly_z = polynomial_evaluation_product_form_from_transcript(
        transcript,
        kzg_challenge,
        &one,
    );
    create_kzg_opening(
        srs_powers_alpha_table,
        srs_powers_beta_table,
        &vkey_poly,
        &vkey_poly_z,
        kzg_challenge,
    )
}

/// Opens the final commitment key `w` at `kzg_challenge`. `transcript` holds
/// the rounds' challenges, last round first; `r_shift` is the inverse of the
/// scalar by which the proofs were combined.
pub fn prove_commitment_w<G: CurvePoint>(
    srs_powers_alpha_table: &[G],
    srs_powers_beta_table: &[G],
    transcript: &[Scalar],
    r_shift: &Scalar,
    kzg_challenge: &Scalar,
) -> (r: Result<KZGOpening<G>, Error>)
    requires
        transcript.len() >= 1,
    ensures
        agrees(
            r,
            commitment_w_spec(
                srs_powers_alpha_table@,
                srs_powers_beta_table@,
                fr_values(transcript@),
                r_shift@,
                kzg_challenge@,
            ),
        ),
{
    let fcoeffs = polynomial_coefficients_from_transcript(transcript, r_shift);
    let mut fwcoeffs: Vec<Scalar> = Vec::new();
    let mut i: usize = 0;
    while i < fcoeffs.len()
        invariant
            i <= fcoeffs.len(),
            fwcoeffs.len() == i,
            forall|j: int| 0 <= j < i ==> fwcoeffs@[j]@ == 0,
        decreases fcoeffs.len() - i,
    {
        fwcoeffs.push(Scalar::zero());
        i += 1;
    }
    let mut j: usize = 0;
    while j < fcoeffs.len()
        invariant
            j <= fcoeffs.len(),
            fwcoeffs.len() == fcoeffs.len() + j,
            forall|k: int| 0 <= k < fcoeffs.len() ==> fwcoeffs@[k]@ == 0,
            forall|k: int| 0 <= k < j ==> (#[trigger] fwcoeffs@[fcoeffs.len() + k])@ == fcoeffs@[k]@,
        decreases fcoeffs.len() - j,
    {
        fwcoeffs.push(fcoeffs[j]);
        j += 1;
    }
    proof {
        let want = shifted_up_spec(fr_values(fcoeffs@));
        let got = fr_values(fwcoeffs@);
        assert(got.len() == want.len());
        assert forall|k: int| 0 <= k < got.len() implies got[k] == want[k] by {
            if k >= fcoeffs.len() {
                assert(got[k] == fwcoeffs@[fcoeffs.len() + (k - fcoeffs.len())]@);
            }
        }
        assert(got =~= want);
    }
    let fw = poly_from_coefficients(&fwcoeffs);
    let fz = polynomial_evaluation_product_form_from_transcript(
        transcript,
        kzg_challenge,
        r_shift,
    );
    let zn = kzg_challenge.pow(fcoeffs.len() as u64);
    let fwz = fz.mul(&zn);
    create_kzg_opening(srs_powers_alpha_table, srs_powers_beta_table, &fw, &fwz, kzg_challenge)
}

/// What the inner-product argument works on in a round: the three vectors of
/// points, the scalars, and the two commitment keys.
pub ghost struct Working {
    pub a: Seq<G1>,
    pub b: Seq<G2>,
    pub c: Seq<G1>,
    pub r: Seq<nat>,
    pub v: KeyView<G2>,
    pub w: KeyView<G1>,
}

/// What a round commits to: the commitments to the cross terms, and the cross
/// inner products themselves.
pub ghost struct CrossTerms {
    pub tab_l: Output,
    pub tab_r: Output,
    pub zab_l: Fq12,
    pub zab_r: Fq12,
    pub zc_l: G1,
    pub zc_r: G1,
    pub tuc_l: Output,
    pub tuc_r: Output,
}

/// The scalars folded in half with the factor `x`: each scalar of the lower
/// part plus `x` times the scalar of the upper part at its place.
pub open spec fn folded_scalars(r: Seq<nat>, split: int, x: nat) -> Seq<nat> {
    Seq::new(
        split as nat,
        |i: int|
            if split + i < r.len() {
                fr_add_spec(r[i], fr_mul_spec(r[split + i], x))
            } else {
                r[i]
            },
    )
}

impl Working {
    /// Whether all the vectors and both halves of both keys are of one length.
    pub open spec fn aligned(self) -> bool {
        let n = self.a.len();
        &&& self.b.len() == n
        &&& self.c.len() == n
        &&& self.r.len() == n
        &&& self.v.a.len() == n
        &&& self.v.b.len() == n
        &&& self.w.a.len() == n
        &&& self.w.b.len() == n
    }

    /// Where the round cuts the vectors in two.
    pub open spec fn split(self) -> int {
        self.a.len() as int / 2
    }

    /// What the round commits to: each left half is paired with the right
    /// half of the other side.
    pub open spec fn cross_terms(self) -> Result<CrossTerms, ErrorKind> {
        let k = self.split();
        let n = self.a.len() as int;
        let (a_l, a_r) = (self.a.subrange(0, k), self.a.subrange(k, n));
        let (b_l, b_r) = (self.b.subrange(0, k), self.b.subrange(k, n));
        let (c_l, c_r) = (self.c.subrange(0, k), self.c.subrange(k, n));
        let (r_l, r_r) = (self.r.subrange(0, k), self.r.subrange(k, n));
        let (v_l, v_r) = (self.v.left(k), self.v.right(k));
        let (w_l, w_r) = (self.w.left(k), self.w.right(k));
        match pair_spec(v_l, w_r, a_r, b_l) {
            Err(e) => Err(e),
            Ok(tab_l) => match pair_spec(v_r, w_l, a_l, b_r) {
                Err(e) => Err(e),
                Ok(tab_r) => match pairing_spec(a_r, b_l) {
                    Err(e) => Err(e),
                    Ok(zab_l) => match pairing_spec(a_l, b_r) {
                        Err(e) => Err(e),
                        Ok(zab_r) => match multiexponentiation_spec(c_r, r_l) {
                            Err(e) => Err(e),
                            Ok(zc_l) => match multiexponentiation_spec(c_l, r_r) {
                                Err(e) => Err(e),
                                Ok(zc_r) => match single_g1_spec(v_l, c_r) {
                                    Err(e) => Err(e),
                                    Ok(tuc_l) => match single_g1_spec(v_r, c_l) {
                                        Err(e) => Err(e),
                                        Ok(tuc_r) => Ok(
                                            CrossTerms {
                                                tab_l,
                                                tab_r,
                                                zab_l,
                                                zab_r,
                                                zc_l,
                                                zc_r,
                                                tuc_l,
                                                tuc_r,
                                            },
                                        ),
                                    },
                                },
                            },
                        },
                    },
                },
            },
        }
    }

    /// What the next round works on: `A`, `C` and `w` folded with the
    /// challenge `c`; `B`, the scalars and `v` with its inverse.
    pub open spec fn folded(self, c: nat, c_inv: nat) -> Result<Working, ErrorKind> {
        let k = self.split();
        if self.v.left(k).a.len() != self.v.right(k).a.len() {
            Err(ErrorKind::InvalidKeyLength)
        } else if self.w.left(k).a.len() != self.w.right(k).a.len() {
            Err(ErrorKind::InvalidKeyLength)
        } else {
            Ok(
                Working {
                    a: compressed(self.a, k, c),
                    b: compressed(self.b, k, c_inv),
                    c: compressed(self.c, k, c),
                    r: folded_scalars(self.r, k, c_inv),
                    v: self.v.left(k).compressed(self.v.right(k), c_inv),
                    w: self.w.left(k).compressed(self.w.right(k), c),
                },
            )
        }
    }
}

/// The state of the transcript after a round has absorbed the previous
/// challenge and what it commits to.
pub open spec fn round_absorbed<T: LocalTranscript>(st: Seq<u8>, c_inv: nat, t: CrossTerms) -> Seq<
    u8,
> {
    let st0 = T::after_append(st, crate::transcript::fr_serialized(c_inv));
    let st1 = T::after_append(st0, t.zab_l.canonical_bytes());
    let st2 = T::after_append(st1, t.zab_r.canonical_bytes());
    let st3 = T::after_append(st2, t.zc_l.canonical_bytes());
    let st4 = T::after_append(st3, t.zc_r.canonical_bytes());
    let st5 = T::after_append(st4, t.tab_l.canonical_bytes());
    let st6 = T::after_append(st5, t.tab_r.canonical_bytes());
    let st7 = T::after_append(st6, t.tuc_l.canonical_bytes());
    T::after_append(st7, t.tuc_r.canonical_bytes())
}

/// The inner-product argument between two rounds: the transcript, what is
/// left to fold, the last challenge drawn, and what the rounds so far have
/// recorded.
pub ghost struct GipaRun {
    pub st: Seq<u8>,
    pub work: Working,
    pub c_inv: nat,
    pub round: nat,
    pub comms_ab: Seq<(Output, Output)>,
    pub comms_c: Seq<(Output, Output)>,
    pub z_ab: Seq<(Fq12, Fq12)>,
    pub z_c: Seq<(G1, G1)>,
    pub challenges: Seq<nat>,
    pub challenges_inv: Seq<nat>,
}

/// What the inner-product argument returns: the proof, the challenges of the
/// rounds and their inverses in the order of the rounds, and the transcript.
pub ghost struct GipaOutcome {
    pub proof: GipaProofView,
    pub challenges: Seq<nat>,
    pub challenges_inv: Seq<nat>,
    pub st: Seq<u8>,
}

/// The rounds that are left of the argument, and its outcome. The first
/// round uses the challenge that was drawn before it; each later round
/// absorbs the previous challenge and what it commits to, and draws its own.
pub open spec fn gipa_rounds<T: LocalTranscript>(run: GipaRun, nproofs: u32) -> Result<
    GipaOutcome,
    ErrorKind,
>
    decreases run.work.a.len(),
{
    if run.work.a.len() <= 1 {
        Ok(
            GipaOutcome {
                proof: GipaProofView {
                    nproofs,
                    comms_ab: run.comms_ab,
                    comms_c: run.comms_c,
                    z_ab: run.z_ab,
                    z_c: run.z_c,
                    final_a: run.work.a[0],
                    final_b: run.work.b[0],
                    final_c: run.work.c[0],
                    final_vkey: (run.work.v.a[0], run.work.v.b[0]),
                    final_wkey: (run.work.w.a[0], run.work.w.b[0]),
                },
                challenges: run.challenges,
                challenges_inv: run.challenges_inv,
                st: run.st,
            },
        )
    } else {
        match run.work.cross_terms() {
            Err(e) => Err(e),
            Ok(t) => {
                let absorbed = round_absorbed::<T>(run.st, run.c_inv, t);
                let st = if run.round == 0 {
                    run.st
                } else {
                    T::after_challenge(absorbed)
                };
                let c_inv = if run.round == 0 {
                    run.c_inv
                } else {
                    T::challenge_of(absorbed)
                };
                let c = fr_inverse_spec(c_inv);
                match run.work.folded(c, c_inv) {
                    Err(e) => Err(e),
                    Ok(work) => gipa_rounds::<T>(
                        GipaRun {
                            st,
                            work,
                            c_inv,
                            round: run.round + 1,
                            comms_ab: run.comms_ab.push((t.tab_l, t.tab_r)),
                            comms_c: run.comms_c.push((t.tuc_l, t.tuc_r)),
                            z_ab: run.z_ab.push((t.zab_l, t.zab_r)),
                            z_c: run.z_c.push((t.zc_l, t.zc_r)),
                            challenges: run.challenges.push(c),
                            challenges_inv: run.challenges_inv.push(c_inv),
                        },
                        nproofs,
                    ),
                }
            },
        }
    }
}

/// The whole inner-product argument: it absorbs the two inner products,
/// draws the first challenge and runs the rounds.
pub open spec fn gipa_spec<T: LocalTranscript>(
    st: Seq<u8>,
    work: Working,
    ip_ab: Fq12,
    agg_c: G1,
) -> Result<GipaOutcome, ErrorKind> {
    let st0 = T::after_append(st, ip_ab.canonical_bytes());
    let st1 = T::after_append(st0, agg_c.canonical_bytes());
    gipa_rounds::<T>(
        GipaRun {
            st: T::after_challenge(st1),
            work,
            c_inv: T::challenge_of(st1),
            round: 0,
            comms_ab: Seq::empty(),
            comms_c: Seq::empty(),
            z_ab: Seq::empty(),
            z_c: Seq::empty(),
            challenges: Seq::empty(),
            challenges_inv: Seq::empty(),
        },
        work.a.len() as u32,
    )
}

/// The state in which the rounds that are left leave the transcript, whether
/// they go through or not: a round that cannot commit to its cross terms
/// leaves the transcript as it found it, a round that cannot fold the keys
/// leaves it after its challenge.
pub open spec fn gipa_rounds_state<T: LocalTranscript>(
    st: Seq<u8>,
    work: Working,
    c_inv: nat,
    round: nat,
) -> Seq<u8>
    decreases work.a.len(),
{
    if work.a.len() <= 1 {
        st
    } else {
        match work.cross_terms() {
            Err(_) => st,
            Ok(t) => {
                let absorbed = round_absorbed::<T>(st, c_inv, t);
                let next_st = if round == 0 {
                    st
                } else {
                    T::after_challenge(absorbed)
                };
                let next_c_inv = if round == 0 {
                    c_inv
                } else {
                    T::challenge_of(absorbed)
                };
                match work.folded(fr_inverse_spec(next_c_inv), next_c_inv) {
                    Err(_) => next_st,
                    Ok(next) => gipa_rounds_state::<T>(next_st, next, next_c_inv, round + 1),
                }
            },
        }
    }
}

/// The state in which the whole inner-product argument leaves the
/// transcript, whether it goes through or not.
pub open spec fn gipa_state_spec<T: LocalTranscript>(
    st: Seq<u8>,
    work: Working,
    ip_ab: Fq12,
    agg_c: G1,
) -> Seq<u8> {
    let st0 = T::after_append(st, ip_ab.canonical_bytes());
    let st1 = T::after_append(st0, agg_c.canonical_bytes());
    gipa_rounds_state::<T>(T::after_challenge(st1), work, T::challenge_of(st1), 0)
}

/// Whether `r` is the outcome that `expected` gives and `st` the state it
/// leaves the transcript in, or an error of the kind that it gives.
pub open spec fn gipa_agrees(
    r: Result<(GipaProof, Vec<Scalar>, Vec<Scalar>), Error>,
    st: Seq<u8>,
    expected: Result<GipaOutcome, ErrorKind>,
) -> bool {
    match expected {
        Ok(o) => {
            &&& r is Ok
            &&& r->Ok_0.0@ == o.proof
            &&& fr_values(r->Ok_0.1@) == o.challenges
            &&& fr_values(r->Ok_0.2@) == o.challenges_inv
            &&& st == o.st
        },
        Err(k) => r is Err && r->Err_0.kind() == k,
    }
}

/// Folds the upper part of the scalars `r`, from `split` on, into the lower
/// part with the factor `x`, and cuts `r` down to the lower part.
pub fn fold_scalars(r: &mut Vec<Scalar>, split: usize, x: &Scalar)
    requires
        split <= old(r).len(),
    ensures
        fr_values(final(r)@) == folded_scalars(fr_values(old(r)@), split as int, x@),
{
    let len = r.len();
    let n = if len - split < split {
        len - split
    } else {
        split
    };
    let ghost want = folded_scalars(fr_values(old(r)@), split as int, x@);
    let mut i: usize = 0;
    while i < n
        invariant
            i <= n,
            n <= split,
            split + n <= len,
            r.len() == len,
            len == old(r).len(),
            want == folded_scalars(fr_values(old(r)@), split as int, x@),
            forall|j: int| 0 <= j < i ==> r@[j]@ == want[j],
            forall|j: int| i <= j < len ==> r@[j] == old(r)@[j],
        decreases n - i,
    {
        let y = r[i].add(&r[split + i].mul(x));
        r.set(i, y);
        i += 1;
    }
    r.truncate(split);
    assert(fr_values(r@) =~= want);
}

/// The recursion of the inner-product argument, for the pairing product of
/// `a` and `b` and for the multi-scalar product of `c` and `r` at once. It
/// returns the proof with what every round committed to, and the challenges
/// of the rounds with their inverses, which the openings of the final keys
/// need.
pub fn gipa_tipp_mipp<T: LocalTranscript>(
    transcript: &mut T,
    a: &[G1],
    b: &[G2],
    c: &[G1],
    vkey: &VKey,
    wkey: &WKey,
    r: &[Scalar],
    ip_ab: &Fq12,
    agg_c: &G1,
) -> (res: Result<(GipaProof, Vec<Scalar>, Vec<Scalar>), Error>)
    requires
        1 <= a.len() <= u32::MAX,
        (Working { a: a@, b: b@, c: c@, r: fr_values(r@), v: vkey@, w: wkey@ }).aligned(),
    ensures
        gipa_agrees(
            res,
            final(transcript).state(),
            gipa_spec::<T>(
                old(transcript).state(),
                Working { a: a@, b: b@, c: c@, r: fr_values(r@), v: vkey@, w: wkey@ },
                *ip_ab,
                *agg_c,
            ),
        ),
        res matches Ok(o) ==> o.1.len() == o.2.len() && forall|k: int|
            0 <= k < o.1.len() ==> fr_is_inverse(#[trigger] o.2@[k]@, o.1@[k]@),
        final(transcript).state() == gipa_state_spec::<T>(
            old(transcript).state(),
            Working { a: a@, b: b@, c: c@, r: fr_values(r@), v: vkey@, w: wkey@ },
            *ip_ab,
            *agg_c,
        ),
{
    let mut m_a = slice_to_vec(a);
    let mut m_b = slice_to_vec(b);
    let mut m_c = slice_to_vec(c);
    let mut m_r = slice_to_vec(r);
    let mut m_v = vkey.duplicate();
    let mut m_w = wkey.duplicate();

    let mut comms_ab: Vec<(Output, Output)> = Vec::new();
    let mut comms_c: Vec<(Output, Output)> = Vec::new();
    let mut z_ab: Vec<(Fq12, Fq12)> = Vec::new();
    let mut z_c: Vec<(G1, G1)> = Vec::new();
    let mut challenges: Vec<Scalar> = Vec::new();
    let mut challenges_inv: Vec<Scalar> = Vec::new();

    transcript.append(ip_ab);
    transcript.append(agg_c);
    let mut c_inv = transcript.challenge_scalar();
    let nproofs = a.len() as u32;
    let ghost goal = gipa_spec::<T>(
        old(transcript).state(),
        Working { a: a@, b: b@, c: c@, r: fr_values(r@), v: vkey@, w: wkey@ },
        *ip_ab,
        *agg_c,
    );
    let ghost goal_state = gipa_state_spec::<T>(
        old(transcript).state(),
        Working { a: a@, b: b@, c: c@, r: fr_values(r@), v: vkey@, w: wkey@ },
        *ip_ab,
        *agg_c,
    );
    proof {
        assert(fr_values(m_r@) =~= fr_values(r@));
        assert(fr_values(challenges@) =~= Seq::<nat>::empty());
        assert(fr_values(challenges_inv@) =~= Seq::<nat>::empty());
    }

    let mut i: usize = 0;
    while m_a.len() > 1
        invariant
            m_a.len() >= 1,
            c_inv@ != 0,
            i == challenges.len(),
            i == challenges_inv.len(),
            forall|k: int|
                0 <= k < i ==> fr_is_inverse(#[trigger] challenges_inv@[k]@, challenges@[k]@),
            i + m_a.len() <= a.len(),
            goal == gipa_spec::<T>(
                old(transcript).state(),
                Working { a: a@, b: b@, c: c@, r: fr_values(r@), v: vkey@, w: wkey@ },
                *ip_ab,
                *agg_c,
            ),
            (Working {
                a: m_a@,
                b: m_b@,
                c: m_c@,
                r: fr_values(m_r@),
                v: m_v@,
                w: m_w@,
            }).aligned(),
            goal_state == gipa_state_spec::<T>(
                old(transcript).state(),
                Working { a: a@, b: b@, c: c@, r: fr_values(r@), v: vkey@, w: wkey@ },
                *ip_ab,
                *agg_c,
            ),
            goal_state == gipa_rounds_state::<T>(
                transcript.state(),
                Working { a: m_a@, b: m_b@, c: m_c@, r: fr_values(m_r@), v: m_v@, w: m_w@ },
                c_inv@,
                i as nat,
            ),
            goal == gipa_rounds::<T>(
                GipaRun {
                    st: transcript.state(),
                    work: Working {
                        a: m_a@,
                        b: m_b@,
                        c: m_c@,
                        r: fr_values(m_r@),
                        v: m_v@,
                        w: m_w@,
                    },
                    c_inv: c_inv@,
                    round: i as nat,
                    comms_ab: comms_ab@,
                    comms_c: comms_c@,
                    z_ab: z_ab@,
                    z_c: z_c@,
                    challenges: fr_values(challenges@),
                    challenges_inv: fr_values(challenges_inv@),
                },
                nproofs,
            ),
        decreases m_a.len(),
    {
        let len = m_a.len();
        let split = len / 2;
        let ghost work = Working {
            a: m_a@,
            b: m_b@,
            c: m_c@,
            r: fr_values(m_r@),
            v: m_v@,
            w: m_w@,
        };

        let (vk_left, vk_right) = m_v.split(split);
        let (wk_left, wk_right) = m_w.split(split);
        proof {
            assert(vk_left@.a + vk_right@.a =~= work.v.a);
            assert(vk_left@.b + vk_right@.b =~= work.v.b);
            assert(wk_left@.a + wk_right@.a =~= work.w.a);
            assert(wk_left@.b + wk_right@.b =~= work.w.b);
        }
        let (tab_l, tab_r, zab_l, zab_r, zc_l, zc_r, tuc_l, tuc_r) = round_terms(
            m_a.as_slice(),
            m_b.as_slice(),
            m_c.as_slice(),
            m_r.as_slice(),
            &vk_left,
            &vk_right,
            &wk_left,
            &wk_right,
            split,
        )?;

        if i > 0 {
            transcript.append(&c_inv);
            transcript.append(&zab_l);
            transcript.append(&zab_r);
            transcript.append(&zc_l);
            transcript.append(&zc_r);
            transcript.append(&tab_l);
            transcript.append(&tab_r);
            transcript.append(&tuc_l);
            transcript.append(&tuc_r);
            c_inv = transcript.challenge_scalar();
        }
        let c = match c_inv.inverse() {
            Some(c) => c,
            None => unreached(),
        };

        compress(&mut m_a, split, &c);
        compress(&mut m_b, split, &c_inv);
        compress(&mut m_c, split, &c);
        fold_scalars(&mut m_r, split, &c_inv);

        m_v = vk_left.compress(&vk_right, &c_inv)?;
        m_w = wk_left.compress(&wk_right, &c)?;

        comms_ab.push((tab_l, tab_r));
        comms_c.push((tuc_l, tuc_r));
        z_ab.push((zab_l, zab_r));
        z_c.push((zc_l, zc_r));
        proof {
            assert(fr_values(challenges@).push(c@) =~= fr_values(challenges@.push(c)));
            assert(fr_values(challenges_inv@).push(c_inv@) =~= fr_values(
                challenges_inv@.push(c_inv),
            ));
        }
        challenges.push(c);
        challenges_inv.push(c_inv);
        i += 1;
    }

    let final_vkey = m_v.first();
    let final_wkey = m_w.first();
    Ok(
        (
            GipaProof {
                nproofs,
                comms_ab,
                comms_c,
                z_ab,
                z_c,
                final_a: m_a[0],
                final_b: m_b[0],
                final_c: m_c[0],
                final_vkey,
                final_wkey,
            },
            challenges,
            challenges_inv,
        ),
    )
}

/// What a round of the argument commits to, for the vectors cut at `split`
/// and the two halves of each key, cut at `split` as well.
pub fn round_terms(
    a: &[G1],
    b: &[G2],
    c: &[G1],
    r: &[Scalar],
    vk_left: &VKey,
    vk_right: &VKey,
    wk_left: &WKey,
    wk_right: &WKey,
    split: usize,
) -> (res: Result<(Output, Output, Fq12, Fq12, G1, G1, Output, Output), Error>)
    requires
        split == a.len() / 2,
        b.len() == a.len(),
        c.len() == a.len(),
        r.len() == a.len(),
        vk_left@.a.len() == split,
        vk_left@.b.len() == split,
        wk_left@.a.len() == split,
        wk_left@.b.len() == split,
    ensures
        ({
            let work = Working {
                a: a@,
                b: b@,
                c: c@,
                r: fr_values(r@),
                v: KeyView { a: vk_left@.a + vk_right@.a, b: vk_left@.b + vk_right@.b },
                w: KeyView { a: wk_left@.a + wk_right@.a, b: wk_left@.b + wk_right@.b },
            };
            match work.cross_terms() {
                Ok(t) => res == Ok::<_, Error>(
                    (t.tab_l, t.tab_r, t.zab_l, t.zab_r, t.zc_l, t.zc_r, t.tuc_l, t.tuc_r),
                ),
                Err(e) => res is Err && res->Err_0.kind() == e,
            }
        }),
{
    let len = a.len();
    let a_left = slice_subrange(a, 0, split);
    let a_right = slice_subrange(a, split, len);
    let b_left = slice_subrange(b, 0, split);
    let b_right = slice_subrange(b, split, len);
    let c_left = slice_subrange(c, 0, split);
    let c_right = slice_subrange(c, split, len);
    let r_left = slice_subrange(r, 0, split);
    let r_right = slice_subrange(r, split, len);
    proof {
        let k = split as int;
        let n = len as int;
        let va = vk_left@.a + vk_right@.a;
        let vb = vk_left@.b + vk_right@.b;
        let wa = wk_left@.a + wk_right@.a;
        let wb = wk_left@.b + wk_right@.b;
        assert(va.subrange(0, k) =~= vk_left@.a);
        assert(va.subrange(k, va.len() as int) =~= vk_right@.a);
        assert(vb.subrange(0, k) =~= vk_left@.b);
        assert(vb.subrange(k, vb.len() as int) =~= vk_right@.b);
        assert(wa.subrange(0, k) =~= wk_left@.a);
        assert(wa.subrange(k, wa.len() as int) =~= wk_right@.a);
        assert(wb.subrange(0, k) =~= wk_left@.b);
        assert(wb.subrange(k, wb.len() as int) =~= wk_right@.b);
        assert(fr_values(r_left@) =~= fr_values(r@).subrange(0, k));
        assert(fr_values(r_right@) =~= fr_values(r@).subrange(k, n));
    }
    let tab_l = pair(vk_left, wk_right, a_right, b_left)?;
    let tab_r = pair(vk_right, wk_left, a_left, b_right)?;
    let zab_l = pairing(a_right, b_left)?;
    let zab_r = pairing(a_left, b_right)?;
    let zc_l = multiexponentiation(c_right, r_left)?;
    let zc_r = multiexponentiation(c_left, r_right)?;
    let tuc_l = single_g1(vk_left, c_right)?;
    let tuc_r = single_g1(vk_right, c_left)?;
    Ok((tab_l, tab_r, zab_l, zab_r, zc_l, zc_r, tuc_l, tuc_r))
}

/// The argument records one challenge and one inverse for every round, and
/// at least one round where more than one value is left to fold.
pub proof fn lemma_gipa_rounds_challenges<T: LocalTranscript>(run: GipaRun, nproofs: u32)
    requires
        run.challenges.len() == run.challenges_inv.len(),
    ensures
        gipa_rounds::<T>(run, nproofs) matches Ok(o) ==> {
            &&& o.challenges.len() == o.challenges_inv.len()
            &&& o.challenges.len() >= run.challenges.len()
            &&& run.work.a.len() > 1 ==> o.challenges.len() > run.challenges.len()
        },
    decreases run.work.a.len(),
{
    if run.work.a.len() > 1 {
        if let Ok(t) = run.work.cross_terms() {
            let absorbed = round_absorbed::<T>(run.st, run.c_inv, t);
            let st = if run.round == 0 {
                run.st
            } else {
                T::after_challenge(absorbed)
            };
            let c_inv = if run.round == 0 {
                run.c_inv
            } else {
                T::challenge_of(absorbed)
            };
            let c = fr_inverse_spec(c_inv);
            if let Ok(work) = run.work.folded(c, c_inv) {
                lemma_gipa_rounds_challenges::<T>(
                    GipaRun {
                        st,
                        work,
                        c_inv,
                        round: run.round + 1,
                        comms_ab: run.comms_ab.push((t.tab_l, t.tab_r)),
                        comms_c: run.comms_c.push((t.tuc_l, t.tuc_r)),
                        z_ab: run.z_ab.push((t.zab_l, t.zab_r)),
                        z_c: run.z_c.push((t.zc_l, t.zc_r)),
                        challenges: run.challenges.push(c),
                        challenges_inv: run.challenges_inv.push(c_inv),
                    },
                    nproofs,
                );
            }
        }
    }
}

/// The argument fails only where vectors or keys differ in length or a
/// pairing has no final exponentiation.
pub proof fn lemma_gipa_rounds_errors<T: LocalTranscript>(run: GipaRun, nproofs: u32)
    ensures
        gipa_rounds::<T>(run, nproofs) matches Err(k) ==> k == ErrorKind::InvalidIPVectorLength
            || k == ErrorKind::InvalidPairing || k == ErrorKind::InvalidKeyLength,
    decreases run.work.a.len(),
{
    if run.work.a.len() > 1 {
        if let Ok(t) = run.work.cross_terms() {
            let absorbed = round_absorbed::<T>(run.st, run.c_inv, t);
            let st = if run.round == 0 {
                run.st
            } else {
                T::after_challenge(absorbed)
            };
            let c_inv = if run.round == 0 {
                run.c_inv
            } else {
                T::challenge_of(absorbed)
            };
            let c = fr_inverse_spec(c_inv);
            if let Ok(work) = run.work.folded(c, c_inv) {
                lemma_gipa_rounds_errors::<T>(
                    GipaRun {
                        st,
                        work,
                        c_inv,
                        round: run.round + 1,
                        comms_ab: run.comms_ab.push((t.tab_l, t.tab_r)),
                        comms_c: run.comms_c.push((t.tuc_l, t.tuc_r)),
                        z_ab: run.z_ab.push((t.zab_l, t.zab_r)),
                        z_c: run.z_c.push((t.zc_l, t.zc_r)),
                        challenges: run.challenges.push(c),
                        challenges_inv: run.challenges_inv.push(c_inv),
                    },
                    nproofs,
                );
            }
        }
    }
}

/// The argument records one entry in each of its four vectors for every
/// halving of what is left to fold, and the number of proofs it was given.
pub proof fn lemma_gipa_rounds_shape<T: LocalTranscript>(run: GipaRun, nproofs: u32)
    ensures
        gipa_rounds::<T>(run, nproofs) matches Ok(o) ==> {
            let more = crate::proofs::rounds_spec(run.work.a.len());
            &&& o.proof.nproofs == nproofs
            &&& o.proof.comms_ab.len() == run.comms_ab.len() + more
            &&& o.proof.comms_c.len() == run.comms_c.len() + more
            &&& o.proof.z_ab.len() == run.z_ab.len() + more
            &&& o.proof.z_c.len() == run.z_c.len() + more
        },
    decreases run.work.a.len(),
{
    if run.work.a.len() > 1 {
        if let Ok(t) = run.work.cross_terms() {
            let absorbed = round_absorbed::<T>(run.st, run.c_inv, t);
            let st = if run.round == 0 {
                run.st
            } else {
                T::after_challenge(absorbed)
            };
            let c_inv = if run.round == 0 {
                run.c_inv
            } else {
                T::challenge_of(absorbed)
            };
            let c = fr_inverse_spec(c_inv);
            if let Ok(work) = run.work.folded(c, c_inv) {
                assert(work.a.len() == run.work.a.len() / 2);
                lemma_gipa_rounds_shape::<T>(
                    GipaRun {
                        st,
                        work,
                        c_inv,
                        round: run.round + 1,
                        comms_ab: run.comms_ab.push((t.tab_l, t.tab_r)),
                        comms_c: run.comms_c.push((t.tuc_l, t.tuc_r)),
                        z_ab: run.z_ab.push((t.zab_l, t.zab_r)),
                        z_c: run.z_c.push((t.zc_l, t.zc_r)),
                        challenges: run.challenges.push(c),
                        challenges_inv: run.challenges_inv.push(c_inv),
                    },
                    nproofs,
                );
            }
        }
    }
}

/// The scalars in the opposite order.
pub fn reversed(v: &Vec<Scalar>) -> (r: Vec<Scalar>)
    ensures
        fr_values(r@) == fr_values(v@).reverse(),
{
    let n = v.len();
    let mut r: Vec<Scalar> = Vec::with_capacity(n);
    let mut i: usize = 0;
    while i < n
        invariant
            i <= n,
            n == v.len(),
            r.len() == i,
            forall|j: int| 0 <= j < i ==> r@[j] == v@[n - 1 - j],
        decreases n - i,
    {
        r.push(v[n - 1 - i]);
        i += 1;
    }
    assert(fr_values(r@) =~= fr_values(v@).reverse());
    r
}

/// The state of the transcript after it has absorbed what the challenge of
/// the openings depends on: the challenge of the last round and the two
/// final commitment keys.
pub open spec fn opening_absorbed<T: LocalTranscript>(
    st: Seq<u8>,
    last_challenge: nat,
    final_vkey: (G2, G2),
    final_wkey: (G1, G1),
) -> Seq<u8> {
    let st0 = T::after_append(st, crate::transcript::fr_serialized(last_challenge));
    let st1 = T::after_append(st0, final_vkey.0.canonical_bytes());
    let st2 = T::after_append(st1, final_vkey.1.canonical_bytes());
    let st3 = T::after_append(st2, final_wkey.0.canonical_bytes());
    T::after_append(st3, final_wkey.1.canonical_bytes())
}

/// The inner-product argument followed by the openings of the two final
/// commitment keys, and the state it leaves the transcript in.
pub open spec fn tipp_mipp_spec<T: LocalTranscript>(
    srs: ProverSRSView,
    st: Seq<u8>,
    a: Seq<G1>,
    b: Seq<G2>,
    c: Seq<G1>,
    wkey: KeyView<G1>,
    r_vec: Seq<nat>,
    ip_ab: Fq12,
    agg_c: G1,
) -> Result<(TippMippProofView, Seq<u8>), ErrorKind> {
    match gipa_spec::<T>(st, Working { a, b, c, r: r_vec, v: srs.vkey, w: wkey }, ip_ab, agg_c) {
        Err(e) => Err(e),
        Ok(o) => {
            let challenges = o.challenges.reverse();
            let challenges_inv = o.challenges_inv.reverse();
            let r_inverse = fr_inverse_spec(r_vec[1]);
            let absorbed = opening_absorbed::<T>(
                o.st,
                challenges[0],
                o.proof.final_vkey,
                o.proof.final_wkey,
            );
            let z = T::challenge_of(absorbed);
            match commitment_v_spec(
                srs.h_alpha_powers_table,
                srs.h_beta_powers_table,
                challenges_inv,
                z,
            ) {
                Err(e) => Err(e),
                Ok(vkey_opening) => match commitment_w_spec(
                    srs.g_alpha_powers_table,
                    srs.g_beta_powers_table,
                    challenges,
                    r_inverse,
                    z,
                ) {
                    Err(e) => Err(e),
                    Ok(wkey_opening) => Ok(
                        (
                            TippMippProofView { gipa: o.proof, vkey_opening, wkey_opening },
                            T::after_challenge(absorbed),
                        ),
                    ),
                },
            }
        },
    }
}

/// The state in which the inner-product argument and the openings leave the
/// transcript, whether they go through or not: that of the argument where it
/// fails, else the state after the challenge of the openings.
pub open spec fn tipp_mipp_state_spec<T: LocalTranscript>(
    st: Seq<u8>,
    work: Working,
    ip_ab: Fq12,
    agg_c: G1,
) -> Seq<u8> {
    match gipa_spec::<T>(st, work, ip_ab, agg_c) {
        Err(_) => gipa_state_spec::<T>(st, work, ip_ab, agg_c),
        Ok(o) => T::after_challenge(
            opening_absorbed::<T>(
                o.st,
                o.challenges.reverse()[0],
                o.proof.final_vkey,
                o.proof.final_wkey,
            ),
        ),
    }
}

/// Proves the pairing product of `a` and `b` and the multi-scalar product of
/// `c` and `r_vec` with one recursion, and opens the two final commitment
/// keys. For the aggregation of proofs, `b` holds the points rescaled by the
/// powers in `r_vec`, and `wkey` is the key scaled by their inverses.
pub fn prove_tipp_mipp<T: LocalTranscript>(
    srs: &ProverSRS,
    transcript: &mut T,
    a: &[G1],
    b: &[G2],
    c: &[G1],
    wkey: &WKey,
    r_vec: &[Scalar],
    ip_ab: &Fq12,
    agg_c: &G1,
) -> (res: Result<TippMippProof, Error>)
    requires
        2 <= a.len() <= u32::MAX,
        (Working { a: a@, b: b@, c: c@, r: fr_values(r_vec@), v: srs.vkey@, w: wkey@ }).aligned(),
        r_vec@[1]@ != 0,
    ensures
        match tipp_mipp_spec::<T>(
            srs@,
            old(transcript).state(),
            a@,
            b@,
            c@,
            wkey@,
            fr_values(r_vec@),
            *ip_ab,
            *agg_c,
        ) {
            Ok((proof, st)) => res is Ok && res->Ok_0@ == proof && final(transcript).state() == st,
            Err(k) => res is Err && res->Err_0.kind() == k,
        },
        final(transcript).state() == tipp_mipp_state_spec::<T>(
            old(transcript).state(),
            Working { a: a@, b: b@, c: c@, r: fr_values(r_vec@), v: srs.vkey@, w: wkey@ },
            *ip_ab,
            *agg_c,
        ),
{
    let r_shift = r_vec[1];
    let ghost work = Working {
        a: a@,
        b: b@,
        c: c@,
        r: fr_values(r_vec@),
        v: srs.vkey@,
        w: wkey@,
    };
    let (proof, challenges, challenges_inv) = gipa_tipp_mipp(
        transcript,
        a,
        b,
        c,
        &srs.vkey,
        wkey,
        r_vec,
        ip_ab,
        agg_c,
    )?;
    proof {
        let st0 = T::after_append(old(transcript).state(), ip_ab.canonical_bytes());
        let st1 = T::after_append(st0, agg_c.canonical_bytes());
        lemma_gipa_rounds_challenges::<T>(
            GipaRun {
                st: T::after_challenge(st1),
                work,
                c_inv: T::challenge_of(st1),
                round: 0,
                comms_ab: Seq::empty(),
                comms_c: Seq::empty(),
                z_ab: Seq::empty(),
                z_c: Seq::empty(),
                challenges: Seq::empty(),
                challenges_inv: Seq::empty(),
            },
            work.a.len() as u32,
        );
    }
    let challenges = reversed(&challenges);
    let challenges_inv = reversed(&challenges_inv);
    let r_inverse = match r_shift.inverse() {
        Some(x) => x,
        None => unreached(),
    };

    transcript.append(&challenges[0]);
    transcript.append(&proof.final_vkey.0);
    transcript.append(&proof.final_vkey.1);
    transcript.append(&proof.final_wkey.0);
    transcript.append(&proof.final_wkey.1);
    let z = transcript.challenge_scalar();

    let vkey_opening = prove_commitment_v(
        srs.h_alpha_powers_table.as_slice(),
        srs.h_beta_powers_table.as_slice(),
        challenges_inv.as_slice(),
        &z,
    );
    let wkey_opening = prove_commitment_w(
        srs.g_alpha_powers_table.as_slice(),
        srs.g_beta_powers_table.as_slice(),
        challenges.as_slice(),
        &r_inverse,
        &z,
    );
    Ok(TippMippProof { gipa: proof, vkey_opening: vkey_opening?, wkey_opening: wkey_opening? })
}

/// The points `a` of the proofs, in their order.
pub open spec fn proofs_a(proofs: Seq<Proof>) -> Seq<G1> {
    Seq::new(proofs.len(), |i: int| proofs[i].a)
}

/// The points `b` of the proofs, in their order.
pub open spec fn proofs_b(proofs: Seq<Proof>) -> Seq<G2> {
    Seq::new(proofs.len(), |i: int| proofs[i].b)
}

/// The points `c` of the proofs, in their order.
pub open spec fn proofs_c(proofs: Seq<Proof>) -> Seq<G1> {
    Seq::new(proofs.len(), |i: int| proofs[i].c)
}

/// The inverses of the scalars, one by one.
pub open spec fn inverses_spec(s: Seq<nat>) -> Seq<nat> {
    Seq::new(s.len(), |i: int| fr_inverse_spec(s[i]))
}

/// The points, each times the scalar at its place.
pub open spec fn rescaled_spec(b: Seq<G2>, s: Seq<nat>) -> Seq<G2> {
    Seq::new(b.len(), |i: int| b[i].spec_mul(s[i]))
}

/// Whether that many proofs can be aggregated: at least two, a power of two,
/// and a number that the proof can record.
pub open spec fn aggregable(n: nat) -> bool {
    2 <= n <= u32::MAX && is_power_of_two_spec(n)
}

/// The aggregation of the proofs under the reference string `srs`, and the
/// state it leaves the transcript in.
pub open spec fn aggregate_spec<T: LocalTranscript>(
    srs: ProverSRSView,
    st: Seq<u8>,
    proofs: Seq<Proof>,
) -> Result<(AggregateProofView, Seq<u8>), ErrorKind> {
    if !aggregable(proofs.len()) {
        Err(ErrorKind::InvalidProof)
    } else if !srs.has_correct_len(proofs.len()) {
        Err(ErrorKind::InvalidSRS)
    } else {
        let (a, b, c) = (proofs_a(proofs), proofs_b(proofs), proofs_c(proofs));
        match pair_spec(srs.vkey, srs.wkey, a, b) {
            Err(e) => Err(e),
            Ok(com_ab) => match single_g1_spec(srs.vkey, c) {
                Err(e) => Err(e),
                Ok(com_c) => {
                    let st0 = T::after_append(st, com_ab.canonical_bytes());
                    let st1 = T::after_append(st0, com_c.canonical_bytes());
                    let r = T::challenge_of(st1);
                    let r_vec = structured_scalar_power_spec(proofs.len(), r);
                    let b_r = rescaled_spec(b, r_vec);
                    match pairing_spec(a, b_r) {
                        Err(e) => Err(e),
                        Ok(ip_ab) => match multiexponentiation_spec(c, r_vec) {
                            Err(e) => Err(e),
                            Ok(agg_c) => match tipp_mipp_spec::<T>(
                                srs,
                                T::after_challenge(st1),
                                a,
                                b_r,
                                c,
                                srs.wkey.scaled(inverses_spec(r_vec)),
                                r_vec,
                                ip_ab,
                                agg_c,
                            ) {
                                Err(e) => Err(e),
                                Ok((tmipp, st)) => Ok(
                                    (AggregateProofView { com_ab, com_c, ip_ab, agg_c, tmipp }, st),
                                ),
                            },
                        },
                    }
                },
            },
        }
    }
}

/// The state in which the aggregation leaves the transcript, whether it goes
/// through or not: the state it found where it refuses the proofs or the
/// reference string or cannot commit to the proofs; else the state after the
/// scalar that combines the proofs, or that in which the inner-product
/// argument and the openings leave it.
pub open spec fn aggregate_state_spec<T: LocalTranscript>(
    srs: ProverSRSView,
    st: Seq<u8>,
    proofs: Seq<Proof>,
) -> Seq<u8> {
    let (a, b, c) = (proofs_a(proofs), proofs_b(proofs), proofs_c(proofs));
    if !aggregable(proofs.len()) || !srs.has_correct_len(proofs.len()) {
        st
    } else if pair_spec(srs.vkey, srs.wkey, a, b) is Err || single_g1_spec(srs.vkey, c) is Err {
        st
    } else {
        let com_ab = pair_spec(srs.vkey, srs.wkey, a, b)->Ok_0;
        let com_c = single_g1_spec(srs.vkey, c)->Ok_0;
        let st0 = T::after_append(st, com_ab.canonical_bytes());
        let st1 = T::after_append(st0, com_c.canonical_bytes());
        let r_vec = structured_scalar_power_spec(proofs.len(), T::challenge_of(st1));
        let b_r = rescaled_spec(b, r_vec);
        if pairing_spec(a, b_r) is Err || multiexponentiation_spec(c, r_vec) is Err {
            T::after_challenge(st1)
        } else {
            tipp_mipp_state_spec::<T>(
                T::after_challenge(st1),
                Working {
                    a,
                    b: b_r,
                    c,
                    r: r_vec,
                    v: srs.vkey,
                    w: srs.wkey.scaled(inverses_spec(r_vec)),
                },
                pairing_spec(a, b_r)->Ok_0,
                multiexponentiation_spec(c, r_vec)->Ok_0,
            )
        }
    }
}

/// Whether `res` and the state `after` of the transcript are what the
/// aggregation of `proofs` under `srs` gives from the state `before`.
pub open spec fn aggregated<T: LocalTranscript>(
    res: Result<AggregateProof, Error>,
    after: Seq<u8>,
    srs: ProverSRSView,
    before: Seq<u8>,
    proofs: Seq<Proof>,
) -> bool {
    match aggregate_spec::<T>(srs, before, proofs) {
        Ok((proof, st)) => res is Ok && res->Ok_0@ == proof && after == st,
        Err(k) => res is Err && res->Err_0.kind() == k,
    }
}

/// An aggregation is refused as an invalid proof exactly where the number of
/// the proofs is not one that can be aggregated, and as an invalid reference
/// string wherever the number can be aggregated and the commitment keys are
/// not of that length.
pub proof fn lemma_aggregation_refusals<T: LocalTranscript>(
    srs: ProverSRSView,
    before: Seq<u8>,
    proofs: Seq<Proof>,
)
    ensures
        aggregate_spec::<T>(srs, before, proofs) == Err::<(AggregateProofView, Seq<u8>), _>(
            ErrorKind::InvalidProof,
        ) <==> !aggregable(proofs.len()),
        aggregable(proofs.len()) && !srs.has_correct_len(proofs.len()) ==> aggregate_spec::<T>(
            srs,
            before,
            proofs,
        ) == Err::<(AggregateProofView, Seq<u8>), _>(ErrorKind::InvalidSRS),
{
    if aggregable(proofs.len()) && srs.has_correct_len(proofs.len()) {
        let (a, b, c) = (proofs_a(proofs), proofs_b(proofs), proofs_c(proofs));
        if let Ok(com_ab) = pair_spec(srs.vkey, srs.wkey, a, b) {
            if let Ok(com_c) = single_g1_spec(srs.vkey, c) {
                let st0 = T::after_append(before, com_ab.canonical_bytes());
                let st1 = T::after_append(st0, com_c.canonical_bytes());
                let r = T::challenge_of(st1);
                let r_vec = structured_scalar_power_spec(proofs.len(), r);
                let b_r = rescaled_spec(b, r_vec);
                if let Ok(ip_ab) = pairing_spec(a, b_r) {
                    if let Ok(agg_c) = multiexponentiation_spec(c, r_vec) {
                        let work = Working {
                            a,
                            b: b_r,
                            c,
                            r: r_vec,
                            v: srs.vkey,
                            w: srs.wkey.scaled(inverses_spec(r_vec)),
                        };
                        let first = T::after_append(
                            T::after_challenge(st1),
                            ip_ab.canonical_bytes(),
                        );
                        let second = T::after_append(first, agg_c.canonical_bytes());
                        lemma_gipa_rounds_errors::<T>(
                            GipaRun {
                                st: T::after_challenge(second),
                                work,
                                c_inv: T::challenge_of(second),
                                round: 0,
                                comms_ab: Seq::empty(),
                                comms_c: Seq::empty(),
                                z_ab: Seq::empty(),
                                z_c: Seq::empty(),
                                challenges: Seq::empty(),
                                challenges_inv: Seq::empty(),
                            },
                            work.a.len() as u32,
                        );
                    }
                }
            }
        }
    }
}

/// Every proof that an aggregation gives has the shape that the verifier
/// asks for: it records the number of the proofs, and one entry in each of
/// its vectors for each round.
pub proof fn lemma_aggregation_is_well_shaped<T: LocalTranscript>(
    srs: ProverSRSView,
    before: Seq<u8>,
    proofs: Seq<Proof>,
)
    ensures
        aggregate_spec::<T>(srs, before, proofs) matches Ok((p, _)) ==> p.well_shaped()
            && p.tmipp.gipa.nproofs == proofs.len(),
{
    if aggregable(proofs.len()) && srs.has_correct_len(proofs.len()) {
        let (a, b, c) = (proofs_a(proofs), proofs_b(proofs), proofs_c(proofs));
        if let Ok(com_ab) = pair_spec(srs.vkey, srs.wkey, a, b) {
            if let Ok(com_c) = single_g1_spec(srs.vkey, c) {
                let st0 = T::after_append(before, com_ab.canonical_bytes());
                let st1 = T::after_append(st0, com_c.canonical_bytes());
                let r = T::challenge_of(st1);
                let r_vec = structured_scalar_power_spec(proofs.len(), r);
                let b_r = rescaled_spec(b, r_vec);
                if let Ok(ip_ab) = pairing_spec(a, b_r) {
                    if let Ok(agg_c) = multiexponentiation_spec(c, r_vec) {
                        let work = Working {
                            a,
                            b: b_r,
                            c,
                            r: r_vec,
                            v: srs.vkey,
                            w: srs.wkey.scaled(inverses_spec(r_vec)),
                        };
                        let first = T::after_append(
                            T::after_challenge(st1),
                            ip_ab.canonical_bytes(),
                        );
                        let second = T::after_append(first, agg_c.canonical_bytes());
                        lemma_gipa_rounds_shape::<T>(
                            GipaRun {
                                st: T::after_challenge(second),
                                work,
                                c_inv: T::challenge_of(second),
                                round: 0,
                                comms_ab: Seq::empty(),
                                comms_c: Seq::empty(),
                                z_ab: Seq::empty(),
                                z_c: Seq::empty(),
                                challenges: Seq::empty(),
                                challenges_inv: Seq::empty(),
                            },
                            work.a.len() as u32,
                        );
                    }
                }
            }
        }
    }
}

/// Two aggregations of the same proofs under the same reference string, from
/// transcripts in the same state, give the same proof and leave the
/// transcripts in the same state, or fail with errors of the same kind.
pub proof fn lemma_aggregation_is_deterministic<T: LocalTranscript>(
    srs: ProverSRSView,
    before: Seq<u8>,
    proofs: Seq<Proof>,
    first: Result<AggregateProof, Error>,
    first_after: Seq<u8>,
    second: Result<AggregateProof, Error>,
    second_after: Seq<u8>,
)
    requires
        aggregated::<T>(first, first_after, srs, before, proofs),
        aggregated::<T>(second, second_after, srs, before, proofs),
    ensures
        first is Ok <==> second is Ok,
        first is Ok ==> first->Ok_0@ == second->Ok_0@ && first_after == second_after,
        first is Err ==> first->Err_0.kind() == second->Err_0.kind(),
{
}

/// The inverses of the powers `1, r, r^2, ...` of a scalar that is not zero.
pub fn invert_powers(r_vec: &Vec<Scalar>, r: &Scalar) -> (r_inv: Vec<Scalar>)
    requires
        r@ != 0,
        fr_values(r_vec@) == structured_scalar_power_spec(r_vec.len() as nat, r@),
    ensures
        fr_values(r_inv@) == inverses_spec(fr_values(r_vec@)),
{
    let n = r_vec.len();
    let mut r_inv: Vec<Scalar> = Vec::with_capacity(n);
    let r_inverse = match r.inverse() {
        Some(x) => x,
        None => unreached(),
    };
    let mut i: usize = 0;
    while i < n
        invariant
            i <= n,
            n == r_vec.len(),
            fr_is_inverse(r@, r_inverse@),
            fr_values(r_vec@) == structured_scalar_power_spec(n as nat, r@),
            r_inv.len() == i,
            forall|j: int| 0 <= j < i ==> r_inv@[j]@ == fr_inverse_spec(r_vec@[j]@),
        decreases n - i,
    {
        proof {
            lemma_fr_pow_inverse(r@, r_inverse@, i as nat);
            assert(fr_values(r_vec@)[i as int] == fr_pow_spec(r@, i as nat));
        }
        let x = match r_vec[i].inverse() {
            Some(x) => x,
            None => unreached(),
        };
        r_inv.push(x);
        i += 1;
    }
    assert(fr_values(r_inv@) =~= inverses_spec(fr_values(r_vec@)));
    r_inv
}

/// Aggregates the proofs into one proof. There must be at least two of them
/// and a power of two, and the reference string must be the one for their
/// number; where either is not so, the transcript is left as it was, and
/// where the aggregation fails later, as it was when it failed. What the
/// application wants the challenges to depend on beyond the proofs, such as
/// their public inputs, it absorbs in the transcript before.
pub fn aggregate_proofs<T: LocalTranscript>(
    srs: &ProverSRS,
    transcript: &mut T,
    proofs: &[Proof],
) -> (res: Result<AggregateProof, Error>)
    ensures
        aggregated::<T>(
            res,
            final(transcript).state(),
            srs@,
            old(transcript).state(),
            proofs@,
        ),
        (res matches Err(e) && e.kind() == ErrorKind::InvalidProof) <==> !aggregable(
            proofs.len() as nat,
        ),
        aggregable(proofs.len() as nat) && !srs@.has_correct_len(proofs.len() as nat) ==> (
        res matches Err(e) && e.kind() == ErrorKind::InvalidSRS),
        proofs.len() < 2 ==> (res matches Err(Error::InvalidProof(m)) && m@
            == "invalid proof size < 2"@),
        proofs.len() >= 2 && !is_power_of_two_spec(proofs.len() as nat) ==> (
        res matches Err(Error::InvalidProof(m)) && m@ == "invalid proof size: not power of two"@),
        aggregable(proofs.len() as nat) && !srs@.has_correct_len(proofs.len() as nat) ==> (
        res matches Err(Error::InvalidSRS(m)) && m@ == "SRS len != proofs len"@),
        !aggregable(proofs.len() as nat) || !srs@.has_correct_len(proofs.len() as nat)
            ==> final(transcript).state() == old(transcript).state(),
        res matches Ok(p) ==> p@.well_shaped() && p@.tmipp.gipa.nproofs == proofs.len(),
        final(transcript).state() == aggregate_state_spec::<T>(
            srs@,
            old(transcript).state(),
            proofs@,
        ),
{
    proof {
        lemma_aggregation_refusals::<T>(srs@, old(transcript).state(), proofs@);
        lemma_aggregation_is_well_shaped::<T>(srs@, old(transcript).state(), proofs@);
    }
    if proofs.len() < 2 {
        return Err(Error::InvalidProof("invalid proof size < 2".to_string()));
    }
    if !is_power_of_two(proofs.len()) {
        return Err(Error::InvalidProof("invalid proof size: not power of two".to_string()));
    }
    if proofs.len() > u32::MAX as usize {
        return Err(Error::InvalidProof("invalid proof size: too many proofs".to_string()));
    }
    if !srs.has_correct_len(proofs.len()) {
        return Err(Error::InvalidSRS("SRS len != proofs len".to_string()));
    }
    let n = proofs.len();
    let mut a: Vec<G1> = Vec::with_capacity(n);
    let mut b: Vec<G2> = Vec::with_capacity(n);
    let mut c: Vec<G1> = Vec::with_capacity(n);
    let mut i: usize = 0;
    while i < n
        invariant
            i <= n,
            n == proofs.len(),
            a.len() == i,
            b.len() == i,
            c.len() == i,
            forall|j: int| 0 <= j < i ==> a@[j] == proofs@[j].a,
            forall|j: int| 0 <= j < i ==> b@[j] == proofs@[j].b,
            forall|j: int| 0 <= j < i ==> c@[j] == proofs@[j].c,
        decreases n - i,
    {
        a.push(proofs[i].a);
        b.push(proofs[i].b);
        c.push(proofs[i].c);
        i += 1;
    }
    proof {
        assert(a@ =~= proofs_a(proofs@));
        assert(b@ =~= proofs_b(proofs@));
        assert(c@ =~= proofs_c(proofs@));
    }

    let com_ab = pair(&srs.vkey, &srs.wkey, a.as_slice(), b.as_slice())?;
    let com_c = single_g1(&srs.vkey, c.as_slice())?;

    transcript.append(&com_ab);
    transcript.append(&com_c);
    let r = transcript.challenge_scalar();

    let r_vec = structured_scalar_power(n, &r);
    proof {
        assert(fr_values(r_vec@).len() == n);
    }
    let r_inv = invert_powers(&r_vec, &r);

    let mut b_r: Vec<G2> = Vec::with_capacity(n);
    let mut k: usize = 0;
    while k < n
        invariant
            k <= n,
            n == b.len(),
            n == r_vec.len(),
            b_r.len() == k,
            forall|j: int| 0 <= j < k ==> b_r@[j] == b@[j].spec_mul(r_vec@[j]@),
        decreases n - k,
    {
        b_r.push(b[k].mul(&r_vec[k]));
        k += 1;
    }
    proof {
        assert(b_r@ =~= rescaled_spec(b@, fr_values(r_vec@)));
        let powers = fr_values(r_vec@);
        assert(powers[1] == fr_pow_spec(r@, 1));
        assert(fr_pow_spec(r@, 0) == 1);
        assert(r@ * 1 == r@);
        use_type_invariant(&r);
    }

    let ip_ab = pairing(a.as_slice(), b_r.as_slice())?;
    let agg_c = multiexponentiation(c.as_slice(), r_vec.as_slice())?;
    let wkey_r_inv = srs.wkey.scale(r_inv.as_slice())?;

    let proof = prove_tipp_mipp(
        srs,
        transcript,
        a.as_slice(),
        b_r.as_slice(),
        c.as_slice(),
        &wkey_r_inv,
        r_vec.as_slice(),
        &ip_ab,
        &agg_c,
    )?;
    Ok(AggregateProof { com_ab, com_c, ip_ab, agg_c, tmipp: proof })
}

} // verus!
