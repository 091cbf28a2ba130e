//! The verifier: it checks one aggregate proof against the public inputs of
//! all the proofs that were aggregated.
//!
//! It draws the challenges again as the prover drew them, folds what each
//! round of the proof committed to down to single values, and states every
//! equation that must hold of them as a pairing check. The checks are raised
//! to random scalars and merged, so that one final exponentiation decides.

use crate::curve::{
    fq12_power, fq12_product, g1_msm_value, g1_negated, g1_scaled, g1_sum, g2_negated, g2_scaled,
    g2_sum, miller_loop, miller_value, CurvePoint, Fq12, G1, G2,
};
use crate::errors::{Error, ErrorKind};
use crate::field::{
    fr_add_spec, fr_inverse_spec, fr_mul_spec, fr_pow_spec, fr_values, Scalar,
};
use crate::pairing_check::{rand_fr, PairingCheck, PairingCheckView};
use crate::polynomial::{
    polynomial_evaluation_product_form_from_transcript, product_form_spec,
};
use crate::commitment::{pair_spec, single_g1_spec};
use crate::ip::{multiexponentiation_spec, pairing_spec};
use crate::proofs::{rounds_spec, AggregateProof, AggregateProofView, GipaProofView, Proof};
use crate::prover::{
    aggregable, aggregate_spec, gipa_rounds, inverses_spec, lemma_aggregation_is_well_shaped,
    opening_absorbed, proofs_a, proofs_b, proofs_c, rescaled_spec, reversed, round_absorbed,
    CrossTerms, GipaRun, Working,
};
use crate::srs::ProverSRSView;
use crate::snarkjs_proof::{PreparedVerifyingKey, VerifyingKey};
use crate::srs::VerifierSRS;
use crate::structured_scalar_power;
use crate::structured_scalar_power_spec;
use crate::transcript::{fr_rows_values, CanonicalBytes, LocalTranscript};
use ark_std::rand::rngs::StdRng;
use vstd::pervasive::unreached;
use vstd::prelude::*;

verus! {

/// How many random scalars one verification uses: one for each of its
/// randomised checks.
pub const RANDOM_COEFFICIENTS: usize = 9;

/// What the commitments and inner products of the proof fold down to.
pub ghost struct GipaTUZ {
    pub tab: Fq12,
    pub uab: Fq12,
    pub zab: Fq12,
    pub tc: Fq12,
    pub uc: Fq12,
    pub zc: G1,
}

/// `acc` times `left` raised to `c` times `right` raised to `c_inv`.
pub open spec fn folded_gt(acc: Fq12, left: Fq12, right: Fq12, c: nat, c_inv: nat) -> Fq12 {
    fq12_product(fq12_product(acc, fq12_power(left, c)), fq12_power(right, c_inv))
}

impl GipaTUZ {
    /// The values after one more round: each is multiplied by the round's
    /// left cross term raised to the challenge and by its right cross term
    /// raised to the challenge's inverse.
    pub open spec fn folded(self, t: CrossTerms, c: nat, c_inv: nat) -> GipaTUZ {
        GipaTUZ {
            tab: folded_gt(self.tab, t.tab_l.0, t.tab_r.0, c, c_inv),
            uab: folded_gt(self.uab, t.tab_l.1, t.tab_r.1, c, c_inv),
            zab: folded_gt(self.zab, t.zab_l, t.zab_r, c, c_inv),
            tc: folded_gt(self.tc, t.tuc_l.0, t.tuc_r.0, c, c_inv),
            uc: folded_gt(self.uc, t.tuc_l.1, t.tuc_r.1, c, c_inv),
            zc: g1_sum(g1_sum(self.zc, g1_scaled(t.zc_l, c)), g1_scaled(t.zc_r, c_inv)),
        }
    }
}

/// What round `i` of the proof committed to.
pub open spec fn proof_terms(gipa: GipaProofView, i: int) -> CrossTerms {
    CrossTerms {
        tab_l: gipa.comms_ab[i].0,
        tab_r: gipa.comms_ab[i].1,
        zab_l: gipa.z_ab[i].0,
        zab_r: gipa.z_ab[i].1,
        zc_l: gipa.z_c[i].0,
        zc_r: gipa.z_c[i].1,
        tuc_l: gipa.comms_c[i].0,
        tuc_r: gipa.comms_c[i].1,
    }
}

/// The replay of the rounds so far: the transcript, the last challenge drawn,
/// the challenges and their inverses in the order of the rounds, and the
/// folded values.
pub ghost struct Replay {
    pub st: Seq<u8>,
    pub c_inv: nat,
    pub challenges: Seq<nat>,
    pub challenges_inv: Seq<nat>,
    pub tuz: GipaTUZ,
}

/// The replay of the rounds from `i` on. The first round uses the challenge
/// drawn before it; each later round absorbs the previous challenge and what
/// the proof says the round committed to, and draws its own.
pub open spec fn replay_rounds<T: LocalTranscript>(gipa: GipaProofView, i: nat, acc: Replay) -> Replay
    decreases gipa.comms_ab.len() - i,
{
    if i >= gipa.comms_ab.len() {
        acc
    } else {
        let t = proof_terms(gipa, i as int);
        let absorbed = round_absorbed::<T>(acc.st, acc.c_inv, t);
        let st = if i == 0 {
            acc.st
        } else {
            T::after_challenge(absorbed)
        };
        let c_inv = if i == 0 {
            acc.c_inv
        } else {
            T::challenge_of(absorbed)
        };
        let c = fr_inverse_spec(c_inv);
        replay_rounds::<T>(
            gipa,
            i + 1,
            Replay {
                st,
                c_inv,
                challenges: acc.challenges.push(c),
                challenges_inv: acc.challenges_inv.push(c_inv),
                tuz: acc.tuz.folded(t, c, c_inv),
            },
        )
    }
}

/// The whole replay of the argument: it absorbs the two inner products of
/// the proof, draws the first challenge and replays the rounds, starting
/// from the commitments and inner products that the proof claims.
pub open spec fn replay_spec<T: LocalTranscript>(st: Seq<u8>, proof: AggregateProofView) -> Replay {
    let st0 = T::after_append(st, proof.ip_ab.canonical_bytes());
    let st1 = T::after_append(st0, proof.agg_c.canonical_bytes());
    replay_rounds::<T>(
        proof.tmipp.gipa,
        0,
        Replay {
            st: T::after_challenge(st1),
            c_inv: T::challenge_of(st1),
            challenges: Seq::empty(),
            challenges_inv: Seq::empty(),
            tuz: GipaTUZ {
                tab: proof.com_ab.0,
                uab: proof.com_ab.1,
                zab: proof.ip_ab,
                tc: proof.com_c.0,
                uc: proof.com_c.1,
                zc: proof.agg_c,
            },
        },
    )
}

/// The check of one opening of the key `v`: `e(-g, cf - y h) e(vk - x g, pi)
/// = 1`, raised to `coeff`.
pub open spec fn kzg_check_v_spec(
    srs: VerifierSRS,
    coeff: nat,
    x: nat,
    y: nat,
    cf: G2,
    vk: G1,
    pi: G2,
) -> PairingCheckView {
    let b = g2_sum(cf, g2_negated(g2_scaled(srs.h, y)));
    let c = g1_sum(vk, g1_negated(g1_scaled(srs.g, x)));
    PairingCheckView::rand(coeff, seq![(g1_negated(srs.g), b), (c, pi)], Fq12::spec_one())
}

/// The check of one opening of the key `w`: `e(cf - y g, -h) e(pi, wk - x h)
/// = 1`, raised to `coeff`.
pub open spec fn kzg_check_w_spec(
    srs: VerifierSRS,
    coeff: nat,
    x: nat,
    y: nat,
    cf: G1,
    wk: G2,
    pi: G1,
) -> PairingCheckView {
    let a = g1_sum(cf, g1_negated(g1_scaled(srs.g, y)));
    let d = g2_sum(wk, g2_negated(g2_scaled(srs.h, x)));
    PairingCheckView::rand(coeff, seq![(a, g2_negated(srs.h)), (pi, d)], Fq12::spec_one())
}

/// The randomised checks of the inner-product argument and of the openings,
/// merged, and the state that drawing their challenge leaves the transcript
/// in. `coeffs` holds the nine random scalars, `r` the scalar by which the
/// proofs were combined.
pub open spec fn tipp_mipp_checks_spec<T: LocalTranscript>(
    srs: VerifierSRS,
    proof: AggregateProofView,
    r: nat,
    st: Seq<u8>,
    coeffs: Seq<nat>,
) -> (PairingCheckView, Seq<u8>) {
    let gipa = proof.tmipp.gipa;
    let replay = replay_spec::<T>(st, proof);
    let challenges = replay.challenges.reverse();
    let challenges_inv = replay.challenges_inv.reverse();
    let final_r = product_form_spec(challenges_inv, r, 1);
    let absorbed = opening_absorbed::<T>(
        replay.st,
        challenges[0],
        gipa.final_vkey,
        gipa.final_wkey,
    );
    let z = T::challenge_of(absorbed);
    let r_inverse = fr_inverse_spec(r);
    let fv = product_form_spec(challenges_inv, z, 1);
    let fw = fr_mul_spec(
        product_form_spec(challenges, z, r_inverse),
        fr_pow_spec(z, (srs.n as u64) as nat),
    );
    let v1 = kzg_check_v_spec(
        srs,
        coeffs[0],
        z,
        fv,
        gipa.final_vkey.0,
        srs.g_alpha,
        proof.tmipp.vkey_opening.0,
    );
    let v2 = kzg_check_v_spec(
        srs,
        coeffs[1],
        z,
        fv,
        gipa.final_vkey.1,
        srs.g_beta,
        proof.tmipp.vkey_opening.1,
    );
    let w1 = kzg_check_w_spec(
        srs,
        coeffs[2],
        z,
        fw,
        gipa.final_wkey.0,
        srs.h_alpha,
        proof.tmipp.wkey_opening.0,
    );
    let w2 = kzg_check_w_spec(
        srs,
        coeffs[3],
        z,
        fw,
        gipa.final_wkey.1,
        srs.h_beta,
        proof.tmipp.wkey_opening.1,
    );
    let check_z = PairingCheckView::rand(
        coeffs[4],
        seq![(gipa.final_a, gipa.final_b)],
        replay.tuz.zab,
    );
    let check_ab = PairingCheckView::rand(
        coeffs[5],
        seq![(gipa.final_a, gipa.final_vkey.0), (gipa.final_wkey.0, gipa.final_b)],
        replay.tuz.tab,
    );
    let check_ab2 = PairingCheckView::rand(
        coeffs[6],
        seq![(gipa.final_a, gipa.final_vkey.1), (gipa.final_wkey.1, gipa.final_b)],
        replay.tuz.uab,
    );
    let check_c = PairingCheckView::rand(
        coeffs[7],
        seq![(gipa.final_c, gipa.final_vkey.0)],
        replay.tuz.tc,
    );
    let check_c2 = PairingCheckView::rand(
        coeffs[8],
        seq![(gipa.final_c, gipa.final_vkey.1)],
        replay.tuz.uc,
    );
    let final_z = g1_msm_value(seq![gipa.final_c], seq![final_r]);
    let merged = PairingCheckView::new().merge(v1).merge(v2).merge(w1).merge(w2).merge(
        check_z,
    ).merge(check_ab).merge(check_ab2);
    let with_z = if final_z == replay.tuz.zc {
        merged
    } else {
        merged.merge(PairingCheckView::new_invalid())
    };
    (with_z.merge(check_c).merge(check_c2), T::after_challenge(absorbed))
}

/// The sum of the scalars, taken from the left, starting from zero.
pub open spec fn sum_spec(s: Seq<nat>) -> nat
    decreases s.len(),
{
    if s.len() == 0 {
        0
    } else {
        fr_add_spec(sum_spec(s.drop_last()), s.last())
    }
}

/// The public input at place `i` of the first `rows` proofs, each times its
/// proof's power of the combining scalar, summed.
pub open spec fn column_sum_spec(inputs: Seq<Seq<nat>>, powers: Seq<nat>, i: int, rows: nat) -> nat
    decreases rows,
{
    if rows <= 1 {
        inputs[0][i]
    } else {
        fr_add_spec(
            column_sum_spec(inputs, powers, i, (rows - 1) as nat),
            fr_mul_spec(inputs[rows - 1][i], powers[rows - 1]),
        )
    }
}

/// The check of the aggregated Groth16 equation, not randomised:
/// `e(r_sum alpha, beta) e(IC, gamma) e(agg_c, delta) = ip_ab`, where `r_sum`
/// is the sum of the powers of `r` and `IC` combines the verifying key with
/// the public inputs.
pub open spec fn groth16_check_spec(
    vk: VerifyingKey,
    inputs: Seq<Seq<nat>>,
    proof: AggregateProofView,
    r: nat,
) -> PairingCheckView {
    let powers = structured_scalar_power_spec(inputs.len(), r);
    let r_sum = sum_spec(powers);
    let left = miller_value(seq![g1_scaled(vk.alpha_g1, r_sum)], seq![vk.beta_g2]);
    let right = miller_value(seq![proof.agg_c], seq![vk.delta_g2]);
    let summed = Seq::new(
        inputs[0].len(),
        |i: int| column_sum_spec(inputs, powers, i, inputs.len()),
    );
    let totsi = g1_msm_value(
        vk.gamma_abc_g1@.subrange(1, vk.gamma_abc_g1@.len() as int),
        summed,
    );
    let g_ic = g1_sum(g1_scaled(vk.gamma_abc_g1@[0], r_sum), totsi);
    let middle = miller_value(seq![g_ic], seq![vk.gamma_g2]);
    PairingCheckView::from_products(seq![left, middle, right], proof.ip_ab)
}

/// Whether each row of public inputs has one input for each point of the
/// verifying key but the first.
pub open spec fn inputs_fit(vk: VerifyingKey, inputs: Seq<Seq<nat>>) -> bool {
    forall|j: int| 0 <= j < inputs.len() ==> (#[trigger] inputs[j]).len() + 1 == vk.gamma_abc_g1@.len()
}

/// The state in which the verification of a proof leaves the transcript,
/// where it does not refuse the proof before replaying it: the state after
/// the two commitments, the scalar that combines the proofs, and the
/// challenges of the argument and of the openings.
pub open spec fn replayed_state<T: LocalTranscript>(
    srs: VerifierSRS,
    proof: AggregateProofView,
    coeffs: Seq<nat>,
    st: Seq<u8>,
) -> Seq<u8> {
    let st0 = T::after_append(st, proof.com_ab.canonical_bytes());
    let st1 = T::after_append(st0, proof.com_c.canonical_bytes());
    tipp_mipp_checks_spec::<T>(srs, proof, T::challenge_of(st1), T::after_challenge(st1), coeffs).1
}

/// The replay of a proof that the argument gave follows the argument from
/// any round on: what the rounds had recorded by then is where the proof
/// begins, and from the state and the challenge of that round the replay
/// draws the challenges that the argument drew and ends in its state.
pub proof fn lemma_replay_follows_rounds<T: LocalTranscript>(
    run: GipaRun,
    nproofs: u32,
    tuz: GipaTUZ,
)
    requires
        run.comms_ab.len() == run.round,
        run.comms_c.len() == run.round,
        run.z_ab.len() == run.round,
        run.z_c.len() == run.round,
    ensures
        gipa_rounds::<T>(run, nproofs) matches Ok(o) ==> {
            let replay = replay_rounds::<T>(
                o.proof,
                run.round,
                Replay {
                    st: run.st,
                    c_inv: run.c_inv,
                    challenges: run.challenges,
                    challenges_inv: run.challenges_inv,
                    tuz,
                },
            );
            let i = run.round as int;
            &&& o.proof.comms_ab.len() >= i && o.proof.comms_ab.subrange(0, i) == run.comms_ab
            &&& o.proof.comms_c.len() >= i && o.proof.comms_c.subrange(0, i) == run.comms_c
            &&& o.proof.z_ab.len() >= i && o.proof.z_ab.subrange(0, i) == run.z_ab
            &&& o.proof.z_c.len() >= i && o.proof.z_c.subrange(0, i) == run.z_c
            &&& replay.st == o.st
            &&& replay.challenges == o.challenges
            &&& replay.challenges_inv == o.challenges_inv
        },
    decreases run.work.a.len(),
{
    let i = run.round as int;
    if run.work.a.len() <= 1 {
        assert(run.comms_ab.subrange(0, i) =~= run.comms_ab);
        assert(run.comms_c.subrange(0, i) =~= run.comms_c);
        assert(run.z_ab.subrange(0, i) =~= run.z_ab);
        assert(run.z_c.subrange(0, i) =~= run.z_c);
    } else if let Ok(t) = run.work.cross_terms() {
        let absorbed = round_absorbed::<T>(run.st, run.c_inv, t);
        let st = if run.round == 0 {
            run.st
        } else {
            T::after_challenge(absorbed)
        };
        let c_inv = if run.round == 0 {
            run.c_inv
        } else {
            T::challenge_of(absorbed)
        };
        let c = fr_inverse_spec(c_inv);
        if let Ok(work) = run.work.folded(c, c_inv) {
            let next = GipaRun {
                st,
                work,
                c_inv,
                round: run.round + 1,
                comms_ab: run.comms_ab.push((t.tab_l, t.tab_r)),
                comms_c: run.comms_c.push((t.tuc_l, t.tuc_r)),
                z_ab: run.z_ab.push((t.zab_l, t.zab_r)),
                z_c: run.z_c.push((t.zc_l, t.zc_r)),
                challenges: run.challenges.push(c),
                challenges_inv: run.challenges_inv.push(c_inv),
            };
            assert(work.a.len() == run.work.a.len() / 2);
            lemma_replay_follows_rounds::<T>(next, nproofs, tuz.folded(t, c, c_inv));
            assert(gipa_rounds::<T>(run, nproofs) == gipa_rounds::<T>(next, nproofs));
            if let Ok(o) = gipa_rounds::<T>(next, nproofs) {
                let p = o.proof;
                assert(p.comms_ab.subrange(0, i + 1)[i] == p.comms_ab[i]);
                assert(p.comms_c.subrange(0, i + 1)[i] == p.comms_c[i]);
                assert(p.z_ab.subrange(0, i + 1)[i] == p.z_ab[i]);
                assert(p.z_c.subrange(0, i + 1)[i] == p.z_c[i]);
                assert(p.comms_ab.subrange(0, i) =~= p.comms_ab.subrange(0, i + 1).drop_last());
                assert(p.comms_c.subrange(0, i) =~= p.comms_c.subrange(0, i + 1).drop_last());
                assert(p.z_ab.subrange(0, i) =~= p.z_ab.subrange(0, i + 1).drop_last());
                assert(p.z_c.subrange(0, i) =~= p.z_c.subrange(0, i + 1).drop_last());
                assert(next.comms_ab.drop_last() =~= run.comms_ab);
                assert(next.comms_c.drop_last() =~= run.comms_c);
                assert(next.z_ab.drop_last() =~= run.z_ab);
                assert(next.z_c.drop_last() =~= run.z_c);
                assert(proof_terms(p, i) == t);
            }
        }
    }
}

/// A verifier that replays an aggregate from the state in which the prover
/// began draws every challenge as the prover drew it, and leaves its
/// transcript in the state in which the prover left its own.
pub proof fn lemma_replay_follows_aggregation<T: LocalTranscript>(
    prover_srs: ProverSRSView,
    verifier_srs: VerifierSRS,
    before: Seq<u8>,
    proofs: Seq<Proof>,
    coeffs: Seq<nat>,
)
    ensures
        aggregate_spec::<T>(prover_srs, before, proofs) matches Ok((p, after)) ==> replayed_state::<
            T,
        >(verifier_srs, p, coeffs, before) == after,
{
    let srs = prover_srs;
    if aggregable(proofs.len()) && srs.has_correct_len(proofs.len()) {
        let (a, b, c) = (proofs_a(proofs), proofs_b(proofs), proofs_c(proofs));
        if let Ok(com_ab) = pair_spec(srs.vkey, srs.wkey, a, b) {
            if let Ok(com_c) = single_g1_spec(srs.vkey, c) {
                let st0 = T::after_append(before, com_ab.canonical_bytes());
                let st1 = T::after_append(st0, com_c.canonical_bytes());
                let r = T::challenge_of(st1);
                let r_vec = structured_scalar_power_spec(proofs.len(), r);
                let b_r = rescaled_spec(b, r_vec);
                if let Ok(ip_ab) = pairing_spec(a, b_r) {
                    if let Ok(agg_c) = multiexponentiation_spec(c, r_vec) {
                        let work = Working {
                            a,
                            b: b_r,
                            c,
                            r: r_vec,
                            v: srs.vkey,
                            w: srs.wkey.scaled(inverses_spec(r_vec)),
                        };
                        let first = T::after_append(
                            T::after_challenge(st1),
                            ip_ab.canonical_bytes(),
                        );
                        let second = T::after_append(first, agg_c.canonical_bytes());
                        lemma_replay_follows_rounds::<T>(
                            GipaRun {
                                st: T::after_challenge(second),
                                work,
                                c_inv: T::challenge_of(second),
                                round: 0,
                                comms_ab: Seq::empty(),
                                comms_c: Seq::empty(),
                                z_ab: Seq::empty(),
                                z_c: Seq::empty(),
                                challenges: Seq::empty(),
                                challenges_inv: Seq::empty(),
                            },
                            work.a.len() as u32,
                            GipaTUZ {
                                tab: com_ab.0,
                                uab: com_ab.1,
                                zab: ip_ab,
                                tc: com_c.0,
                                uc: com_c.1,
                                zc: agg_c,
                            },
                        );
                    }
                }
            }
        }
    }
}

/// The verification of the proof with the random scalars `coeffs`: the state
/// it leaves the transcript in where the proof is accepted, and the error
/// where it is not.
pub open spec fn verify_spec<T: LocalTranscript>(
    srs: VerifierSRS,
    vk: VerifyingKey,
    inputs: Seq<Seq<nat>>,
    proof: AggregateProofView,
    coeffs: Seq<nat>,
    st: Seq<u8>,
) -> Result<Seq<u8>, ErrorKind> {
    if !proof.well_shaped() {
        Err(ErrorKind::InvalidProof)
    } else if !inputs_fit(vk, inputs) {
        Err(ErrorKind::MalformedVerifyingKey)
    } else if inputs.len() != proof.tmipp.gipa.nproofs {
        Err(ErrorKind::InvalidProof)
    } else {
        let st0 = T::after_append(st, proof.com_ab.canonical_bytes());
        let st1 = T::after_append(st0, proof.com_c.canonical_bytes());
        let r = T::challenge_of(st1);
        let (checks, st2) = tipp_mipp_checks_spec::<T>(
            srs,
            proof,
            r,
            T::after_challenge(st1),
            coeffs,
        );
        if checks.merge(groth16_check_spec(vk, inputs, proof, r)).verify() {
            Ok(st2)
        } else {
            Err(ErrorKind::PairingCheckFailed)
        }
    }
}

/// The check of one opening of the key `v`.
pub fn kzg_check_v(
    v_srs: &VerifierSRS,
    coeff: &Scalar,
    x: &Scalar,
    y: &Scalar,
    cf: &G2,
    vk: &G1,
    pi: &G2,
) -> (r: PairingCheck)
    ensures
        r@ == kzg_check_v_spec(*v_srs, coeff@, x@, y@, *cf, *vk, *pi),
{
    let ng = v_srs.g.neg();
    let b = cf.sub(&v_srs.h.mul(y));
    let c = vk.sub(&v_srs.g.mul(x));
    let pairs: Vec<(G1, G2)> = vec![(ng, b), (c, *pi)];
    proof {
        assert(pairs@ =~= seq![(ng, b), (c, *pi)]);
    }
    PairingCheck::rand_with(coeff, pairs.as_slice(), &Fq12::one())
}

/// The check of one opening of the key `w`.
pub fn kzg_check_w(
    v_srs: &VerifierSRS,
    coeff: &Scalar,
    x: &Scalar,
    y: &Scalar,
    cf: &G1,
    wk: &G2,
    pi: &G1,
) -> (r: PairingCheck)
    ensures
        r@ == kzg_check_w_spec(*v_srs, coeff@, x@, y@, *cf, *wk, *pi),
{
    let nh = v_srs.h.neg();
    let a = cf.sub(&v_srs.g.mul(y));
    let d = wk.sub(&v_srs.h.mul(x));
    let pairs: Vec<(G1, G2)> = vec![(a, nh), (*pi, d)];
    proof {
        assert(pairs@ =~= seq![(a, nh), (*pi, d)]);
    }
    PairingCheck::rand_with(coeff, pairs.as_slice(), &Fq12::one())
}

/// What the commitments and inner products of the proof have folded down
/// to so far.
pub struct Folded {
    pub tab: Fq12,
    pub uab: Fq12,
    pub zab: Fq12,
    pub tc: Fq12,
    pub uc: Fq12,
    pub zc: G1,
}

impl View for Folded {
    type V = GipaTUZ;

    open spec fn view(&self) -> GipaTUZ {
        GipaTUZ {
            tab: self.tab,
            uab: self.uab,
            zab: self.zab,
            tc: self.tc,
            uc: self.uc,
            zc: self.zc,
        }
    }
}

/// `acc` times `left` raised to `c` times `right` raised to `c_inv`.
fn fold_gt(acc: &Fq12, left: &Fq12, right: &Fq12, c: &Scalar, c_inv: &Scalar) -> (r: Fq12)
    ensures
        r == folded_gt(*acc, *left, *right, c@, c_inv@),
{
    acc.mul(&left.pow(c)).mul(&right.pow(c_inv))
}

/// Replays the inner-product argument: it draws the challenges of the rounds
/// again and folds the commitments and inner products of the proof with
/// them. It returns the folded values, the scalar that the scalars fold down
/// to, and the challenges and their inverses, last round first.
pub fn gipa_verify_tipp_mipp<T: LocalTranscript>(
    transcript: &mut T,
    proof: &AggregateProof,
    r_shift: &Scalar,
) -> (res: (Folded, Scalar, Vec<Scalar>, Vec<Scalar>))
    requires
        proof@.well_shaped(),
    ensures
        ({
            let replay = replay_spec::<T>(old(transcript).state(), proof@);
            &&& final(transcript).state() == replay.st
            &&& res.0@ == replay.tuz
            &&& fr_values(res.2@) == replay.challenges.reverse()
            &&& fr_values(res.3@) == replay.challenges_inv.reverse()
            &&& res.1@ == product_form_spec(replay.challenges_inv.reverse(), r_shift@, 1)
            &&& res.2.len() >= 1
            &&& res.3.len() >= 1
        }),
{
    let gipa = &proof.tmipp.gipa;
    let mut challenges: Vec<Scalar> = Vec::new();
    let mut challenges_inv: Vec<Scalar> = Vec::new();

    transcript.append(&proof.ip_ab);
    transcript.append(&proof.agg_c);
    let mut c_inv = transcript.challenge_scalar();
    let mut folded = Folded {
        tab: proof.com_ab.0,
        uab: proof.com_ab.1,
        zab: proof.ip_ab,
        tc: proof.com_c.0,
        uc: proof.com_c.1,
        zc: proof.agg_c,
    };
    let ghost goal = replay_spec::<T>(old(transcript).state(), proof@);
    proof {
        assert(fr_values(challenges@) =~= Seq::<nat>::empty());
        assert(fr_values(challenges_inv@) =~= Seq::<nat>::empty());
        assert(rounds_spec(gipa.nproofs as nat) >= 1) by {
            reveal_with_fuel(rounds_spec, 2);
        }
    }
    let n = gipa.comms_ab.len();
    let mut i: usize = 0;
    while i < n
        invariant
            i <= n,
            n >= 1,
            n == gipa.comms_ab.len(),
            n == gipa.comms_c.len(),
            n == gipa.z_ab.len(),
            n == gipa.z_c.len(),
            gipa == &proof.tmipp.gipa,
            c_inv@ != 0,
            challenges.len() == i,
            challenges_inv.len() == i,
            goal == replay_rounds::<T>(
                gipa@,
                i as nat,
                Replay {
                    st: transcript.state(),
                    c_inv: c_inv@,
                    challenges: fr_values(challenges@),
                    challenges_inv: fr_values(challenges_inv@),
                    tuz: folded@,
                },
            ),
        decreases n - i,
    {
        let (tab_l, tab_r) = gipa.comms_ab[i];
        let (tuc_l, tuc_r) = gipa.comms_c[i];
        let (zab_l, zab_r) = gipa.z_ab[i];
        let (zc_l, zc_r) = gipa.z_c[i];
        if i > 0 {
            transcript.append(&c_inv);
            transcript.append(&zab_l);
            transcript.append(&zab_r);
            transcript.append(&zc_l);
            transcript.append(&zc_r);
            transcript.append(&tab_l);
            transcript.append(&tab_r);
            transcript.append(&tuc_l);
            transcript.append(&tuc_r);
            c_inv = transcript.challenge_scalar();
        }
        let c = match c_inv.inverse() {
            Some(c) => c,
            None => unreached(),
        };
        proof {
            assert(fr_values(challenges@).push(c@) =~= fr_values(challenges@.push(c)));
            assert(fr_values(challenges_inv@).push(c_inv@) =~= fr_values(
                challenges_inv@.push(c_inv),
            ));
        }
        challenges.push(c);
        challenges_inv.push(c_inv);
        folded = Folded {
            tab: fold_gt(&folded.tab, &tab_l.0, &tab_r.0, &c, &c_inv),
            uab: fold_gt(&folded.uab, &tab_l.1, &tab_r.1, &c, &c_inv),
            zab: fold_gt(&folded.zab, &zab_l, &zab_r, &c, &c_inv),
            tc: fold_gt(&folded.tc, &tuc_l.0, &tuc_r.0, &c, &c_inv),
            uc: fold_gt(&folded.uc, &tuc_l.1, &tuc_r.1, &c, &c_inv),
            zc: folded.zc.add(&zc_l.mul(&c)).add(&zc_r.mul(&c_inv)),
        };
        i += 1;
    }
    let challenges = reversed(&challenges);
    let challenges_inv = reversed(&challenges_inv);
    proof {
        assert(fr_values(challenges@).len() == n);
        assert(fr_values(challenges_inv@).len() == n);
    }
    let final_r = polynomial_evaluation_product_form_from_transcript(
        challenges_inv.as_slice(),
        r_shift,
        &Scalar::one(),
    );
    (folded, final_r, challenges, challenges_inv)
}

/// States the equations of the inner-product argument and of the openings as
/// randomised checks, and merges them. `coeffs` holds the random scalars, one
/// for each check; `r_shift` is the scalar by which the proofs were combined.
pub fn verify_tipp_mipp<T: LocalTranscript>(
    v_srs: &VerifierSRS,
    proof: &AggregateProof,
    r_shift: &Scalar,
    transcript: &mut T,
    coeffs: &[Scalar],
) -> (acc: PairingCheck)
    requires
        proof@.well_shaped(),
        r_shift@ != 0,
        coeffs.len() == RANDOM_COEFFICIENTS,
    ensures
        (acc@, final(transcript).state()) == tipp_mipp_checks_spec::<T>(
            *v_srs,
            proof@,
            r_shift@,
            old(transcript).state(),
            fr_values(coeffs@),
        ),
        acc@.non_randomized <= 2,
{
    let (final_res, final_r, challenges, challenges_inv) = gipa_verify_tipp_mipp(
        transcript,
        proof,
        r_shift,
    );
    let gipa = &proof.tmipp.gipa;
    let fvkey = gipa.final_vkey;
    let fwkey = gipa.final_wkey;

    transcript.append(&challenges[0]);
    transcript.append(&fvkey.0);
    transcript.append(&fvkey.1);
    transcript.append(&fwkey.0);
    transcript.append(&fwkey.1);
    let z = transcript.challenge_scalar();

    let r_inverse = match r_shift.inverse() {
        Some(x) => x,
        None => unreached(),
    };
    let one = Scalar::one();
    let fv = polynomial_evaluation_product_form_from_transcript(
        challenges_inv.as_slice(),
        &z,
        &one,
    );
    let fz = polynomial_evaluation_product_form_from_transcript(
        challenges.as_slice(),
        &z,
        &r_inverse,
    );
    let zn = z.pow(v_srs.n as u64);
    let fw = fz.mul(&zn);

    let mut acc = PairingCheck::new();
    acc.merge(
        &kzg_check_v(v_srs, &coeffs[0], &z, &fv, &fvkey.0, &v_srs.g_alpha, &proof.tmipp.vkey_opening.0),
    );
    acc.merge(
        &kzg_check_v(v_srs, &coeffs[1], &z, &fv, &fvkey.1, &v_srs.g_beta, &proof.tmipp.vkey_opening.1),
    );
    acc.merge(
        &kzg_check_w(v_srs, &coeffs[2], &z, &fw, &fwkey.0, &v_srs.h_alpha, &proof.tmipp.wkey_opening.0),
    );
    acc.merge(
        &kzg_check_w(v_srs, &coeffs[3], &z, &fw, &fwkey.1, &v_srs.h_beta, &proof.tmipp.wkey_opening.1),
    );

    let pairs_z: Vec<(G1, G2)> = vec![(gipa.final_a, gipa.final_b)];
    let pairs_ab: Vec<(G1, G2)> = vec![(gipa.final_a, fvkey.0), (fwkey.0, gipa.final_b)];
    let pairs_ab2: Vec<(G1, G2)> = vec![(gipa.final_a, fvkey.1), (fwkey.1, gipa.final_b)];
    let pairs_c: Vec<(G1, G2)> = vec![(gipa.final_c, fvkey.0)];
    let pairs_c2: Vec<(G1, G2)> = vec![(gipa.final_c, fvkey.1)];
    proof {
        assert(pairs_z@ =~= seq![(gipa.final_a, gipa.final_b)]);
        assert(pairs_ab@ =~= seq![(gipa.final_a, fvkey.0), (fwkey.0, gipa.final_b)]);
        assert(pairs_ab2@ =~= seq![(gipa.final_a, fvkey.1), (fwkey.1, gipa.final_b)]);
        assert(pairs_c@ =~= seq![(gipa.final_c, fvkey.0)]);
        assert(pairs_c2@ =~= seq![(gipa.final_c, fvkey.1)]);
    }
    acc.merge(&PairingCheck::rand_with(&coeffs[4], pairs_z.as_slice(), &final_res.zab));
    acc.merge(&PairingCheck::rand_with(&coeffs[5], pairs_ab.as_slice(), &final_res.tab));
    acc.merge(&PairingCheck::rand_with(&coeffs[6], pairs_ab2.as_slice(), &final_res.uab));

    let bases: Vec<G1> = vec![gipa.final_c];
    let scalars: Vec<Scalar> = vec![final_r];
    proof {
        assert(bases@ =~= seq![gipa.final_c]);
        assert(fr_values(scalars@) =~= seq![final_r@]);
    }
    let final_z = G1::msm(bases.as_slice(), scalars.as_slice());
    if !final_z.same(&final_res.zc) {
        acc.merge(&PairingCheck::new_invalid());
    }
    acc.merge(&PairingCheck::rand_with(&coeffs[7], pairs_c.as_slice(), &final_res.tc));
    acc.merge(&PairingCheck::rand_with(&coeffs[8], pairs_c2.as_slice(), &final_res.uc));
    acc
}

/// The sum of the scalars.
pub fn sum_scalars(s: &Vec<Scalar>) -> (r: Scalar)
    ensures
        r@ == sum_spec(fr_values(s@)),
{
    let mut acc = Scalar::zero();
    let mut i: usize = 0;
    while i < s.len()
        invariant
            i <= s.len(),
            acc@ == sum_spec(fr_values(s@).subrange(0, i as int)),
        decreases s.len() - i,
    {
        proof {
            let next = fr_values(s@).subrange(0, i + 1);
            assert(next.drop_last() =~= fr_values(s@).subrange(0, i as int));
        }
        acc = acc.add(&s[i]);
        i += 1;
    }
    proof {
        assert(fr_values(s@).subrange(0, s.len() as int) =~= fr_values(s@));
    }
    acc
}

/// The check of the aggregated Groth16 equation against the public inputs
/// of all the proofs. It is the one check of a verification that is not
/// randomised.
pub fn groth16_check(
    vk: &VerifyingKey,
    public_inputs: &[Vec<Scalar>],
    proof: &AggregateProof,
    r: &Scalar,
) -> (check: PairingCheck)
    requires
        public_inputs.len() >= 1,
        inputs_fit(*vk, fr_rows_values(public_inputs@)),
    ensures
        check@ == groth16_check_spec(*vk, fr_rows_values(public_inputs@), proof@, r@),
        check@.non_randomized == 1,
{
    let ghost inputs = fr_rows_values(public_inputs@);
    let n = public_inputs.len();
    let powers = structured_scalar_power(n, r);
    let r_sum = sum_scalars(&powers);

    let a_left: Vec<G1> = vec![vk.alpha_g1.mul(&r_sum)];
    let b_left: Vec<G2> = vec![vk.beta_g2];
    let left = miller_loop(a_left.as_slice(), b_left.as_slice());
    let a_right: Vec<G1> = vec![proof.agg_c];
    let b_right: Vec<G2> = vec![vk.delta_g2];
    let right = miller_loop(a_right.as_slice(), b_right.as_slice());

    proof {
        assert(inputs[0].len() + 1 == vk.gamma_abc_g1@.len());
        assert(inputs[0].len() == public_inputs@[0]@.len());
    }
    let l = public_inputs[0].len();
    let mut summed: Vec<Scalar> = Vec::with_capacity(l);
    let mut i: usize = 0;
    while i < l
        invariant
            i <= l,
            n == public_inputs.len(),
            n >= 1,
            powers.len() == n,
            l + 1 == vk.gamma_abc_g1@.len(),
            inputs == fr_rows_values(public_inputs@),
            inputs_fit(*vk, inputs),
            summed.len() == i,
            forall|k: int|
                0 <= k < i ==> summed@[k]@ == column_sum_spec(inputs, fr_values(powers@), k, n as nat),
        decreases l - i,
    {
        proof {
            assert(inputs[0].len() + 1 == vk.gamma_abc_g1@.len());
            assert(inputs[0].len() == public_inputs@[0]@.len());
            assert(inputs[0][i as int] == public_inputs@[0]@[i as int]@);
        }
        let mut c = public_inputs[0][i];
        let mut j: usize = 1;
        while j < n
            invariant
                1 <= j <= n,
                i < l,
                n == public_inputs.len(),
                powers.len() == n,
                l + 1 == vk.gamma_abc_g1@.len(),
                inputs == fr_rows_values(public_inputs@),
                inputs_fit(*vk, inputs),
                c@ == column_sum_spec(inputs, fr_values(powers@), i as int, j as nat),
            decreases n - j,
        {
            proof {
                assert(inputs[j as int].len() + 1 == vk.gamma_abc_g1@.len());
                assert(inputs[j as int].len() == public_inputs@[j as int]@.len());
                assert(inputs[j as int][i as int] == public_inputs@[j as int]@[i as int]@);
            }
            let ai = public_inputs[j][i].mul(&powers[j]);
            c = c.add(&ai);
            j += 1;
        }
        summed.push(c);
        i += 1;
    }
    proof {
        assert(fr_values(summed@) =~= Seq::new(
            inputs[0].len(),
            |i: int| column_sum_spec(inputs, fr_values(powers@), i, inputs.len()),
        ));
    }
    let bases = vstd::slice::slice_subrange(
        vk.gamma_abc_g1.as_slice(),
        1,
        vk.gamma_abc_g1.len(),
    );
    let totsi = G1::msm(bases, summed.as_slice());
    let g_ic = vk.gamma_abc_g1[0].mul(&r_sum).add(&totsi);
    let a_middle: Vec<G1> = vec![g_ic];
    let b_middle: Vec<G2> = vec![vk.gamma_g2];
    let middle = miller_loop(a_middle.as_slice(), b_middle.as_slice());
    let lefts: Vec<Fq12> = vec![left, middle, right];
    proof {
        assert(a_left@ =~= seq![g1_scaled(vk.alpha_g1, r_sum@)]);
        assert(b_left@ =~= seq![vk.beta_g2]);
        assert(a_right@ =~= seq![proof.agg_c]);
        assert(b_right@ =~= seq![vk.delta_g2]);
        assert(a_middle@ =~= seq![g_ic]);
        assert(b_middle@ =~= seq![vk.gamma_g2]);
        assert(lefts@ =~= seq![left, middle, right]);
    }
    PairingCheck::from_products(lefts, proof.ip_ab)
}

/// Whether each row of public inputs has one input for each point of the
/// verifying key but the first.
pub fn check_inputs_fit(vk: &VerifyingKey, public_inputs: &[Vec<Scalar>]) -> (b: bool)
    ensures
        b == inputs_fit(*vk, fr_rows_values(public_inputs@)),
{
    let ghost inputs = fr_rows_values(public_inputs@);
    let want = vk.gamma_abc_g1.len();
    let mut j: usize = 0;
    while j < public_inputs.len()
        invariant
            j <= public_inputs.len(),
            want == vk.gamma_abc_g1@.len(),
            inputs == fr_rows_values(public_inputs@),
            forall|k: int| 0 <= k < j ==> (#[trigger] inputs[k]).len() + 1 == want,
        decreases public_inputs.len() - j,
    {
        let len = public_inputs[j].len();
        proof {
            assert(inputs[j as int].len() == len);
        }
        if len == usize::MAX || len + 1 != want {
            return false;
        }
        j += 1;
    }
    true
}

/// The verification of a proof that an aggregation gave, against as many
/// rows of public inputs as there were proofs and a verifying key that they
/// fit, is decided by the pairing checks alone: it refuses nothing before.
pub proof fn lemma_aggregate_reaches_the_checks<T: LocalTranscript>(
    prover_srs: ProverSRSView,
    verifier_srs: VerifierSRS,
    vk: VerifyingKey,
    inputs: Seq<Seq<nat>>,
    proofs: Seq<Proof>,
    coeffs: Seq<nat>,
    prover_before: Seq<u8>,
    verifier_before: Seq<u8>,
)
    requires
        inputs_fit(vk, inputs),
        inputs.len() == proofs.len(),
    ensures
        aggregate_spec::<T>(prover_srs, prover_before, proofs) matches Ok((p, _)) ==> (
        verify_spec::<T>(verifier_srs, vk, inputs, p, coeffs, verifier_before) matches Err(k) ==> k
            == ErrorKind::PairingCheckFailed),
{
    lemma_aggregation_is_well_shaped::<T>(prover_srs, prover_before, proofs);
}

/// Verifies the aggregate proof against the verifying key and the public
/// inputs of the aggregated proofs, with the given random scalars for the
/// batching of its checks. The transcript must be in the state in which the
/// prover's was when the aggregation began; it is left as it was where the
/// proof is refused for its shape or for the number of the inputs, and as
/// the replay of the proof leaves it otherwise, whether the checks hold or
/// not.
pub fn verify_aggregate_proof_with<T: LocalTranscript>(
    ip_verifier_srs: &VerifierSRS,
    pvk: &PreparedVerifyingKey,
    public_inputs: &[Vec<Scalar>],
    proof: &AggregateProof,
    coeffs: &[Scalar],
    transcript: &mut T,
) -> (res: Result<(), Error>)
    requires
        coeffs.len() == RANDOM_COEFFICIENTS,
    ensures
        match verify_spec::<T>(
            *ip_verifier_srs,
            pvk.vk,
            fr_rows_values(public_inputs@),
            proof@,
            fr_values(coeffs@),
            old(transcript).state(),
        ) {
            Ok(st) => res is Ok && final(transcript).state() == st,
            Err(k) => res is Err && res->Err_0.kind() == k,
        },
        proof@.well_shaped() && inputs_fit(pvk.vk, fr_rows_values(public_inputs@))
            && public_inputs.len() == proof@.tmipp.gipa.nproofs ==> final(transcript).state()
            == replayed_state::<T>(
            *ip_verifier_srs,
            proof@,
            fr_values(coeffs@),
            old(transcript).state(),
        ),
        !proof@.well_shaped() || !inputs_fit(pvk.vk, fr_rows_values(public_inputs@))
            || public_inputs.len() != proof@.tmipp.gipa.nproofs ==> final(transcript).state()
            == old(transcript).state(),
{
    match proof.parsing_check() {
        Ok(_) => {},
        Err(e) => {
            return Err(e);
        },
    }
    if !check_inputs_fit(&pvk.vk, public_inputs) {
        return Err(Error::MalformedVerifyingKey);
    }
    if public_inputs.len() != proof.tmipp.gipa.nproofs as usize {
        return Err(Error::InvalidProof("public inputs len != number of proofs".to_string()));
    }
    transcript.append(&proof.com_ab);
    transcript.append(&proof.com_c);
    let r = transcript.challenge_scalar();

    let mut acc = verify_tipp_mipp(ip_verifier_srs, proof, &r, transcript, coeffs);
    let check = groth16_check(&pvk.vk, public_inputs, proof, &r);
    acc.merge(&check);
    if acc.verify() {
        Ok(())
    } else {
        Err(Error::PairingCheckFailed)
    }
}

/// Verifies the aggregate proof against the verifying key and the public
/// inputs of the aggregated proofs. The checks are batched with random
/// scalars drawn from `rng`: a proof that is accepted is valid but for a
/// negligible chance, and a proof that the prover made of valid proofs is
/// accepted whatever is drawn.
pub fn verify_aggregate_proof<T: LocalTranscript>(
    ip_verifier_srs: &VerifierSRS,
    pvk: &PreparedVerifyingKey,
    public_inputs: &[Vec<Scalar>],
    proof: &AggregateProof,
    rng: &mut StdRng,
    transcript: &mut T,
) -> (res: Result<(), Error>)
    ensures
        exists|coeffs: Seq<nat>|
            coeffs.len() == RANDOM_COEFFICIENTS && (forall|i: int|
                0 <= i < coeffs.len() ==> coeffs[i] != 0) && match #[trigger] verify_spec::<T>(
                *ip_verifier_srs,
                pvk.vk,
                fr_rows_values(public_inputs@),
                proof@,
                coeffs,
                old(transcript).state(),
            ) {
                Ok(st) => res is Ok && final(transcript).state() == st,
                Err(k) => res is Err && res->Err_0.kind() == k,
            } && (proof@.well_shaped() && inputs_fit(pvk.vk, fr_rows_values(public_inputs@))
                && public_inputs.len() == proof@.tmipp.gipa.nproofs ==> final(transcript).state()
                == replayed_state::<T>(
                *ip_verifier_srs,
                proof@,
                coeffs,
                old(transcript).state(),
            )),
        !proof@.well_shaped() || !inputs_fit(pvk.vk, fr_rows_values(public_inputs@))
            || public_inputs.len() != proof@.tmipp.gipa.nproofs ==> final(transcript).state()
            == old(transcript).state(),
{
    let mut coeffs: Vec<Scalar> = Vec::with_capacity(RANDOM_COEFFICIENTS);
    let mut i: usize = 0;
    while i < RANDOM_COEFFICIENTS
        invariant
            i <= RANDOM_COEFFICIENTS,
            coeffs.len() == i,
            forall|j: int| 0 <= j < i ==> coeffs@[j]@ != 0,
        decreases RANDOM_COEFFICIENTS - i,
    {
        coeffs.push(rand_fr(rng));
        i += 1;
    }
    verify_aggregate_proof_with(
        ip_verifier_srs,
        pvk,
        public_inputs,
        proof,
        coeffs.as_slice(),
        transcript,
    )
}

} // verus!
