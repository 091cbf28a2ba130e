use ark_bn254::{Bn254, Fr};
use ark_ff::{One, PrimeField, ToBytes};
use ark_groth16::{
    create_random_proof, generate_random_parameters, prepare_verifying_key, verify_proof,
};
use ark_relations::r1cs::{
    ConstraintSynthesizer, ConstraintSystemRef, LinearCombination, SynthesisError, Variable,
};
use ark_std::rand::rngs::StdRng;
use ark_std::rand::SeedableRng;
use snarkpack::commitment::pair;
use snarkpack::compress;
use snarkpack::curve::{CurvePoint, Fq, Fq12, Fq2, G1, G2};
use snarkpack::errors::{Error, ErrorKind};
use snarkpack::field::Scalar;
use snarkpack::proofs::{AggregateProof, Proof};
use snarkpack::prover::aggregate_proofs;
use snarkpack::snarkjs_proof::{
    get_prepared_verifying_key, G2Prepared, PreparedVerifyingKey, SnarkJSProof, SnarkJSVK,
    VerifyingKey,
};
use snarkpack::srs::{setup_fake_srs, ProverSRS, VerifierSRS};
use snarkpack::transcript::{new_keccak_transcript, LocalTranscript};
use snarkpack::verify::verify_aggregate_proof;

/// The circuit of the aggregation tests: a chain of additions and
/// multiplications over two public inputs.
struct Benchmark {
    num_constraints: usize,
}

impl Benchmark {
    fn new(num_constraints: usize) -> Self {
        Benchmark { num_constraints }
    }
}

impl ConstraintSynthesizer<Fr> for Benchmark {
    fn generate_constraints(self, cs: ConstraintSystemRef<Fr>) -> Result<(), SynthesisError> {
        let mut a_val = Fr::one();
        let mut a_var = cs.new_input_variable(|| Ok(a_val))?;
        let mut b_val = Fr::one();
        let mut b_var = cs.new_input_variable(|| Ok(b_val))?;
        for i in 0..self.num_constraints - 1 {
            if i % 2 != 0 {
                let c_val = a_val * b_val;
                let c_var = cs.new_witness_variable(|| Ok(c_val))?;
                cs.enforce_constraint(
                    LinearCombination::zero() + a_var,
                    LinearCombination::zero() + b_var,
                    LinearCombination::zero() + c_var,
                )?;
                a_val = b_val;
                a_var = b_var;
                b_val = c_val;
                b_var = c_var;
            } else {
                let c_val = a_val + b_val;
                let c_var = cs.new_witness_variable(|| Ok(c_val))?;
                cs.enforce_constraint(
                    LinearCombination::zero() + a_var + b_var,
                    LinearCombination::zero() + Variable::One,
                    LinearCombination::zero() + c_var,
                )?;
                a_val = b_val;
                a_var = b_var;
                b_val = c_val;
                b_var = c_var;
            }
        }
        Ok(())
    }
}

fn scalar(x: &Fr) -> Scalar {
    Scalar::from_limbs(x.into_repr().0).unwrap()
}

fn g1(p: &ark_bn254::G1Affine) -> G1 {
    let mut bytes = [0u8; 65];
    p.write(&mut bytes[..]).unwrap();
    G1::from_bytes(&bytes).unwrap()
}

fn g2(p: &ark_bn254::G2Affine) -> G2 {
    let mut bytes = [0u8; 129];
    p.write(&mut bytes[..]).unwrap();
    G2::from_bytes(&bytes).unwrap()
}

fn fq(x: &ark_bn254::Fq) -> Fq {
    let mut bytes = [0u8; 32];
    x.write(&mut bytes[..]).unwrap();
    Fq::from_bytes(&bytes).unwrap()
}

fn fq2(x: &ark_bn254::Fq2) -> Fq2 {
    Fq2::new(fq(&x.c0), fq(&x.c1))
}

fn fq12(x: &ark_bn254::Fq12) -> Fq12 {
    let mut bytes = [0u8; 384];
    x.write(&mut bytes[..]).unwrap();
    Fq12::from_bytes(&bytes).unwrap()
}

fn g2_prepared(p: &ark_ec::bn::G2Prepared<ark_bn254::Parameters>) -> G2Prepared {
    G2Prepared::new(
        p.ell_coeffs.iter().map(|c| (fq2(&c.0), fq2(&c.1), fq2(&c.2))).collect(),
        p.infinity,
    )
}

fn prepared_key(pvk: &ark_groth16::PreparedVerifyingKey<Bn254>) -> PreparedVerifyingKey {
    PreparedVerifyingKey {
        vk: VerifyingKey {
            alpha_g1: g1(&pvk.vk.alpha_g1),
            beta_g2: g2(&pvk.vk.beta_g2),
            gamma_g2: g2(&pvk.vk.gamma_g2),
            delta_g2: g2(&pvk.vk.delta_g2),
            gamma_abc_g1: pvk.vk.gamma_abc_g1.iter().map(g1).collect(),
        },
        alpha_g1_beta_g2: fq12(&pvk.alpha_g1_beta_g2),
        gamma_g2_neg_pc: g2_prepared(&pvk.gamma_g2_neg_pc),
        delta_g2_neg_pc: g2_prepared(&pvk.delta_g2_neg_pc),
    }
}

fn proof_of(p: &ark_groth16::Proof<Bn254>) -> Proof {
    Proof { a: g1(&p.a), b: g2(&p.b), c: g1(&p.c) }
}

struct Fixture {
    prover_srs: ProverSRS,
    ver_srs: VerifierSRS,
    pvk: PreparedVerifyingKey,
    proofs: Vec<Proof>,
    all_inputs: Vec<Vec<Scalar>>,
    rng: StdRng,
}

/// `nproofs` proofs of the test circuit with `num_constraints` constraints,
/// and a reference string specialised to `srs_size` proofs.
fn fixture(nproofs: usize, srs_size: usize, num_constraints: usize) -> Fixture {
    let mut rng = StdRng::seed_from_u64(1u64);
    let params = {
        let c = Benchmark::new(num_constraints);
        generate_random_parameters::<Bn254, _, _>(c, &mut rng).unwrap()
    };
    let pvk = prepare_verifying_key(&params.vk);
    let srs = setup_fake_srs(&mut rng, srs_size);
    let (prover_srs, ver_srs) = srs.specialize(srs_size);
    let proofs = (0..nproofs)
        .map(|_| {
            let c = Benchmark::new(num_constraints);
            create_random_proof(c, &params, &mut rng).expect("proof creation failed")
        })
        .collect::<Vec<_>>();
    let inputs: Vec<_> = [Fr::one(); 2].to_vec();
    let r = verify_proof(&pvk, &proofs[1], &inputs).unwrap();
    assert!(r);
    let all_inputs = (0..nproofs)
        .map(|_| inputs.iter().map(scalar).collect::<Vec<_>>())
        .collect::<Vec<_>>();
    Fixture {
        prover_srs,
        ver_srs,
        pvk: prepared_key(&pvk),
        proofs: proofs.iter().map(proof_of).collect(),
        all_inputs,
        rng,
    }
}

fn aggregate(f: &Fixture) -> Result<AggregateProof, Error> {
    let mut prover_transcript = new_keccak_transcript();
    prover_transcript.append(&f.all_inputs);
    aggregate_proofs(&f.prover_srs, &mut prover_transcript, &f.proofs)
}

fn verify(f: &mut Fixture, proof: &AggregateProof) -> Result<(), Error> {
    let mut ver_transcript = new_keccak_transcript();
    ver_transcript.append(&f.all_inputs);
    verify_aggregate_proof(
        &f.ver_srs,
        &f.pvk,
        &f.all_inputs,
        proof,
        &mut f.rng,
        &mut ver_transcript,
    )
}

#[test]
fn groth16_aggregation() {
    let num_constraints = 1000;
    let nproofs = 8;
    let mut f = fixture(nproofs, nproofs, num_constraints);
    let aggregate_proof = aggregate(&f).expect("error in aggregation");
    verify(&mut f, &aggregate_proof).expect("error in verification");
}

#[test]
fn aggregation_of_two_proofs_verifies() {
    let mut f = fixture(2, 2, 10);
    let aggregate_proof = aggregate(&f).expect("error in aggregation");
    assert_eq!(aggregate_proof.tmipp.gipa.nproofs, 2);
    assert_eq!(aggregate_proof.tmipp.gipa.comms_ab.len(), 1);
    assert_eq!(aggregate_proof.tmipp.gipa.z_c.len(), 1);
    assert!(verify(&mut f, &aggregate_proof).is_ok());
}

#[test]
fn aggregation_records_one_entry_per_round() {
    let f = fixture(8, 8, 10);
    let aggregate_proof = aggregate(&f).expect("error in aggregation");
    assert_eq!(aggregate_proof.tmipp.gipa.nproofs, 8);
    assert_eq!(aggregate_proof.tmipp.gipa.comms_ab.len(), 3);
    assert_eq!(aggregate_proof.tmipp.gipa.comms_c.len(), 3);
    assert_eq!(aggregate_proof.tmipp.gipa.z_ab.len(), 3);
    assert_eq!(aggregate_proof.tmipp.gipa.z_c.len(), 3);
    assert!(aggregate_proof.parsing_check().is_ok());
}

#[test]
fn tampered_agg_c_fails_the_pairing_check() {
    let mut f = fixture(8, 8, 10);
    let mut aggregate_proof = aggregate(&f).expect("error in aggregation");
    let shifted = aggregate_proof.agg_c.add(&f.proofs[0].a);
    assert!(!shifted.same(&aggregate_proof.agg_c));
    aggregate_proof.agg_c = shifted;
    let err = verify(&mut f, &aggregate_proof).unwrap_err();
    assert_eq!(err.kind(), ErrorKind::PairingCheckFailed);
}

#[test]
fn flipped_bit_in_agg_c_fails_the_pairing_check() {
    let mut f = fixture(8, 8, 10);
    let mut aggregate_proof = aggregate(&f).expect("error in aggregation");
    let mut bytes = aggregate_proof.agg_c.to_bytes();
    bytes[0] ^= 1;
    aggregate_proof.agg_c = G1::from_bytes(&bytes).expect("still two canonical coordinates");
    let err = verify(&mut f, &aggregate_proof).unwrap_err();
    assert_eq!(err.kind(), ErrorKind::PairingCheckFailed);
}

#[test]
fn tampered_commitment_fails_the_pairing_check() {
    let mut f = fixture(4, 4, 10);
    let mut aggregate_proof = aggregate(&f).expect("error in aggregation");
    aggregate_proof.com_ab.0 = aggregate_proof.com_ab.0.mul(&aggregate_proof.com_ab.1);
    let err = verify(&mut f, &aggregate_proof).unwrap_err();
    assert_eq!(err.kind(), ErrorKind::PairingCheckFailed);
}

#[test]
fn tampered_public_input_fails_the_pairing_check() {
    let mut f = fixture(4, 4, 10);
    let aggregate_proof = aggregate(&f).expect("error in aggregation");
    let mut ver_transcript = new_keccak_transcript();
    ver_transcript.append(&f.all_inputs);
    let mut wrong_inputs = f.all_inputs.clone();
    wrong_inputs[2][1] = Scalar::from_u64(7);
    let err = verify_aggregate_proof(
        &f.ver_srs,
        &f.pvk,
        &wrong_inputs,
        &aggregate_proof,
        &mut f.rng,
        &mut ver_transcript,
    )
    .unwrap_err();
    assert_eq!(err.kind(), ErrorKind::PairingCheckFailed);
}

#[test]
fn three_proofs_are_not_aggregated() {
    let mut f = fixture(8, 8, 10);
    f.proofs.truncate(3);
    let err = aggregate(&f).unwrap_err();
    assert_eq!(err.kind(), ErrorKind::InvalidProof);
    assert!(matches!(err, Error::InvalidProof(_)));
}

#[test]
fn one_proof_is_not_aggregated() {
    let mut f = fixture(2, 2, 10);
    f.proofs.truncate(1);
    let err = aggregate(&f).unwrap_err();
    assert_eq!(err.kind(), ErrorKind::InvalidProof);
}

#[test]
fn transcripts_that_differ_fail_the_pairing_check() {
    let mut f = fixture(8, 8, 10);
    let aggregate_proof = aggregate(&f).expect("error in aggregation");
    let mut ver_transcript = new_keccak_transcript();
    ver_transcript.append(&f.all_inputs);
    ver_transcript.append(&Scalar::one());
    let err = verify_aggregate_proof(
        &f.ver_srs,
        &f.pvk,
        &f.all_inputs,
        &aggregate_proof,
        &mut f.rng,
        &mut ver_transcript,
    )
    .unwrap_err();
    assert_eq!(err.kind(), ErrorKind::PairingCheckFailed);
}

#[test]
fn sixteen_proofs_do_not_fit_a_string_for_eight() {
    let mut f = fixture(2, 8, 10);
    let first = f.proofs[0];
    f.proofs = vec![first; 16];
    let err = aggregate(&f).unwrap_err();
    assert_eq!(err.kind(), ErrorKind::InvalidSRS);
    assert!(matches!(err, Error::InvalidSRS(_)));
}

#[test]
fn wrong_number_of_public_inputs_is_rejected() {
    let mut f = fixture(4, 4, 10);
    let aggregate_proof = aggregate(&f).expect("error in aggregation");
    f.all_inputs.pop();
    let err = verify(&mut f, &aggregate_proof).unwrap_err();
    assert_eq!(err.kind(), ErrorKind::InvalidProof);
}

#[test]
fn public_inputs_that_do_not_fit_the_key_are_rejected() {
    let mut f = fixture(4, 4, 10);
    let aggregate_proof = aggregate(&f).expect("error in aggregation");
    f.all_inputs[1].push(Scalar::one());
    let err = verify(&mut f, &aggregate_proof).unwrap_err();
    assert_eq!(err.kind(), ErrorKind::MalformedVerifyingKey);
}

#[test]
fn badly_shaped_proof_is_rejected() {
    let mut f = fixture(4, 4, 10);
    let mut aggregate_proof = aggregate(&f).expect("error in aggregation");
    aggregate_proof.tmipp.gipa.z_ab.pop();
    assert_eq!(aggregate_proof.parsing_check().unwrap_err().kind(), ErrorKind::InvalidProof);
    let err = verify(&mut f, &aggregate_proof).unwrap_err();
    assert_eq!(err.kind(), ErrorKind::InvalidProof);
    let mut other = aggregate(&f).expect("error in aggregation");
    other.tmipp.gipa.nproofs = 3;
    assert_eq!(other.parsing_check().unwrap_err().kind(), ErrorKind::InvalidProof);
    other.tmipp.gipa.nproofs = 1;
    assert_eq!(other.parsing_check().unwrap_err().kind(), ErrorKind::InvalidProof);
}

fn same_output(x: &(Fq12, Fq12), y: &(Fq12, Fq12)) -> bool {
    x.0.same(&y.0) && x.1.same(&y.1)
}

#[test]
fn aggregation_is_deterministic() {
    let f = fixture(4, 4, 10);
    let p = aggregate(&f).expect("error in aggregation");
    let q = aggregate(&f).expect("error in aggregation");
    assert!(same_output(&p.com_ab, &q.com_ab));
    assert!(same_output(&p.com_c, &q.com_c));
    assert!(p.ip_ab.same(&q.ip_ab));
    assert!(p.agg_c.same(&q.agg_c));
    let (g, h) = (&p.tmipp.gipa, &q.tmipp.gipa);
    assert_eq!(g.nproofs, h.nproofs);
    for i in 0..g.comms_ab.len() {
        assert!(same_output(&g.comms_ab[i].0, &h.comms_ab[i].0));
        assert!(same_output(&g.comms_ab[i].1, &h.comms_ab[i].1));
        assert!(same_output(&g.comms_c[i].0, &h.comms_c[i].0));
        assert!(same_output(&g.comms_c[i].1, &h.comms_c[i].1));
        assert!(same_output(&g.z_ab[i], &h.z_ab[i]));
        assert!(g.z_c[i].0.same(&h.z_c[i].0) && g.z_c[i].1.same(&h.z_c[i].1));
    }
    assert!(g.final_a.same(&h.final_a));
    assert!(g.final_b.same(&h.final_b));
    assert!(g.final_c.same(&h.final_c));
    assert!(g.final_vkey.0.same(&h.final_vkey.0) && g.final_vkey.1.same(&h.final_vkey.1));
    assert!(g.final_wkey.0.same(&h.final_wkey.0) && g.final_wkey.1.same(&h.final_wkey.1));
    assert!(p.tmipp.vkey_opening.0.same(&q.tmipp.vkey_opening.0));
    assert!(p.tmipp.vkey_opening.1.same(&q.tmipp.vkey_opening.1));
    assert!(p.tmipp.wkey_opening.0.same(&q.tmipp.wkey_opening.0));
    assert!(p.tmipp.wkey_opening.1.same(&q.tmipp.wkey_opening.1));
}

#[test]
fn a_round_folds_the_commitment_with_its_cross_terms() {
    let f = fixture(4, 4, 10);
    let mut a: Vec<G1> = f.proofs.iter().map(|p| p.a).collect();
    let mut b: Vec<G2> = f.proofs.iter().map(|p| p.b).collect();
    let vkey = f.prover_srs.vkey.duplicate();
    let wkey = f.prover_srs.wkey.duplicate();
    let com_before = pair(&vkey, &wkey, &a, &b).unwrap();

    let c = Scalar::from_u64(123456789);
    let c_inv = c.inverse().unwrap();
    let split = 2;
    let (v_l, v_r) = vkey.split(split);
    let (w_l, w_r) = wkey.split(split);
    let tab_l = pair(&v_l, &w_r, &a[split..], &b[..split]).unwrap();
    let tab_r = pair(&v_r, &w_l, &a[..split], &b[split..]).unwrap();

    compress(&mut a, split, &c);
    compress(&mut b, split, &c_inv);
    let v_folded = v_l.compress(&v_r, &c_inv).unwrap();
    let w_folded = w_l.compress(&w_r, &c).unwrap();
    assert_eq!(a.len(), 2);
    assert_eq!(v_folded.a.len(), 2);
    let com_after = pair(&v_folded, &w_folded, &a, &b).unwrap();

    let expected = (
        com_before.0.mul(&tab_l.0.pow(&c)).mul(&tab_r.0.pow(&c_inv)),
        com_before.1.mul(&tab_l.1.pow(&c)).mul(&tab_r.1.pow(&c_inv)),
    );
    assert!(same_output(&com_after, &expected));
    assert!(!same_output(&com_after, &com_before));
}

#[test]
fn a_proof_is_read_back_from_the_wire() {
    let mut f = fixture(4, 4, 10);
    let p = aggregate(&f).expect("error in aggregation");
    let bytes = p.write();
    assert_eq!(bytes.len(), 1956 + 2 * 3904 + 512);
    assert_eq!(&bytes[1952..1956], &[4, 0, 0, 0]);
    let q = AggregateProof::read(&bytes).expect("a proof on the wire");
    assert_eq!(q.tmipp.gipa.nproofs, 4);
    assert_eq!(q.tmipp.gipa.comms_ab.len(), 2);
    assert!(same_output(&p.com_ab, &q.com_ab));
    assert!(same_output(&p.com_c, &q.com_c));
    assert!(p.ip_ab.same(&q.ip_ab) && p.agg_c.same(&q.agg_c));
    for i in 0..2 {
        assert!(same_output(&p.tmipp.gipa.comms_ab[i].1, &q.tmipp.gipa.comms_ab[i].1));
        assert!(same_output(&p.tmipp.gipa.comms_c[i].0, &q.tmipp.gipa.comms_c[i].0));
        assert!(same_output(&p.tmipp.gipa.z_ab[i], &q.tmipp.gipa.z_ab[i]));
        assert!(p.tmipp.gipa.z_c[i].1.same(&q.tmipp.gipa.z_c[i].1));
    }
    assert!(p.tmipp.gipa.final_b.same(&q.tmipp.gipa.final_b));
    assert!(p.tmipp.gipa.final_wkey.1.same(&q.tmipp.gipa.final_wkey.1));
    assert!(p.tmipp.vkey_opening.1.same(&q.tmipp.vkey_opening.1));
    assert!(p.tmipp.wkey_opening.0.same(&q.tmipp.wkey_opening.0));
    assert_eq!(q.write(), bytes);
    assert!(verify(&mut f, &q).is_ok());
}

#[test]
fn bytes_that_are_no_proof_are_malformed() {
    let f = fixture(2, 2, 10);
    let bytes = aggregate(&f).expect("error in aggregation").write();
    assert_eq!(bytes.len(), 1956 + 3904 + 512);
    let kind = |b: &[u8]| AggregateProof::read(b).unwrap_err().kind();
    assert_eq!(kind(&[]), ErrorKind::MalformedProof);
    assert!(matches!(AggregateProof::read(&bytes[..100]).unwrap_err(), Error::MalformedProof));
    assert_eq!(kind(&bytes[..bytes.len() - 1]), ErrorKind::MalformedProof);
    let mut longer = bytes.clone();
    longer.push(0);
    assert_eq!(kind(&longer), ErrorKind::MalformedProof);
    let mut three = bytes.clone();
    three[1952] = 3;
    assert_eq!(kind(&three), ErrorKind::MalformedProof);
    let mut one = bytes.clone();
    one[1952] = 1;
    assert_eq!(kind(&one), ErrorKind::MalformedProof);
    let mut four = bytes.clone();
    four[1952] = 4;
    assert_eq!(kind(&four), ErrorKind::MalformedProof);
    let mut huge = bytes.clone();
    huge[1955] = 0x80;
    assert_eq!(kind(&huge), ErrorKind::MalformedProof);
    let mut off_curve = bytes.clone();
    for b in off_curve[1920..1952].iter_mut() {
        *b = 0xff;
    }
    assert_eq!(kind(&off_curve), ErrorKind::MalformedProof);
    let mut overflowing = bytes.clone();
    for b in overflowing[0..32].iter_mut() {
        *b = 0xff;
    }
    assert_eq!(kind(&overflowing), ErrorKind::MalformedProof);
    assert!(AggregateProof::read(&bytes).is_ok());
}

#[test]
fn rescaling_leaves_the_commitment_as_it_is() {
    let f = fixture(4, 4, 10);
    let a: Vec<G1> = f.proofs.iter().map(|p| p.a).collect();
    let b: Vec<G2> = f.proofs.iter().map(|p| p.b).collect();
    let r = Scalar::from_u64(987654321);
    let r_vec = snarkpack::structured_scalar_power(4, &r);
    let r_inv = snarkpack::prover::invert_powers(&r_vec, &r);
    let b_r: Vec<G2> = b.iter().zip(r_vec.iter()).map(|(p, s)| p.mul(s)).collect();
    let wkey_r_inv = f.prover_srs.wkey.scale(&r_inv).unwrap();
    let com_ab = pair(&f.prover_srs.vkey, &f.prover_srs.wkey, &a, &b).unwrap();
    let rescaled = pair(&f.prover_srs.vkey, &wkey_r_inv, &a, &b_r).unwrap();
    assert!(same_output(&com_ab, &rescaled));
    let unscaled = pair(&f.prover_srs.vkey, &f.prover_srs.wkey, &a, &b_r).unwrap();
    assert!(!same_output(&com_ab, &unscaled));
}

/// The decimal numeral of the integer in four limbs, least significant first.
fn decimal(mut limbs: [u64; 4]) -> String {
    let mut digits = Vec::new();
    while limbs != [0, 0, 0, 0] {
        let mut rem: u128 = 0;
        for l in limbs.iter_mut().rev() {
            let cur = (rem << 64) | (*l as u128);
            *l = (cur / 10) as u64;
            rem = cur % 10;
        }
        digits.push(char::from(b'0' + rem as u8));
    }
    if digits.is_empty() {
        digits.push('0');
    }
    digits.iter().rev().collect()
}

fn numeral(x: &ark_bn254::Fq) -> String {
    decimal(x.into_repr().0)
}

fn g1_numerals(p: &ark_bn254::G1Affine) -> Vec<String> {
    vec![numeral(&p.x), numeral(&p.y), "1".to_string()]
}

fn g2_numerals(p: &ark_bn254::G2Affine) -> Vec<Vec<String>> {
    vec![
        vec![numeral(&p.x.c0), numeral(&p.x.c1)],
        vec![numeral(&p.y.c0), numeral(&p.y.c1)],
        vec!["1".to_string(), "0".to_string()],
    ]
}

#[test]
fn snarkjs_groth16_aggreagtion() {
    let nproofs = 2;
    let mut rng = StdRng::seed_from_u64(1u64);
    let srs = setup_fake_srs(&mut rng, nproofs);
    let (prover_srs, ver_srs) = srs.specialize(nproofs);
    let params = generate_random_parameters::<Bn254, _, _>(Benchmark::new(10), &mut rng).unwrap();
    let ark_pvk = prepare_verifying_key(&params.vk);

    let vk_json = SnarkJSVK {
        curve: "bn128".to_string(),
        protocol: "groth16".to_string(),
        n_public: 2,
        vk_alpha_1: g1_numerals(&params.vk.alpha_g1),
        vk_beta_2: g2_numerals(&params.vk.beta_g2),
        vk_gamma_2: g2_numerals(&params.vk.gamma_g2),
        vk_delta_2: g2_numerals(&params.vk.delta_g2),
        vk_alphabeta_12: vec![],
        ic: params.vk.gamma_abc_g1.iter().map(g1_numerals).collect(),
    };
    let mut proofs: Vec<Proof> = vec![];
    let mut inputs: Vec<Vec<Scalar>> = vec![];
    for _ in 0..nproofs {
        let ark_proof = create_random_proof(Benchmark::new(10), &params, &mut rng).unwrap();
        let proof_json = SnarkJSProof {
            curve: "bn128".to_string(),
            protocol: "groth16".to_string(),
            pi_a: g1_numerals(&ark_proof.a),
            pi_b: g2_numerals(&ark_proof.b),
            pi_c: g1_numerals(&ark_proof.c),
        };
        let public_json: Vec<String> = vec!["1".to_string(), "1".to_string()];
        let ark_pub_inputs: Vec<Scalar> =
            public_json.into_iter().map(snarkpack::snarkjs_proof::fr_from_str).collect();
        let proof = proof_json.to_proof();
        let back = ark_groth16::Proof::<Bn254> {
            a: ark_ff::FromBytes::read(&proof.a.to_bytes()[..]).unwrap(),
            b: ark_ff::FromBytes::read(&proof.b.to_bytes()[..]).unwrap(),
            c: ark_ff::FromBytes::read(&proof.c.to_bytes()[..]).unwrap(),
        };
        let res = verify_proof(&ark_pvk, &back, &[Fr::one(), Fr::one()]).unwrap();
        assert_eq!(res, true);
        proofs.push(proof);
        inputs.push(ark_pub_inputs);
    }

    let mut prover_transcript = new_keccak_transcript();
    prover_transcript.append(&inputs);
    let aggregate_proof = aggregate_proofs(&prover_srs, &mut prover_transcript, &proofs)
        .expect("error in aggregation");

    let mut ver_transcript = new_keccak_transcript();
    ver_transcript.append(&inputs);
    let pvk = get_prepared_verifying_key(vk_json).expect("a pairing of two points of the curve");
    assert!(pvk.alpha_g1_beta_g2.same(&fq12(&ark_pvk.alpha_g1_beta_g2)));
    verify_aggregate_proof(
        &ver_srs,
        &pvk,
        &inputs,
        &aggregate_proof,
        &mut rng,
        &mut ver_transcript,
    )
    .expect("error in verification");
}

#[test]
fn a_refused_aggregation_leaves_the_transcript() {
    let mut f = fixture(8, 8, 10);
    let mut fresh = new_keccak_transcript();
    fresh.append(&f.all_inputs);
    let want = fresh.challenge_scalar();

    let mut t = new_keccak_transcript();
    t.append(&f.all_inputs);
    let err = aggregate_proofs(&f.prover_srs, &mut t, &f.proofs[..3]).unwrap_err();
    assert_eq!(err.kind(), ErrorKind::InvalidProof);
    let err = aggregate_proofs(&f.prover_srs, &mut t, &f.proofs[..1]).unwrap_err();
    assert_eq!(err.kind(), ErrorKind::InvalidProof);
    let err = aggregate_proofs(&f.prover_srs, &mut t, &f.proofs[..4]).unwrap_err();
    assert_eq!(err.kind(), ErrorKind::InvalidSRS);
    assert!(t.challenge_scalar().eq(&want));

    let mut proof = aggregate(&f).expect("error in aggregation");
    proof.tmipp.gipa.z_c.pop();
    let mut t = new_keccak_transcript();
    t.append(&f.all_inputs);
    let err = verify_aggregate_proof(&f.ver_srs, &f.pvk, &f.all_inputs, &proof, &mut f.rng, &mut t)
        .unwrap_err();
    assert_eq!(err.kind(), ErrorKind::InvalidProof);
    let good = aggregate(&f).expect("error in aggregation");
    let err =
        verify_aggregate_proof(&f.ver_srs, &f.pvk, &f.all_inputs[..4], &good, &mut f.rng, &mut t)
            .unwrap_err();
    assert_eq!(err.kind(), ErrorKind::InvalidProof);
    assert!(t.challenge_scalar().eq(&want));

    // an aggregation that goes through does move it
    let mut t = new_keccak_transcript();
    t.append(&f.all_inputs);
    aggregate_proofs(&f.prover_srs, &mut t, &f.proofs).expect("error in aggregation");
    assert!(!t.challenge_scalar().eq(&want));
}

#[test]
fn the_shape_of_a_proof_has_no_upper_limit() {
    let f = fixture(2, 2, 10);
    for log in [22u32, 31] {
        let mut p = aggregate(&f).expect("error in aggregation");
        p.tmipp.gipa.nproofs = 1 << log;
        while p.tmipp.gipa.comms_ab.len() < log as usize {
            let (x, y, z, w) = (
                p.tmipp.gipa.comms_ab[0],
                p.tmipp.gipa.comms_c[0],
                p.tmipp.gipa.z_ab[0],
                p.tmipp.gipa.z_c[0],
            );
            p.tmipp.gipa.comms_ab.push(x);
            p.tmipp.gipa.comms_c.push(y);
            p.tmipp.gipa.z_ab.push(z);
            p.tmipp.gipa.z_c.push(w);
        }
        assert!(p.parsing_check().is_ok());
        let bytes = p.write();
        assert_eq!(bytes.len(), 1956 + log as usize * 3904 + 512);
        let q = AggregateProof::read(&bytes).expect("a proof on the wire");
        assert_eq!(q.tmipp.gipa.nproofs, 1 << log);
        assert_eq!(q.tmipp.gipa.z_c.len(), log as usize);
        assert_eq!(q.write(), bytes);
        p.tmipp.gipa.z_ab.pop();
        assert_eq!(p.parsing_check().unwrap_err().kind(), ErrorKind::InvalidProof);
        assert_eq!(
            AggregateProof::read(&bytes[..bytes.len() - 3904]).unwrap_err().kind(),
            ErrorKind::MalformedProof
        );
    }
}

#[test]
fn the_verifier_draws_what_the_prover_drew() {
    let mut f = fixture(4, 4, 10);
    let mut prover = new_keccak_transcript();
    prover.append(&f.all_inputs);
    let proof = aggregate_proofs(&f.prover_srs, &mut prover, &f.proofs).unwrap();
    assert!(proof.parsing_check().is_ok());
    assert_eq!(proof.tmipp.gipa.nproofs as usize, f.proofs.len());
    let next = prover.challenge_scalar();

    let mut verifier = new_keccak_transcript();
    verifier.append(&f.all_inputs);
    verify_aggregate_proof(&f.ver_srs, &f.pvk, &f.all_inputs, &proof, &mut f.rng, &mut verifier)
        .expect("error in verification");
    assert!(verifier.challenge_scalar().eq(&next));

    // a proof that fails its checks is replayed to the end all the same
    let mut tampered = aggregate(&f).unwrap();
    tampered.tmipp.vkey_opening.0 = tampered.tmipp.vkey_opening.1;
    let mut verifier = new_keccak_transcript();
    verifier.append(&f.all_inputs);
    let err = verify_aggregate_proof(
        &f.ver_srs,
        &f.pvk,
        &f.all_inputs,
        &tampered,
        &mut f.rng,
        &mut verifier,
    )
    .unwrap_err();
    assert_eq!(err.kind(), ErrorKind::PairingCheckFailed);
    assert!(verifier.challenge_scalar().eq(&next));
}
