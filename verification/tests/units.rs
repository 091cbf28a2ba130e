use ark_bn254::{Bn254, Fr, G1Projective, G2Projective};
use ark_ec::{AffineCurve, PairingEngine, ProjectiveCurve};
use ark_ff::{Field, One, PrimeField, ToBytes, Zero};
use ark_std::rand::rngs::StdRng;
use bellman_ce::plonk::commitments::transcript::keccak_transcript::RollingKeccakTranscript;
use bellman_ce::plonk::commitments::transcript::{Prng, Transcript};
use bellman_ce::PrimeFieldRepr;
use ark_std::rand::SeedableRng;
use snarkpack::commitment::{pair, single_g1, Key};
use snarkpack::compress;
use snarkpack::curve::{final_exponentiation, miller_loop, CurvePoint, Fq, Fq12, Fq2, Fq6, G1, G2};
use snarkpack::errors::{Error, ErrorKind};
use snarkpack::field::Scalar;
use snarkpack::ip::{multiexponentiation, pairing, pairing_miller_affine};
use snarkpack::is_power_of_two;
use snarkpack::pairing_check::{mul_if_not_one, rand_fr, PairingCheck};
use snarkpack::polynomial::{
    evaluate, opening_quotient, polynomial_coefficients_from_transcript,
    polynomial_evaluation_product_form_from_transcript,
};
use snarkpack::proofs::{rounds, KZGOpening};
use snarkpack::prover::{
    create_kzg_opening, fold_scalars, gipa_tipp_mipp, invert_powers, prove_commitment_v,
    prove_commitment_w, resize_coefficients, reversed, round_terms,
};
use snarkpack::snarkjs_proof::{
    fq_from_str, fr_from_str, g1_from_str, g2_from_str, get_prepared_verifying_key,
    prepare_verifying_key, SnarkJSProof, SnarkJSVK, VerifyingKey,
};
use snarkpack::srs::{
    setup_fake_srs, setup_fake_srs_with, structured_generators_scalar_power, GenericSRS,
};
use snarkpack::structured_scalar_power;
use snarkpack::transcript::{new_keccak_transcript, CanonicalBytes, LocalTranscript};

const R_LIMBS: [u64; 4] = [
    4891460686036598785,
    2896914383306846353,
    13281191951274694749,
    3486998266802970665,
];

fn s(x: u64) -> Scalar {
    Scalar::from_u64(x)
}

fn limbs(x: &Scalar) -> [u64; 4] {
    x.to_limbs()
}

fn scalar(x: &Fr) -> Scalar {
    Scalar::from_limbs(x.into_repr().0).unwrap()
}

fn g1(p: &ark_bn254::G1Affine) -> G1 {
    let mut bytes = [0u8; 65];
    p.write(&mut bytes[..]).unwrap();
    G1::from_bytes(&bytes).unwrap()
}

fn g2(p: &ark_bn254::G2Affine) -> G2 {
    let mut bytes = [0u8; 129];
    p.write(&mut bytes[..]).unwrap();
    G2::from_bytes(&bytes).unwrap()
}

fn fq12(x: &ark_bn254::Fq12) -> Fq12 {
    let mut bytes = [0u8; 384];
    x.write(&mut bytes[..]).unwrap();
    Fq12::from_bytes(&bytes).unwrap()
}

fn g(k: u64) -> G1 {
    g1(&G1Projective::prime_subgroup_generator().mul(&[k]).into_affine())
}

fn h(k: u64) -> G2 {
    g2(&G2Projective::prime_subgroup_generator().mul(&[k]).into_affine())
}

fn gt(k: u64) -> Fq12 {
    let e = Bn254::pairing(
        G1Projective::prime_subgroup_generator(),
        G2Projective::prime_subgroup_generator(),
    );
    fq12(&e.pow(&[k]))
}

#[test]
fn scalar_constants() {
    assert_eq!(limbs(&Scalar::zero()), [0, 0, 0, 0]);
    assert_eq!(limbs(&Scalar::one()), [1, 0, 0, 0]);
    assert_eq!(limbs(&s(77)), [77, 0, 0, 0]);
    assert!(Scalar::zero().is_zero());
    assert!(!Scalar::one().is_zero());
    assert!(s(5).eq(&s(5)));
    assert!(!s(5).eq(&s(6)));
}

#[test]
fn scalar_from_limbs_takes_what_is_below_the_order() {
    assert!(Scalar::from_limbs(R_LIMBS).is_none());
    let mut below = R_LIMBS;
    below[0] -= 1;
    assert_eq!(limbs(&Scalar::from_limbs(below).unwrap()), below);
    let mut above = R_LIMBS;
    above[0] += 1;
    assert!(Scalar::from_limbs(above).is_none());
    assert!(Scalar::from_limbs([0, 0, 0, u64::MAX]).is_none());
    assert!(Scalar::from_limbs([u64::MAX, u64::MAX, u64::MAX, 0]).is_some());
    assert!(Scalar::from_limbs([0, 0, R_LIMBS[2] + 1, R_LIMBS[3]]).is_none());
    assert!(Scalar::from_limbs([u64::MAX, u64::MAX, R_LIMBS[2] - 1, R_LIMBS[3]]).is_some());
}

#[test]
fn scalar_arithmetic_is_modular() {
    let mut top = R_LIMBS;
    top[0] -= 1;
    let minus_one = Scalar::from_limbs(top).unwrap();
    assert_eq!(limbs(&s(3).add(&s(5))), [8, 0, 0, 0]);
    assert_eq!(limbs(&minus_one.add(&s(2))), [1, 0, 0, 0]);
    assert_eq!(limbs(&s(5).sub(&s(3))), [2, 0, 0, 0]);
    assert!(s(3).sub(&s(4)).eq(&minus_one));
    assert_eq!(limbs(&s(3).mul(&s(5))), [15, 0, 0, 0]);
    assert_eq!(limbs(&minus_one.mul(&minus_one)), [1, 0, 0, 0]);
    assert_eq!(limbs(&s(1 << 63).mul(&s(2))), [0, 1, 0, 0]);
    assert!(s(1).neg().eq(&minus_one));
    assert!(Scalar::zero().neg().is_zero());
    assert_eq!(limbs(&s(12).square()), [144, 0, 0, 0]);
    assert_eq!(limbs(&s(2).pow(10)), [1024, 0, 0, 0]);
    assert_eq!(limbs(&s(2).pow(64)), [0, 1, 0, 0]);
    assert_eq!(limbs(&s(9).pow(0)), [1, 0, 0, 0]);
    assert_eq!(limbs(&Scalar::zero().pow(0)), [1, 0, 0, 0]);
}

#[test]
fn scalar_inverse() {
    assert!(Scalar::zero().inverse().is_none());
    assert_eq!(limbs(&Scalar::one().inverse().unwrap()), [1, 0, 0, 0]);
    let x = s(123456789);
    let inv = x.inverse().unwrap();
    assert!(!inv.eq(&x));
    assert_eq!(limbs(&x.mul(&inv)), [1, 0, 0, 0]);
    assert!(inv.eq(&scalar(&Fr::from(123456789u64).inverse().unwrap())));
}

#[test]
fn scalar_from_decimal() {
    assert_eq!(limbs(&Scalar::from_decimal("0").unwrap()), [0, 0, 0, 0]);
    assert_eq!(limbs(&Scalar::from_decimal("18446744073709551616").unwrap()), [0, 1, 0, 0]);
    assert!(Scalar::from_decimal(
        "21888242871839275222246405745257275088548364400416034343698204186575808495617"
    )
    .unwrap()
    .is_zero());
    assert_eq!(
        limbs(
            &Scalar::from_decimal(
                "21888242871839275222246405745257275088548364400416034343698204186575808495620"
            )
            .unwrap()
        ),
        [3, 0, 0, 0]
    );
    assert!(Scalar::from_decimal("").is_none());
    assert!(Scalar::from_decimal("05").is_none());
    assert!(Scalar::from_decimal("00").is_none());
    assert!(Scalar::from_decimal("12a").is_none());
    assert!(Scalar::from_decimal("-1").is_none());
    assert!(Scalar::from_decimal(" 1").is_none());
    assert_eq!(limbs(&fr_from_str("42".to_string())), [42, 0, 0, 0]);
}

#[test]
fn powers_of_two_are_recognised() {
    for n in [1usize, 2, 4, 8, 1024, 1 << 40] {
        assert!(is_power_of_two(n));
    }
    for n in [0usize, 3, 5, 6, 7, 12, 1023, (1 << 40) + 1, usize::MAX] {
        assert!(!is_power_of_two(n));
    }
}

#[test]
fn rounds_halve_down_to_one() {
    assert_eq!(rounds(0), 0);
    assert_eq!(rounds(1), 0);
    assert_eq!(rounds(2), 1);
    assert_eq!(rounds(3), 1);
    assert_eq!(rounds(8), 3);
    assert_eq!(rounds(1 << 20), 20);
}

#[test]
fn structured_powers() {
    let p = structured_scalar_power(4, &s(3));
    assert_eq!(p.iter().map(limbs).collect::<Vec<_>>(), vec![
        [1, 0, 0, 0],
        [3, 0, 0, 0],
        [9, 0, 0, 0],
        [27, 0, 0, 0]
    ]);
    assert_eq!(structured_scalar_power(0, &s(3)).len(), 1);
    assert_eq!(structured_scalar_power(1, &s(3)).len(), 1);
    let inv = invert_powers(&p, &s(3));
    assert_eq!(inv.len(), 4);
    for i in 0..4 {
        assert_eq!(limbs(&inv[i].mul(&p[i])), [1, 0, 0, 0]);
    }
}

#[test]
fn polynomial_coefficients_double_with_each_challenge() {
    let x = vec![s(2), s(3)];
    let c = polynomial_coefficients_from_transcript(&x, &s(5));
    assert_eq!(c.iter().map(limbs).collect::<Vec<_>>(), vec![
        [1, 0, 0, 0],
        [10, 0, 0, 0],
        [75, 0, 0, 0],
        [750, 0, 0, 0]
    ]);
    let none = polynomial_coefficients_from_transcript(&[], &s(5));
    assert_eq!(none.iter().map(limbs).collect::<Vec<_>>(), vec![[1, 0, 0, 0]]);
    let one = polynomial_coefficients_from_transcript(&x, &Scalar::one());
    assert_eq!(one.iter().map(limbs).collect::<Vec<_>>(), vec![
        [1, 0, 0, 0],
        [2, 0, 0, 0],
        [3, 0, 0, 0],
        [6, 0, 0, 0]
    ]);
}

#[test]
fn polynomial_product_form_and_evaluation() {
    let x = vec![s(2), s(3)];
    let z = s(7);
    let shift = s(5);
    let by_product = polynomial_evaluation_product_form_from_transcript(&x, &z, &shift);
    assert_eq!(limbs(&by_product), [260996, 0, 0, 0]);
    let coeffs = polynomial_coefficients_from_transcript(&x, &shift);
    assert_eq!(limbs(&evaluate(&coeffs, &z)), [260996, 0, 0, 0]);
    assert_eq!(limbs(&evaluate(&vec![s(4), s(0), s(1)], &s(3))), [13, 0, 0, 0]);
    assert_eq!(limbs(&evaluate(&vec![], &s(3))), [0, 0, 0, 0]);
    assert_eq!(limbs(&evaluate(&vec![s(4), s(9)], &s(0))), [4, 0, 0, 0]);
    let single = polynomial_evaluation_product_form_from_transcript(&[s(4)], &s(3), &s(2));
    assert_eq!(limbs(&single), [25, 0, 0, 0]);
}

#[test]
fn product_form_agrees_with_the_coefficients_on_large_values() {
    let mut rng = StdRng::seed_from_u64(7);
    for len in 1..6 {
        let x: Vec<Scalar> = (0..len).map(|_| rand_fr(&mut rng)).collect();
        let z = rand_fr(&mut rng);
        let shift = rand_fr(&mut rng);
        let by_product = polynomial_evaluation_product_form_from_transcript(&x, &z, &shift);
        let coeffs = polynomial_coefficients_from_transcript(&x, &shift);
        assert_eq!(coeffs.len(), 1 << len);
        assert!(by_product.eq(&evaluate(&coeffs, &z)));
    }
}

#[test]
fn coefficients_are_resized_reversed_and_folded() {
    let mut c = vec![s(1), s(2), s(3)];
    resize_coefficients(&mut c, 5);
    assert_eq!(c.iter().map(limbs).map(|l| l[0]).collect::<Vec<_>>(), vec![1, 2, 3, 0, 0]);
    resize_coefficients(&mut c, 2);
    assert_eq!(c.iter().map(limbs).map(|l| l[0]).collect::<Vec<_>>(), vec![1, 2]);
    let r = reversed(&vec![s(1), s(2), s(3)]);
    assert_eq!(r.iter().map(limbs).map(|l| l[0]).collect::<Vec<_>>(), vec![3, 2, 1]);
    assert!(reversed(&vec![]).is_empty());
    let mut v = vec![s(1), s(2), s(3), s(4)];
    fold_scalars(&mut v, 2, &s(10));
    assert_eq!(v.iter().map(limbs).map(|l| l[0]).collect::<Vec<_>>(), vec![31, 42]);
}

#[test]
fn points_of_g1() {
    let p = g(1);
    assert!(p.add(&p).same(&g(2)));
    assert!(p.mul(&s(5)).same(&g(5)));
    assert!(g(7).sub(&g(3)).same(&g(4)));
    assert!(g(3).neg().add(&g(4)).same(&g(1)));
    assert!(!p.neg().same(&p));
    assert!(!p.same(&g(2)));
    assert!(G1::msm(&[g(1), g(2)], &[s(3), s(4)]).same(&g(11)));
    assert!(G1::msm(&[g(1), g(2)], &[s(3)]).same(&g(3)));
    let bytes = p.to_bytes();
    assert_eq!(bytes[0], 1);
    assert_eq!(bytes[32], 2);
    assert_eq!(bytes[64], 0);
    assert!(G1::from_bytes(&bytes).unwrap().same(&p));
    assert!(G1::from_bytes(&[0xff; 65]).is_none());
    let mut bad_flag = bytes;
    bad_flag[64] = 2;
    assert!(G1::from_bytes(&bad_flag).is_none());
}

#[test]
fn points_of_g2() {
    let p = h(1);
    assert!(p.add(&p).same(&h(2)));
    assert!(p.mul(&s(5)).same(&h(5)));
    assert!(h(7).sub(&h(3)).same(&h(4)));
    assert!(h(3).neg().add(&h(4)).same(&h(1)));
    assert!(!p.neg().same(&p));
    assert!(G2::msm(&[h(1), h(2)], &[s(3), s(4)]).same(&h(11)));
    assert!(G2::from_bytes(&p.to_bytes()).unwrap().same(&p));
    assert!(G2::from_bytes(&[0xff; 129]).is_none());
    let (coeffs, infinity) = p.prepare();
    let reference: ark_ec::bn::G2Prepared<ark_bn254::Parameters> =
        G2Projective::prime_subgroup_generator().into_affine().into();
    assert_eq!(coeffs.len(), reference.ell_coeffs.len());
    assert!(!coeffs.is_empty());
    assert_eq!(infinity, reference.infinity);
    let mut first = [0u8; 64];
    reference.ell_coeffs[0].0.write(&mut first[..]).unwrap();
    assert_eq!(coeffs[0].0.to_bytes(), first);
}

#[test]
fn elements_of_the_target_field() {
    let one = Fq12::one();
    assert!(one.is_one());
    assert!(!gt(1).is_one());
    assert!(gt(2).mul(&gt(3)).same(&gt(5)));
    assert!(gt(2).mul(&one).same(&gt(2)));
    assert!(gt(2).pow(&s(3)).same(&gt(6)));
    assert!(gt(2).pow(&s(0)).is_one());
    let two = one.add(&one);
    assert!(!two.is_one());
    assert_eq!(two.to_bytes()[0], 2);
    assert_eq!(one.to_bytes()[0], 1);
    assert!(one.to_bytes()[1..].iter().all(|b| *b == 0));
    assert!(Fq12::from_bytes(&gt(4).to_bytes()).unwrap().same(&gt(4)));
    assert!(Fq12::from_bytes(&[0xff; 384]).is_none());
}

#[test]
fn extension_fields_are_built_from_their_coefficients() {
    let a = Fq::from_decimal("1").unwrap();
    let b = Fq::from_decimal("2").unwrap();
    assert_eq!(a.to_bytes()[0], 1);
    assert!(Fq::from_bytes(&[0xff; 32]).is_none());
    assert!(Fq::from_bytes(&b.to_bytes()).is_some());
    let x = Fq2::new(a, b);
    let mut want2 = [0u8; 64];
    want2[0] = 1;
    want2[32] = 2;
    assert_eq!(x.to_bytes(), want2);
    let y = Fq6::new(x, x, x);
    assert_eq!(&y.to_bytes()[64..128], &want2[..]);
    let z = Fq12::new(y, y);
    assert_eq!(&z.to_bytes()[192..256], &want2[..]);
    assert_eq!(&z.to_bytes()[320..384], &want2[..]);
    assert_eq!(
        Fq::from_decimal(
            "21888242871839275222246405745257275088696311157297823662689037894645226208584"
        )
        .unwrap()
        .to_bytes(),
        a.to_bytes()
    );
    assert!(Fq::from_decimal("01").is_none());
    assert_eq!(fq_from_str(&"2".to_string()).to_bytes(), b.to_bytes());
}

#[test]
fn the_pairing_is_bilinear() {
    let e = pairing(&[g(2)], &[h(3)]).unwrap();
    assert!(e.same(&gt(6)));
    assert!(pairing(&[g(6)], &[h(1)]).unwrap().same(&e));
    assert!(pairing(&[g(1), g(2)], &[h(3), h(4)]).unwrap().same(&gt(11)));
    let m = pairing_miller_affine(&[g(2)], &[h(3)]).unwrap();
    assert!(final_exponentiation(&m).unwrap().same(&e));
    assert!(miller_loop(&[g(2)], &[h(3)]).same(&m));
    assert!(pairing(&[], &[]).unwrap().is_one());
}

#[test]
fn a_zero_has_no_final_exponentiation() {
    let zero = Fq12::from_bytes(&[0u8; 384]).unwrap();
    assert!(final_exponentiation(&zero).is_none());
}

#[test]
fn inner_products_need_vectors_of_one_length() {
    let e = pairing(&[g(1), g(2)], &[h(1)]).unwrap_err();
    assert_eq!(e.kind(), ErrorKind::InvalidIPVectorLength);
    assert!(matches!(e, Error::InvalidIPVectorLength));
    let e = pairing_miller_affine(&[g(1)], &[]).unwrap_err();
    assert_eq!(e.kind(), ErrorKind::InvalidIPVectorLength);
    let e = multiexponentiation(&[g(1), g(2)], &[s(1)]).unwrap_err();
    assert_eq!(e.kind(), ErrorKind::InvalidIPVectorLength);
    assert!(multiexponentiation(&[g(1), g(2)], &[s(2), s(3)]).unwrap().same(&g(8)));
    assert!(multiexponentiation(&[h(1), h(2)], &[s(2), s(3)]).unwrap().same(&h(8)));
}

fn vkey() -> Key<G2> {
    Key { a: vec![h(1), h(2), h(3), h(4)], b: vec![h(5), h(6), h(7), h(8)] }
}

fn wkey() -> Key<G1> {
    Key { a: vec![g(1), g(2), g(3), g(4)], b: vec![g(5), g(6), g(7), g(8)] }
}

#[test]
fn commitment_keys() {
    let v = vkey();
    assert!(v.has_correct_len(4));
    assert!(!v.has_correct_len(3));
    assert!(!Key { a: vec![h(1)], b: vec![] }.has_correct_len(1));
    let (first_a, first_b) = v.first();
    assert!(first_a.same(&h(1)) && first_b.same(&h(5)));
    let d = v.duplicate();
    assert!(d.a[3].same(&h(4)) && d.b[3].same(&h(8)));
    let scaled = v.scale(&[s(1), s(2), s(3), s(4)]).unwrap();
    assert!(scaled.a[2].same(&h(9)) && scaled.b[3].same(&h(32)));
    assert_eq!(v.scale(&[s(1)]).unwrap_err().kind(), ErrorKind::InvalidKeyLength);
    assert!(matches!(v.scale(&[]).unwrap_err(), Error::InvalidKeyLength));
    let (left, right) = v.split(1);
    assert_eq!((left.a.len(), left.b.len(), right.a.len(), right.b.len()), (1, 1, 3, 3));
    assert!(right.a[0].same(&h(2)) && right.b[2].same(&h(8)));
    assert_eq!(left.compress(&right, &s(2)).unwrap_err().kind(), ErrorKind::InvalidKeyLength);
    let (left, right) = vkey().split(2);
    let folded = left.compress(&right, &s(10)).unwrap();
    assert_eq!(folded.a.len(), 2);
    assert!(folded.a[0].same(&h(31)) && folded.a[1].same(&h(42)));
    assert!(folded.b[0].same(&h(75)) && folded.b[1].same(&h(86)));
}

#[test]
fn vectors_are_compressed_in_place() {
    let mut v = vec![g(1), g(2), g(3), g(4)];
    compress(&mut v, 2, &s(10));
    assert_eq!(v.len(), 2);
    assert!(v[0].same(&g(31)) && v[1].same(&g(42)));
    let mut odd = vec![g(1), g(2), g(3)];
    compress(&mut odd, 2, &s(10));
    assert_eq!(odd.len(), 2);
    assert!(odd[0].same(&g(31)) && odd[1].same(&g(2)));
    let mut whole = vec![g(1), g(2)];
    compress(&mut whole, 2, &s(10));
    assert!(whole[0].same(&g(1)) && whole[1].same(&g(2)));
}

#[test]
fn commitments_are_products_of_pairings() {
    let v = vkey();
    let w = wkey();
    let a = [g(1), g(1), g(1), g(1)];
    let b = [h(1), h(1), h(1), h(1)];
    let c = single_g1(&v, &a).unwrap();
    assert!(c.0.same(&gt(10)) && c.1.same(&gt(26)));
    let ab = pair(&v, &w, &a, &b).unwrap();
    assert!(ab.0.same(&gt(20)) && ab.1.same(&gt(52)));
    assert_eq!(single_g1(&v, &a[..3]).unwrap_err().kind(), ErrorKind::InvalidIPVectorLength);
    assert_eq!(pair(&v, &w, &a, &b[..2]).unwrap_err().kind(), ErrorKind::InvalidIPVectorLength);
}

#[test]
fn kzg_opening_needs_tables_of_the_polynomial_s_length() {
    let alpha = [g(1), g(2), g(3), g(4)];
    let beta = [g(5), g(6), g(7), g(8)];
    let poly = vec![s(6), s(11), s(6), s(1)];
    // (X + 1)(X + 2)(X + 3) has the value 24 at 1; its quotient by X - 1
    // after taking that away is X^2 + 7 X + 18.
    let o: KZGOpening<G1> = create_kzg_opening(&alpha, &beta, &poly, &s(24), &s(1)).unwrap();
    assert!(o.0.same(&g(18 + 14 + 3)));
    assert!(o.1.same(&g(18 * 5 + 7 * 6 + 7)));
    let e = create_kzg_opening(&alpha[..3], &beta, &poly, &s(24), &s(1)).unwrap_err();
    assert_eq!(e.kind(), ErrorKind::InvalidSRS);
    assert!(matches!(e, Error::InvalidSRS(_)));
    let e = create_kzg_opening(&alpha, &beta[..3], &poly, &s(24), &s(1)).unwrap_err();
    assert_eq!(e.kind(), ErrorKind::InvalidSRS);
}

#[test]
fn final_keys_are_opened_over_their_tables() {
    let x = [s(2), s(3)];
    let alpha = [h(1), h(2), h(3), h(4)];
    let beta = [h(5), h(6), h(7), h(8)];
    // f = 1 + 2 X + 3 X^2 + 6 X^3, f(1) = 12, (f - 12) / (X - 1) = 6 X^2 + 9 X + 11.
    let v = prove_commitment_v(&alpha, &beta, &x, &s(1)).unwrap();
    assert!(v.0.same(&h(11 + 18 + 18)));
    assert!(v.1.same(&h(55 + 54 + 42)));
    let e = prove_commitment_v(&alpha[..2], &beta[..2], &x, &s(1)).unwrap_err();
    assert_eq!(e.kind(), ErrorKind::InvalidSRS);
    let table: Vec<G1> = (1..9).map(g).collect();
    // X^4 f with the shift one: (X^4 f - 12) / (X - 1) has the coefficients
    // 12, 12, 12, 12, 11, 9, 6 and a zero to fill up.
    let w = prove_commitment_w(&table, &table, &x, &Scalar::one(), &s(1)).unwrap();
    let want = 12 * (1 + 2 + 3 + 4) + 11 * 5 + 9 * 6 + 6 * 7;
    assert!(w.0.same(&g(want)));
    assert!(w.1.same(&g(want)));
}

fn gen_pairing_check(r: &mut StdRng) -> PairingCheck {
    let a = rand_fr(r);
    let b = rand_fr(r);
    let g1r = g(1).mul(&a);
    let g2r = h(1).mul(&b);
    let exp = pairing(&[g1r], &[g2r]).unwrap();
    let tuple = PairingCheck::rand(r, &[(g1r, g2r)], &exp);
    assert!(tuple.verify());
    tuple
}

#[test]
fn test_pairing_randomize() {
    let mut rng = StdRng::seed_from_u64(0u64);
    let tuples = (0..3).map(|_| gen_pairing_check(&mut rng)).collect::<Vec<_>>();
    let final_tuple = tuples.iter().fold(PairingCheck::new(), |mut acc, tu| {
        acc.merge(&tu);
        acc
    });
    assert!(final_tuple.verify());
}

#[test]
fn a_batch_with_a_wrong_equation_fails() {
    let mut rng = StdRng::seed_from_u64(3u64);
    let good = gen_pairing_check(&mut rng);
    let wrong = PairingCheck::rand(&mut rng, &[(g(2), h(3))], &gt(7));
    assert!(!wrong.verify());
    let right = PairingCheck::rand(&mut rng, &[(g(2), h(3))], &gt(6));
    assert!(right.verify());
    let mut batch = PairingCheck::new();
    batch.merge(&good);
    batch.merge(&right);
    assert!(batch.verify());
    batch.merge(&wrong);
    assert!(!batch.verify());
    let with_coeff = PairingCheck::rand_with(&s(5), &[(g(2), h(3)), (g(1), h(1))], &gt(7));
    assert!(with_coeff.verify());
    let trivial = PairingCheck::rand_with(&s(5), &[(g(2), h(3)), (g(6).neg(), h(1))], &Fq12::one());
    assert!(trivial.verify());
}

#[test]
fn checks_that_are_not_randomised() {
    assert!(PairingCheck::new().verify());
    assert!(!PairingCheck::new_invalid().verify());
    let m = miller_loop(&[g(2)], &[h(3)]);
    let n = miller_loop(&[g(1)], &[h(1)]);
    let check = PairingCheck::from_products(vec![m, n], gt(7));
    assert!(check.verify());
    assert!(!PairingCheck::from_products(vec![m, n], gt(6)).verify());
    assert!(PairingCheck::from_products(vec![], Fq12::one()).verify());
    let mut one = PairingCheck::new();
    one.merge(&check);
    assert!(one.verify());
    one.merge(&check);
    assert!(!one.verify());
    let mut poisoned = PairingCheck::new();
    poisoned.merge(&PairingCheck::new_invalid());
    assert!(!poisoned.verify());
}

#[test]
fn a_side_that_is_one_is_not_multiplied() {
    let mut left = Fq12::one();
    mul_if_not_one(&mut left, &gt(3));
    assert!(left.same(&gt(3)));
    mul_if_not_one(&mut left, &Fq12::one());
    assert!(left.same(&gt(3)));
    mul_if_not_one(&mut left, &gt(4));
    assert!(left.same(&gt(7)));
}

#[test]
fn random_scalars_are_not_zero() {
    let mut rng = StdRng::seed_from_u64(11);
    let mut last = Scalar::zero();
    for _ in 0..200 {
        let c = rand_fr(&mut rng);
        assert!(!c.is_zero());
        assert!(!c.eq(&last));
        last = c;
    }
}

#[test]
fn transcript() {
    let mut transcript = new_keccak_transcript();
    transcript.append(&g(1));
    let f1 = transcript.challenge_scalar();
    let mut transcript2 = new_keccak_transcript();
    transcript2.append(&g(1));
    let f2 = transcript2.challenge_scalar();
    assert_eq!(limbs(&f1), limbs(&f2));
}

#[test]
fn challenges_are_those_of_the_rolling_keccak_transcript() {
    let point = G1Projective::prime_subgroup_generator().into_affine();
    let mut buff = Vec::new();
    ark_serialize::CanonicalSerialize::serialize(&point, &mut buff).unwrap();
    assert_eq!(buff, g(1).to_canonical_bytes());
    let mut reference = RollingKeccakTranscript::<bellman_ce::bn256::Fr>::new();
    reference.commit_bytes(&buff);
    let mut ours = new_keccak_transcript();
    ours.append(&g(1));
    for _ in 0..3 {
        let el = reference.get_challenge();
        let mut bytes = Vec::new();
        bellman_ce::PrimeField::into_repr(&el).write_le(&mut bytes).unwrap();
        let want = Fr::from_random_bytes(&bytes).unwrap();
        assert_eq!(limbs(&ours.challenge_scalar()), want.into_repr().0);
    }
}

#[test]
fn challenges_depend_on_all_that_was_absorbed() {
    let challenge_after = |values: &[G1]| {
        let mut t = new_keccak_transcript();
        for v in values {
            t.append(v);
        }
        limbs(&t.challenge_scalar())
    };
    let base = challenge_after(&[g(1), g(2)]);
    assert_eq!(base, challenge_after(&[g(1), g(2)]));
    assert_ne!(base, challenge_after(&[g(2), g(1)]));
    assert_ne!(base, challenge_after(&[g(1)]));
    assert_ne!(base, challenge_after(&[g(1), g(3)]));
    assert_ne!(base, [0, 0, 0, 0]);
    let mut t = new_keccak_transcript();
    t.domain_sep();
    t.append(&g(1));
    t.append(&g(2));
    let first = limbs(&t.challenge_scalar());
    assert_eq!(first, base);
    let second = limbs(&t.challenge_scalar());
    assert_ne!(first, second);
}

#[test]
fn every_kind_of_value_is_absorbed() {
    let challenge_of = |bytes: Vec<u8>| {
        assert!(!bytes.is_empty());
        bytes
    };
    let a = challenge_of(s(5).to_canonical_bytes());
    assert_eq!(a.len(), 32);
    assert_eq!(a[0], 5);
    assert_eq!(challenge_of(g(1).to_canonical_bytes()).len(), 32);
    assert_eq!(challenge_of(h(1).to_canonical_bytes()).len(), 64);
    assert_eq!(challenge_of(gt(1).to_canonical_bytes()).len(), 384);
    assert_eq!(challenge_of((gt(1), gt(2)).to_canonical_bytes()).len(), 768);
    let rows = vec![vec![s(1), s(2)], vec![s(3)]];
    let bytes = rows.to_canonical_bytes();
    assert_eq!(bytes.len(), 8 + 8 + 64 + 8 + 32);
    assert_eq!(bytes[0], 2);
    assert_eq!(bytes[16], 1);
    assert_ne!(g(1).to_canonical_bytes(), g(2).to_canonical_bytes());
    assert_ne!(h(1).to_canonical_bytes(), h(2).to_canonical_bytes());
    assert_ne!(gt(1).to_canonical_bytes(), gt(2).to_canonical_bytes());
    let mut first = new_keccak_transcript();
    first.append(&rows);
    let mut second = new_keccak_transcript();
    second.append(&vec![vec![s(1), s(2)], vec![s(4)]]);
    assert_ne!(limbs(&first.challenge_scalar()), limbs(&second.challenge_scalar()));
}

#[test]
fn the_reference_string_is_cut_to_size() {
    let srs = GenericSRS {
        g_alpha_powers: (1..9).map(g).collect(),
        h_alpha_powers: (1..9).map(h).collect(),
        g_beta_powers: (11..19).map(g).collect(),
        h_beta_powers: (11..19).map(h).collect(),
    };
    let (p, v) = srs.specialize(4);
    assert_eq!(p.n, 4);
    assert!(p.has_correct_len(4));
    assert!(!p.has_correct_len(8));
    assert_eq!(p.g_alpha_powers_table.len(), 8);
    assert_eq!(p.g_beta_powers_table.len(), 8);
    assert_eq!(p.h_alpha_powers_table.len(), 4);
    assert_eq!(p.h_beta_powers_table.len(), 4);
    assert!(p.vkey.a[0].same(&h(1)) && p.vkey.b[3].same(&h(14)));
    assert!(p.wkey.a[0].same(&g(5)) && p.wkey.b[3].same(&g(18)));
    assert_eq!(v.n, 4);
    assert!(v.g.same(&g(1)) && v.h.same(&h(1)));
    assert!(v.g_alpha.same(&g(2)) && v.g_beta.same(&g(12)));
    assert!(v.h_alpha.same(&h(2)) && v.h_beta.same(&h(12)));
    assert!(v.vkey_first.0.same(&h(1)) && v.vkey_first.1.same(&h(11)));
    assert!(v.wkey_first.0.same(&g(5)) && v.wkey_first.1.same(&g(15)));
}

#[test]
fn generators_and_their_multiples() {
    assert!(G1::generator().same(&g(1)));
    assert!(G2::generator().same(&h(1)));
    let powers = structured_generators_scalar_power(4, &g(1), &s(3));
    assert_eq!(powers.len(), 4);
    assert!(powers[0].same(&g(1)) && powers[1].same(&g(3)));
    assert!(powers[2].same(&g(9)) && powers[3].same(&g(27)));
    let many = g(2).fixed_products(&(0..40).map(s).collect::<Vec<_>>());
    assert_eq!(many.len(), 40);
    assert!(many[39].same(&g(78)));
    assert!(h(2).fixed_products(&[s(5)])[0].same(&h(10)));
    assert!(h(2).fixed_products(&[]).is_empty());
}

#[test]
fn a_reference_string_for_tests() {
    let srs = setup_fake_srs_with(&s(2), &s(3), 2);
    assert_eq!(srs.g_alpha_powers.len(), 4);
    assert_eq!(srs.h_alpha_powers.len(), 4);
    assert_eq!(srs.g_beta_powers.len(), 4);
    assert_eq!(srs.h_beta_powers.len(), 4);
    assert!(srs.g_alpha_powers[3].same(&g(8)) && srs.h_alpha_powers[2].same(&h(4)));
    assert!(srs.g_beta_powers[3].same(&g(27)) && srs.h_beta_powers[0].same(&h(1)));
    let mut rng = StdRng::seed_from_u64(5);
    let drawn = setup_fake_srs(&mut rng, 4);
    assert_eq!(drawn.g_alpha_powers.len(), 8);
    assert!(drawn.g_alpha_powers[0].same(&g(1)));
    assert!(!drawn.g_alpha_powers[1].same(&drawn.g_beta_powers[1]));
    let (p, _) = drawn.specialize(4);
    assert!(p.has_correct_len(4));
}

fn strings(v: &[&str]) -> Vec<String> {
    v.iter().map(|x| x.to_string()).collect()
}

/// The decimal numeral of the integer in four limbs, least significant first.
fn decimal(mut limbs: [u64; 4]) -> String {
    let mut digits = Vec::new();
    while limbs != [0, 0, 0, 0] {
        let mut rem: u128 = 0;
        for l in limbs.iter_mut().rev() {
            let cur = (rem << 64) | (*l as u128);
            *l = (cur / 10) as u64;
            rem = cur % 10;
        }
        digits.push(char::from(b'0' + rem as u8));
    }
    if digits.is_empty() {
        digits.push('0');
    }
    digits.iter().rev().collect()
}

fn numeral(x: &ark_bn254::Fq) -> String {
    decimal(x.into_repr().0)
}

fn g1_strings(p: &ark_bn254::G1Affine) -> Vec<String> {
    vec![numeral(&p.x), numeral(&p.y), "1".to_string()]
}

fn g2_strings(p: &ark_bn254::G2Affine) -> Vec<Vec<String>> {
    vec![
        vec![numeral(&p.x.c0), numeral(&p.x.c1)],
        vec![numeral(&p.y.c0), numeral(&p.y.c1)],
        strings(&["1", "0"]),
    ]
}

#[test]
fn limbs_are_written_as_numerals() {
    assert_eq!(decimal([0, 0, 0, 0]), "0");
    assert_eq!(decimal([0, 1, 0, 0]), "18446744073709551616");
    assert_eq!(
        decimal(R_LIMBS),
        "21888242871839275222246405745257275088548364400416034343698204186575808495617"
    );
    assert_eq!(limbs(&Scalar::from_decimal(&decimal([7, 9, 11, 13])).unwrap()), [7, 9, 11, 13]);
}

#[test]
fn points_are_read_from_numerals() {
    assert!(g1_from_str(&strings(&["1", "2", "1"])).same(&g(1)));
    // in Jacobian coordinates (4, 16, 2) is the point (1, 2)
    assert!(g1_from_str(&strings(&["4", "16", "2"])).same(&g(1)));
    let q = G2Projective::prime_subgroup_generator().mul(&[5]).into_affine();
    assert!(g2_from_str(&g2_strings(&q)).same(&h(5)));
    let p = G1Projective::prime_subgroup_generator().mul(&[9]).into_affine();
    let proof = SnarkJSProof {
        curve: "bn128".to_string(),
        protocol: "groth16".to_string(),
        pi_a: g1_strings(&p),
        pi_b: g2_strings(&q),
        pi_c: strings(&["1", "2", "1"]),
    };
    let converted = proof.to_proof();
    assert!(converted.a.same(&g(9)) && converted.b.same(&h(5)) && converted.c.same(&g(1)));
}

#[test]
fn verifying_keys_are_read_and_prepared() {
    let point = |k: u64| G1Projective::prime_subgroup_generator().mul(&[k]).into_affine();
    let twist = |k: u64| G2Projective::prime_subgroup_generator().mul(&[k]).into_affine();
    let vk_json = SnarkJSVK {
        curve: "bn128".to_string(),
        protocol: "groth16".to_string(),
        n_public: 2,
        vk_alpha_1: g1_strings(&point(2)),
        vk_beta_2: g2_strings(&twist(3)),
        vk_gamma_2: g2_strings(&twist(4)),
        vk_delta_2: g2_strings(&twist(5)),
        vk_alphabeta_12: vec![],
        ic: vec![g1_strings(&point(6)), g1_strings(&point(7)), g1_strings(&point(8))],
    };
    let vk: VerifyingKey = vk_json.to_verifying_key();
    assert!(vk.alpha_g1.same(&g(2)) && vk.beta_g2.same(&h(3)));
    assert!(vk.gamma_g2.same(&h(4)) && vk.delta_g2.same(&h(5)));
    assert_eq!(vk.gamma_abc_g1.len(), 3);
    assert!(vk.gamma_abc_g1[2].same(&g(8)));
    let pvk = get_prepared_verifying_key(vk_json).unwrap();
    assert!(pvk.alpha_g1_beta_g2.same(&gt(6)));
    assert!(pvk.vk.delta_g2.same(&h(5)));
    let reference = ark_groth16::prepare_verifying_key(&ark_groth16::VerifyingKey::<Bn254> {
        alpha_g1: point(2),
        beta_g2: twist(3),
        gamma_g2: twist(4),
        delta_g2: twist(5),
        gamma_abc_g1: vec![point(6), point(7), point(8)],
    });
    assert!(pvk.alpha_g1_beta_g2.same(&fq12(&reference.alpha_g1_beta_g2)));
    assert_eq!(pvk.gamma_g2_neg_pc.ell_coeffs.len(), reference.gamma_g2_neg_pc.ell_coeffs.len());
    assert_eq!(pvk.gamma_g2_neg_pc.infinity, reference.gamma_g2_neg_pc.infinity);
    let mut first = [0u8; 64];
    reference.delta_g2_neg_pc.ell_coeffs[3].1.write(&mut first[..]).unwrap();
    assert_eq!(pvk.delta_g2_neg_pc.ell_coeffs[3].1.to_bytes(), first);
    let again = prepare_verifying_key(vk).unwrap();
    assert!(again.alpha_g1_beta_g2.same(&pvk.alpha_g1_beta_g2));
}

#[test]
fn errors_have_kinds() {
    assert_eq!(Error::InvalidProof("x".to_string()).kind(), ErrorKind::InvalidProof);
    assert_eq!(Error::InvalidSRS("x".to_string()).kind(), ErrorKind::InvalidSRS);
    assert_eq!(Error::MalformedProof.kind(), ErrorKind::MalformedProof);
    assert_eq!(Error::MalformedVerifyingKey.kind(), ErrorKind::MalformedVerifyingKey);
    assert_eq!(Error::InvalidIPVectorLength.kind(), ErrorKind::InvalidIPVectorLength);
    assert_eq!(Error::InvalidKeyLength.kind(), ErrorKind::InvalidKeyLength);
    assert_eq!(Error::InvalidPairing.kind(), ErrorKind::InvalidPairing);
    assert_eq!(Error::PairingCheckFailed.kind(), ErrorKind::PairingCheckFailed);
}

#[test]
fn scalars_of_the_outside_field_are_taken_as_they_are() {
    let x = Fr::from(5u64) * Fr::from(7u64) + Fr::one() - Fr::zero();
    assert_eq!(limbs(&scalar(&x)), [36, 0, 0, 0]);
}

#[test]
fn the_quotient_of_an_opening() {
    let values = |q: &Vec<Scalar>| q.iter().map(limbs).collect::<Vec<_>>();
    let minus_one = s(1).neg();
    // (X + 1)(X + 2)(X + 3) - 24 = (X - 1)(X^2 + 7 X + 18)
    let q = opening_quotient(&vec![s(6), s(11), s(6), s(1)], &s(24), &minus_one);
    assert_eq!(values(&q), vec![limbs(&s(18)), limbs(&s(7)), limbs(&s(1))]);
    // what is taken away is the remainder's business, not the quotient's
    let q = opening_quotient(&vec![s(6), s(11), s(6), s(1)], &s(5), &minus_one);
    assert_eq!(values(&q), vec![limbs(&s(18)), limbs(&s(7)), limbs(&s(1))]);
    // 3 X^2 + 2 X + 1 by X + 2 is 3 X - 4
    let q = opening_quotient(&vec![s(1), s(2), s(3), s(0), s(0)], &s(0), &s(2));
    assert_eq!(values(&q), vec![limbs(&s(4).neg()), limbs(&s(3))]);
    // a constant, or nothing at all, leaves no quotient
    assert!(opening_quotient(&vec![s(7)], &s(7), &minus_one).is_empty());
    assert!(opening_quotient(&vec![s(7)], &s(2), &minus_one).is_empty());
    assert!(opening_quotient(&vec![], &s(2), &minus_one).is_empty());
    // X - 5 less a constant that is longer than nothing: 1
    let q = opening_quotient(&vec![s(5).neg(), s(1)], &s(9), &s(5).neg());
    assert_eq!(values(&q), vec![limbs(&s(1))]);
}

#[test]
fn jacobian_coordinates_with_a_plain_third() {
    let one = fq_from_str(&"1".to_string());
    let two = fq_from_str(&"2".to_string());
    let zero = fq_from_str(&"0".to_string());
    // with the third coordinate one the first two are the point
    let p = G1::from_jacobian(&one, &two, &one);
    let mut want = [0u8; 65];
    want[..32].copy_from_slice(&one.to_bytes());
    want[32..64].copy_from_slice(&two.to_bytes());
    assert_eq!(p.to_bytes(), want);
    assert!(p.same(&G1::generator()));
    // with the third coordinate zero it is the point at infinity
    let inf = G1::from_jacobian(&two, &one, &zero);
    let mut want = [0u8; 65];
    want[32] = 1;
    want[64] = 1;
    assert_eq!(inf.to_bytes(), want);
    assert!(g1_from_str(&strings(&["7", "9", "0"])).same(&inf));
    assert!(g(5).add(&inf).same(&g(5)));

    let q = G2Projective::prime_subgroup_generator().mul(&[5]).into_affine();
    let numerals = g2_strings(&q);
    let x = Fq2::new(fq_from_str(&numerals[0][0]), fq_from_str(&numerals[0][1]));
    let y = Fq2::new(fq_from_str(&numerals[1][0]), fq_from_str(&numerals[1][1]));
    let unit = Fq2::new(one, zero);
    let null = Fq2::new(zero, zero);
    let p = G2::from_jacobian(&x, &y, &unit);
    let mut want = [0u8; 129];
    want[..64].copy_from_slice(&x.to_bytes());
    want[64..128].copy_from_slice(&y.to_bytes());
    assert_eq!(p.to_bytes(), want);
    assert!(p.same(&h(5)));
    let inf = G2::from_jacobian(&x, &y, &null);
    let mut want = [0u8; 129];
    want[64] = 1;
    want[128] = 1;
    assert_eq!(inf.to_bytes(), want);
    assert!(h(3).add(&inf).same(&h(3)));
    // a third coordinate (0, 1) is neither
    let other = G2::from_jacobian(&x, &y, &Fq2::new(zero, one));
    assert!(!other.same(&inf) && !other.same(&p));
}

#[test]
fn fixed_products_are_one_for_each_scalar() {
    for n in [0usize, 1, 2, 31, 32, 33, 100] {
        let scalars: Vec<Scalar> = (0..n as u64).map(|k| s(3 * k + 1)).collect();
        let in_g1 = g(2).fixed_products(&scalars);
        let in_g2 = h(3).fixed_products(&scalars);
        assert_eq!(in_g1.len(), n);
        assert_eq!(in_g2.len(), n);
        for k in 0..n {
            assert!(in_g1[k].same(&g(2).mul(&scalars[k])));
            assert!(in_g2[k].same(&h(3).mul(&scalars[k])));
        }
    }
    let big = s(1).neg();
    assert!(g(1).fixed_products(&[big])[0].same(&g(1).neg()));
    let srs = setup_fake_srs_with(&s(5), &s(7), 16);
    assert_eq!(srs.g_alpha_powers.len(), 32);
    assert_eq!(srs.h_beta_powers.len(), 32);
    assert!(srs.g_alpha_powers[2].same(&g(25)) && srs.h_beta_powers[2].same(&h(49)));
    let (p, v) = srs.specialize(16);
    assert!(p.has_correct_len(16));
    assert_eq!(v.n, 16);
}

#[test]
fn the_argument_records_each_challenge_with_its_inverse() {
    let a = [g(1), g(2), g(3), g(4)];
    let b = [h(5), h(6), h(7), h(8)];
    let c = [g(9), g(10), g(11), g(12)];
    let r = [s(1), s(3), s(9), s(27)];
    let mut t = new_keccak_transcript();
    let (proof, challenges, inverses) =
        gipa_tipp_mipp(&mut t, &a, &b, &c, &vkey(), &wkey(), &r, &gt(7), &g(13)).unwrap();
    assert_eq!(proof.nproofs, 4);
    assert_eq!(proof.comms_ab.len(), 2);
    assert_eq!(challenges.len(), 2);
    assert_eq!(inverses.len(), 2);
    for k in 0..2 {
        assert!(!challenges[k].is_zero());
        assert!(challenges[k].mul(&inverses[k]).eq(&Scalar::one()));
    }
    assert!(!challenges[0].eq(&challenges[1]));
    // the first challenge is the one drawn after the two inner products
    let mut u = new_keccak_transcript();
    u.append(&gt(7));
    u.append(&g(13));
    assert!(u.challenge_scalar().eq(&inverses[0]));
}

#[test]
fn a_round_commits_to_the_crossed_halves() {
    let a = [g(1), g(2), g(3), g(4)];
    let b = [h(5), h(6), h(7), h(8)];
    let c = [g(9), g(10), g(11), g(12)];
    let r = [s(1), s(3), s(9), s(27)];
    let (vl, vr) = vkey().split(2);
    let (wl, wr) = wkey().split(2);
    let t = round_terms(&a, &b, &c, &r, &vl, &vr, &wl, &wr, 2).unwrap();
    // the inner products of each upper half with the other side's lower half
    assert!(t.2.same(&gt(3 * 5 + 4 * 6)));
    assert!(t.3.same(&gt(1 * 7 + 2 * 8)));
    assert!(t.4.same(&g(11 * 1 + 12 * 3)));
    assert!(t.5.same(&g(9 * 9 + 10 * 27)));
    let tab_l = pair(&vl, &wr, &a[2..], &b[..2]).unwrap();
    assert!(t.0.0.same(&tab_l.0) && t.0.1.same(&tab_l.1));
    let tuc_r = single_g1(&vr, &c[..2]).unwrap();
    assert!(t.7.0.same(&tuc_r.0) && t.7.1.same(&tuc_r.1));
}
