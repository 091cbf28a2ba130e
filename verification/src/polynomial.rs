//! The polynomial whose coefficients are the final commitment keys' exponents:
//! `f(X) = (1 + x_0 (sX)) (1 + x_1 (sX)^2) (1 + x_2 (sX)^4) ...`, for the
//! challenges `x` of the rounds, last round first, and a shift `s`.

use crate::algebra::{
    lemma_fr_add_associative, lemma_fr_add_reduced, lemma_fr_distributive,
    lemma_fr_mul_associative, lemma_fr_mul_commutative, lemma_fr_mul_one, lemma_fr_pow_add,
    lemma_fr_pow_of_product,
};
use crate::field::{
    fr_add_spec, fr_modulus, fr_mul_spec, fr_pow_spec, fr_sub_spec, fr_values, Scalar,
};
use ark_ff::{BigInteger256, PrimeField};
use ark_poly::polynomial::univariate::DensePolynomial;
use ark_poly::polynomial::{Polynomial, UVPolynomial};
use vstd::prelude::*;

verus! {

/// `s` squared `k` times: `s^(2^k)`.
pub open spec fn squared_times(s: nat, k: nat) -> nat
    decreases k,
{
    if k == 0 {
        s
    } else {
        let p = squared_times(s, (k - 1) as nat);
        fr_mul_spec(p, p)
    }
}

/// The coefficients of `f`, lowest first: for each further challenge the table
/// doubles, the new half being the old one times `x_k s^(2^k)`.
pub open spec fn coefficients_spec(x: Seq<nat>, s: nat) -> Seq<nat>
    decreases x.len(),
{
    if x.len() == 0 {
        seq![1nat]
    } else {
        let prev = coefficients_spec(x.drop_last(), s);
        let m = fr_mul_spec(x.last(), squared_times(s, (x.len() - 1) as nat));
        prev + Seq::new(prev.len(), |j: int| fr_mul_spec(prev[j], m))
    }
}

/// The value of `f` at `z`, as the product of its factors.
pub open spec fn product_form_spec(x: Seq<nat>, z: nat, s: nat) -> nat
    decreases x.len(),
{
    if x.len() <= 1 {
        fr_add_spec(1, fr_mul_spec(x[0], fr_mul_spec(z, s)))
    } else {
        fr_mul_spec(
            product_form_spec(x.drop_last(), z, s),
            fr_add_spec(
                1,
                fr_mul_spec(x.last(), squared_times(fr_mul_spec(z, s), (x.len() - 1) as nat)),
            ),
        )
    }
}

/// The value at `z` of the polynomial with the coefficients `c`, lowest first.
pub open spec fn evaluate_spec(c: Seq<nat>, z: nat) -> nat
    decreases c.len(),
{
    if c.len() == 0 {
        0
    } else {
        fr_add_spec(c[0], fr_mul_spec(z, evaluate_spec(c.drop_first(), z)))
    }
}

/// The coefficients without the zeros above the highest non-zero one.
pub open spec fn trimmed_spec(c: Seq<nat>) -> Seq<nat>
    decreases c.len(),
{
    if c.len() > 0 && c.last() == 0 {
        trimmed_spec(c.drop_last())
    } else {
        c
    }
}

/// The coefficient of `X^i` in `c`: zero above the highest that `c` holds.
pub open spec fn coefficient_at(c: Seq<nat>, i: int) -> nat {
    if 0 <= i < c.len() {
        c[i]
    } else {
        0
    }
}

/// The coefficients of `a - b`, without the zeros above the highest non-zero
/// one.
pub open spec fn difference_spec(a: Seq<nat>, b: Seq<nat>) -> Seq<nat> {
    let (p, q) = (trimmed_spec(a), trimmed_spec(b));
    let n = if p.len() >= q.len() {
        p.len()
    } else {
        q.len()
    };
    trimmed_spec(
        Seq::new(n, |i: int| fr_sub_spec(coefficient_at(p, i), coefficient_at(q, i))),
    )
}

/// Coefficients without zeros above the highest non-zero one have none left
/// to drop.
pub proof fn lemma_trimmed_is_trimmed(c: Seq<nat>)
    ensures
        trimmed_spec(trimmed_spec(c)) == trimmed_spec(c),
    decreases c.len(),
{
    if c.len() > 0 && c.last() == 0 {
        lemma_trimmed_is_trimmed(c.drop_last());
    }
}

/// The quotient of the polynomial `p` by `X + d`: its coefficient `i` is that
/// of `p` at `i + 1`, minus `d` times the quotient's own next coefficient.
pub open spec fn linear_quotient_spec(p: Seq<nat>, d: nat) -> Seq<nat>
    decreases p.len(),
{
    if p.len() <= 1 {
        Seq::empty()
    } else {
        let rest = linear_quotient_spec(p.drop_first(), d);
        let next = if rest.len() == 0 {
            0
        } else {
            rest[0]
        };
        seq![fr_sub_spec(p[1], fr_mul_spec(d, next))] + rest
    }
}

/// The quotient of `poly - eval` by `X + d`.
pub open spec fn opening_quotient_spec(poly: Seq<nat>, eval: nat, d: nat) -> Seq<nat> {
    linear_quotient_spec(difference_spec(poly, seq![eval]), d)
}

/// The coefficients brought to the length `n`: cut, or filled up with zeros.
pub open spec fn resized_spec(c: Seq<nat>, n: nat) -> Seq<nat> {
    Seq::new(
        n,
        |i: int|
            if i < c.len() {
                c[i]
            } else {
                0
            },
    )
}

/// The value at `z` of `f(X) = (1 + x_0 (sX)) (1 + x_1 (sX)^2) ...`, in as
/// many steps as there are challenges. `transcript` holds the challenges of
/// the rounds, last round first.
pub fn polynomial_evaluation_product_form_from_transcript(
    transcript: &[Scalar],
    z: &Scalar,
    r_shift: &Scalar,
) -> (res: Scalar)
    requires
        transcript.len() >= 1,
    ensures
        res@ == product_form_spec(fr_values(transcript@), z@, r_shift@),
{
    let ghost x = fr_values(transcript@);
    let mut power_zr = z.mul(r_shift);
    let one = Scalar::one();
    let mut res = one.add(&transcript[0].mul(&power_zr));
    proof {
        assert(x.subrange(0, 1)[0] == x[0]);
    }
    let mut i: usize = 1;
    while i < transcript.len()
        invariant
            1 <= i <= transcript.len(),
            x == fr_values(transcript@),
            one@ == 1,
            power_zr@ == squared_times(fr_mul_spec(z@, r_shift@), (i - 1) as nat),
            res@ == product_form_spec(x.subrange(0, i as int), z@, r_shift@),
        decreases transcript.len() - i,
    {
        power_zr = power_zr.square();
        res = res.mul(&one.add(&transcript[i].mul(&power_zr)));
        proof {
            let next = x.subrange(0, i + 1);
            assert(next.drop_last() =~= x.subrange(0, i as int));
            assert(next.last() == transcript@[i as int]@);
        }
        i += 1;
    }
    proof {
        assert(x.subrange(0, transcript.len() as int) =~= x);
    }
    res
}

/// The coefficients of `f(X) = (1 + x_0 (sX)) (1 + x_1 (sX)^2) ...`, lowest
/// first, built by doubling. `transcript` holds the challenges of the rounds,
/// last round first.
pub fn polynomial_coefficients_from_transcript(transcript: &[Scalar], r_shift: &Scalar) -> (r: Vec<
    Scalar,
>)
    ensures
        fr_values(r@) == coefficients_spec(fr_values(transcript@), r_shift@),
{
    let ghost x = fr_values(transcript@);
    let mut coefficients: Vec<Scalar> = Vec::new();
    coefficients.push(Scalar::one());
    let mut power_2_r = *r_shift;
    proof {
        assert(fr_values(coefficients@) =~= coefficients_spec(x.subrange(0, 0), r_shift@));
    }
    let mut i: usize = 0;
    while i < transcript.len()
        invariant
            i <= transcript.len(),
            x == fr_values(transcript@),
            i > 0 ==> power_2_r@ == squared_times(r_shift@, (i - 1) as nat),
            i == 0 ==> power_2_r@ == r_shift@,
            fr_values(coefficients@) == coefficients_spec(x.subrange(0, i as int), r_shift@),
        decreases transcript.len() - i,
    {
        let n = coefficients.len();
        if i > 0 {
            power_2_r = power_2_r.square();
        }
        let m = transcript[i].mul(&power_2_r);
        let ghost prev = fr_values(coefficients@);
        let mut j: usize = 0;
        while j < n
            invariant
                j <= n,
                coefficients.len() == n + j,
                fr_values(coefficients@).subrange(0, n as int) == prev,
                prev.len() == n,
                forall|k: int|
                    0 <= k < j ==> (#[trigger] coefficients@[n + k])@ == fr_mul_spec(prev[k], m@),
            decreases n - j,
        {
            let ghost before = fr_values(coefficients@);
            let coeff = coefficients[j].mul(&m);
            proof {
                assert(before.subrange(0, n as int)[j as int] == before[j as int]);
            }
            coefficients.push(coeff);
            proof {
                assert(fr_values(coefficients@).subrange(0, n as int) =~= before.subrange(
                    0,
                    n as int,
                ));
            }
            j += 1;
        }
        proof {
            let next = x.subrange(0, i + 1);
            assert(next.drop_last() =~= x.subrange(0, i as int));
            assert(next.last() == transcript@[i as int]@);
            let want = coefficients_spec(next, r_shift@);
            let got = fr_values(coefficients@);
            assert(got.len() == want.len());
            assert forall|k: int| 0 <= k < got.len() implies got[k] == want[k] by {
                if k < n {
                    assert(got.subrange(0, n as int)[k] == got[k]);
                } else {
                    assert(got[k] == coefficients@[n + (k - n)]@);
                }
            }
            assert(got =~= want);
        }
        i += 1;
    }
    proof {
        assert(x.subrange(0, transcript.len() as int) =~= x);
    }
    coefficients
}

/// The value at `z` of the polynomial with the coefficients `coeffs`, lowest
/// first.
pub fn evaluate(coeffs: &Vec<Scalar>, z: &Scalar) -> (r: Scalar)
    ensures
        r@ == evaluate_spec(fr_values(coeffs@), z@),
{
    poly_evaluate(coeffs, z)
}

/// `Polynomial::evaluate` on a `DensePolynomial` over `ark_bn254::Fr`: the
/// value of the polynomial at the point, by Horner's rule.
#[verifier::external_body]
fn poly_evaluate(coeffs: &Vec<Scalar>, z: &Scalar) -> (r: Scalar)
    ensures
        r@ == evaluate_spec(fr_values(coeffs@), z@),
{
    let f = |x: &Scalar| ark_bn254::Fr::from_repr(BigInteger256(x.to_limbs())).unwrap();
    let p = DensePolynomial::from_coefficients_vec(coeffs.iter().map(f).collect());
    Scalar::from_limbs(p.evaluate(&f(z)).into_repr().0).unwrap()
}

/// `DensePolynomial::from_coefficients_vec` on `ark_bn254::Fr`, read back as
/// coefficients: the zeros above the highest non-zero coefficient are dropped.
#[verifier::external_body]
pub(crate) fn poly_from_coefficients(coeffs: &Vec<Scalar>) -> (r: Vec<Scalar>)
    ensures
        fr_values(r@) == trimmed_spec(fr_values(coeffs@)),
{
    let c = coeffs.iter().map(|x| ark_bn254::Fr::from_repr(BigInteger256(x.to_limbs())).unwrap());
    let p = DensePolynomial::from_coefficients_vec(c.collect());
    p.coeffs.iter().map(|y| Scalar::from_limbs(y.into_repr().0).unwrap()).collect()
}

/// The subtraction of one `DensePolynomial` over `ark_bn254::Fr` from
/// another, each made by `from_coefficients_vec`: coefficient by coefficient,
/// the zeros above the highest non-zero one dropped.
#[verifier::external_body]
fn poly_sub(a: &Vec<Scalar>, b: &Vec<Scalar>) -> (r: Vec<Scalar>)
    ensures
        fr_values(r@) == difference_spec(fr_values(a@), fr_values(b@)),
{
    let f = |x: &Scalar| ark_bn254::Fr::from_repr(BigInteger256(x.to_limbs())).unwrap();
    let p = DensePolynomial::from_coefficients_vec(a.iter().map(f).collect());
    let q = DensePolynomial::from_coefficients_vec(b.iter().map(f).collect());
    (&p - &q).coeffs.iter().map(|y| Scalar::from_limbs(y.into_repr().0).unwrap()).collect()
}

/// The division of one `DensePolynomial` over `ark_bn254::Fr` by another,
/// each made by `from_coefficients_vec`, for a divisor `X + d`: the quotient,
/// by long division from the highest coefficient down.
#[verifier::external_body]
fn poly_div(a: &Vec<Scalar>, divisor: &Vec<Scalar>) -> (r: Vec<Scalar>)
    requires
        divisor.len() == 2,
        divisor@[1]@ == 1,
    ensures
        fr_values(r@) == linear_quotient_spec(trimmed_spec(fr_values(a@)), divisor@[0]@),
{
    let f = |x: &Scalar| ark_bn254::Fr::from_repr(BigInteger256(x.to_limbs())).unwrap();
    let p = DensePolynomial::from_coefficients_vec(a.iter().map(f).collect());
    let q = DensePolynomial::from_coefficients_vec(divisor.iter().map(f).collect());
    (&p / &q).coeffs.iter().map(|y| Scalar::from_limbs(y.into_repr().0).unwrap()).collect()
}

/// The quotient of `poly - eval` by `X + d`.
pub fn opening_quotient(poly: &Vec<Scalar>, eval: &Scalar, d: &Scalar) -> (r: Vec<Scalar>)
    ensures
        fr_values(r@) == opening_quotient_spec(fr_values(poly@), eval@, d@),
{
    let constant: Vec<Scalar> = vec![*eval];
    let divisor: Vec<Scalar> = vec![*d, Scalar::one()];
    let difference = poly_sub(poly, &constant);
    proof {
        assert(fr_values(constant@) =~= seq![eval@]);
        lemma_trimmed_is_trimmed(
            Seq::new(
                if trimmed_spec(fr_values(poly@)).len() >= trimmed_spec(seq![eval@]).len() {
                    trimmed_spec(fr_values(poly@)).len()
                } else {
                    trimmed_spec(seq![eval@]).len()
                },
                |i: int|
                    fr_sub_spec(
                        coefficient_at(trimmed_spec(fr_values(poly@)), i),
                        coefficient_at(trimmed_spec(seq![eval@]), i),
                    ),
            ),
        );
    }
    poly_div(&difference, &divisor)
}

/// Two to the power `k`.
pub open spec fn two_to(k: nat) -> nat
    decreases k,
{
    if k == 0 {
        1
    } else {
        2 * two_to((k - 1) as nat)
    }
}

/// The coefficients, each times `m`.
pub open spec fn scaled_spec(c: Seq<nat>, m: nat) -> Seq<nat> {
    Seq::new(c.len(), |j: int| fr_mul_spec(c[j], m))
}

/// The value of a polynomial is a canonical representative.
proof fn lemma_evaluate_reduced(c: Seq<nat>, z: nat)
    ensures
        evaluate_spec(c, z) < fr_modulus(),
{
}

/// Squaring `k` times raises to the power two to the `k`.
proof fn lemma_squared_times_is_power(a: nat, k: nat)
    requires
        a < fr_modulus(),
    ensures
        squared_times(a, k) == fr_pow_spec(a, two_to(k)),
    decreases k,
{
    if k == 0 {
        assert(fr_pow_spec(a, 1) == fr_mul_spec(a, fr_pow_spec(a, 0)));
        lemma_fr_mul_one(a);
    } else {
        let d = (k - 1) as nat;
        lemma_squared_times_is_power(a, d);
        lemma_fr_pow_add(a, two_to(d), two_to(d));
    }
}

/// The table of coefficients doubles with every challenge.
proof fn lemma_coefficients_len(x: Seq<nat>, s: nat)
    ensures
        coefficients_spec(x, s).len() == two_to(x.len()),
    decreases x.len(),
{
    if x.len() > 0 {
        lemma_coefficients_len(x.drop_last(), s);
    }
}

/// The value of the polynomial with the coefficients `a` followed by `b` is
/// the value of `a` plus `z` to the length of `a` times the value of `b`.
proof fn lemma_evaluate_concat(a: Seq<nat>, b: Seq<nat>, z: nat)
    ensures
        evaluate_spec(a + b, z) == fr_add_spec(
            evaluate_spec(a, z),
            fr_mul_spec(fr_pow_spec(z, a.len()), evaluate_spec(b, z)),
        ),
    decreases a.len(),
{
    let eb = evaluate_spec(b, z);
    lemma_evaluate_reduced(b, z);
    if a.len() == 0 {
        assert(a + b =~= b);
        lemma_fr_mul_one(eb);
        lemma_fr_add_reduced(0, eb);
    } else {
        let rest = a.drop_first();
        let er = evaluate_spec(rest, z);
        let p = fr_pow_spec(z, rest.len());
        assert((a + b).drop_first() =~= rest + b);
        assert((a + b)[0] == a[0]);
        lemma_evaluate_concat(rest, b, z);
        // z (er + p eb) == z er + (z p) eb
        lemma_fr_distributive(z, er, fr_mul_spec(p, eb));
        lemma_fr_mul_associative(z, p, eb);
        // a0 + (z er + t) == (a0 + z er) + t
        lemma_fr_add_associative(a[0], fr_mul_spec(z, er), fr_mul_spec(fr_mul_spec(z, p), eb));
        assert(fr_pow_spec(z, a.len()) == fr_mul_spec(z, p));
    }
}

/// The value of the polynomial with every coefficient times `m` is `m` times
/// the value of the polynomial.
proof fn lemma_evaluate_scaled(c: Seq<nat>, m: nat, z: nat)
    ensures
        evaluate_spec(scaled_spec(c, m), z) == fr_mul_spec(m, evaluate_spec(c, z)),
    decreases c.len(),
{
    if c.len() == 0 {
        assert(m * 0 == 0);
    } else {
        let rest = c.drop_first();
        let er = evaluate_spec(rest, z);
        assert(scaled_spec(c, m).drop_first() =~= scaled_spec(rest, m));
        lemma_evaluate_scaled(rest, m, z);
        // z (m er) == m (z er)
        lemma_fr_mul_associative(z, m, er);
        lemma_fr_mul_commutative(z, m);
        lemma_fr_mul_associative(m, z, er);
        lemma_fr_mul_commutative(c[0], m);
        lemma_fr_distributive(m, c[0], fr_mul_spec(z, er));
    }
}

/// For the polynomial `f` of the challenges `x` and the shift `s`, the value
/// at `z` computed as the product of its factors is the value at `z` of the
/// polynomial with the coefficients computed by doubling.
pub proof fn lemma_product_form_is_evaluation(x: Seq<nat>, z: nat, s: nat)
    requires
        x.len() >= 1,
        z < fr_modulus(),
        s < fr_modulus(),
        forall|i: int| 0 <= i < x.len() ==> x[i] < fr_modulus(),
    ensures
        product_form_spec(x, z, s) == evaluate_spec(coefficients_spec(x, s), z),
    decreases x.len(),
{
    let k = (x.len() - 1) as nat;
    let prev = x.drop_last();
    let table = coefficients_spec(prev, s);
    let m = fr_mul_spec(x.last(), squared_times(s, k));
    let e = evaluate_spec(table, z);
    let zs = fr_mul_spec(z, s);
    let w = fr_mul_spec(x.last(), squared_times(zs, k));
    let pz = fr_pow_spec(z, two_to(k));
    let ps = fr_pow_spec(s, two_to(k));
    assert(coefficients_spec(x, s) == table + scaled_spec(table, m));
    lemma_coefficients_len(prev, s);
    lemma_evaluate_concat(table, scaled_spec(table, m), z);
    lemma_evaluate_scaled(table, m, z);
    lemma_evaluate_reduced(table, z);
    lemma_squared_times_is_power(s, k);
    lemma_squared_times_is_power(zs, k);
    lemma_fr_pow_of_product(z, s, two_to(k));
    // pz (m e) == e w
    assert(fr_mul_spec(pz, fr_mul_spec(m, e)) == fr_mul_spec(e, w)) by {
        lemma_fr_mul_commutative(m, e);
        lemma_fr_mul_commutative(pz, fr_mul_spec(e, m));
        lemma_fr_mul_associative(e, m, pz);
        lemma_fr_mul_associative(x.last(), ps, pz);
        lemma_fr_mul_commutative(ps, pz);
    }
    // e + e w == e (1 + w)
    lemma_fr_distributive(e, 1, w);
    lemma_fr_mul_one(e);
    lemma_fr_add_reduced(e, fr_mul_spec(e, w));
    assert(evaluate_spec(coefficients_spec(x, s), z) == fr_mul_spec(e, fr_add_spec(1, w)));
    if x.len() == 1 {
        assert(prev.len() == 0);
        assert(table =~= seq![1nat]);
        assert(table.drop_first() =~= Seq::<nat>::empty());
        assert(e == 1) by {
            reveal_with_fuel(evaluate_spec, 3);
            assert(z * 0 == 0);
        }
        lemma_fr_mul_one(fr_add_spec(1, w));
        assert(squared_times(zs, 0) == zs);
    } else {
        lemma_product_form_is_evaluation(prev, z, s);
    }
}

} // verus!
