//! The laws of the scalar field's arithmetic that the proofs of this library
//! rest on, each proved from the integers.

use crate::field::{fr_add_spec, fr_is_inverse, fr_modulus, fr_mul_spec, fr_pow_spec};
use vstd::arithmetic::div_mod::{
    lemma_add_mod_noop, lemma_mul_mod_noop_general, lemma_small_mod,
};
use vstd::arithmetic::mul::{
    lemma_mul_is_associative, lemma_mul_is_commutative, lemma_mul_is_distributive_add,
};
use vstd::prelude::*;

verus! {

/// Multiplication in the field is commutative.
pub proof fn lemma_fr_mul_commutative(a: nat, b: nat)
    ensures
        fr_mul_spec(a, b) == fr_mul_spec(b, a),
{
    lemma_mul_is_commutative(a as int, b as int);
}

/// Multiplication in the field is associative.
pub proof fn lemma_fr_mul_associative(a: nat, b: nat, c: nat)
    ensures
        fr_mul_spec(fr_mul_spec(a, b), c) == fr_mul_spec(a, fr_mul_spec(b, c)),
{
    let m = fr_modulus() as int;
    let (x, y, z) = (a as int, b as int, c as int);
    lemma_mul_mod_noop_general(x * y, z, m);
    lemma_mul_mod_noop_general(x, y * z, m);
    lemma_mul_is_associative(x, y, z);
    assert(((x * y) % m) * z % m == (x * y) * z % m);
    assert(x * ((y * z) % m) % m == x * (y * z) % m);
}

/// One is the unit of the field's multiplication.
pub proof fn lemma_fr_mul_one(a: nat)
    ensures
        fr_mul_spec(1, a) == a % fr_modulus(),
        fr_mul_spec(a, 1) == a % fr_modulus(),
{
    assert(1 * a == a);
    assert(a * 1 == a);
}

/// A product with a reduced factor is the product with the factor itself.
pub proof fn lemma_fr_mul_reduced(a: nat, b: nat)
    ensures
        fr_mul_spec(a % fr_modulus(), b) == fr_mul_spec(a, b),
        fr_mul_spec(a, b % fr_modulus()) == fr_mul_spec(a, b),
{
    lemma_mul_mod_noop_general(a as int, b as int, fr_modulus() as int);
}

/// A sum with a reduced term is the sum with the term itself.
pub proof fn lemma_fr_add_reduced(a: nat, b: nat)
    ensures
        fr_add_spec(a % fr_modulus(), b) == fr_add_spec(a, b),
        fr_add_spec(a, b % fr_modulus()) == fr_add_spec(a, b),
{
    let m = fr_modulus() as int;
    lemma_add_mod_noop(a as int, b as int, m);
    lemma_add_mod_noop((a % fr_modulus()) as int, b as int, m);
    lemma_add_mod_noop(a as int, (b % fr_modulus()) as int, m);
}

/// Addition in the field is associative.
pub proof fn lemma_fr_add_associative(a: nat, b: nat, c: nat)
    ensures
        fr_add_spec(fr_add_spec(a, b), c) == fr_add_spec(a, fr_add_spec(b, c)),
{
    lemma_fr_add_reduced(a + b, c);
    lemma_fr_add_reduced(a, b + c);
}

/// Multiplication in the field distributes over its addition.
pub proof fn lemma_fr_distributive(a: nat, b: nat, c: nat)
    ensures
        fr_mul_spec(a, fr_add_spec(b, c)) == fr_add_spec(fr_mul_spec(a, b), fr_mul_spec(a, c)),
        fr_mul_spec(fr_add_spec(b, c), a) == fr_add_spec(fr_mul_spec(b, a), fr_mul_spec(c, a)),
{
    let m = fr_modulus() as int;
    lemma_fr_mul_reduced(a, b + c);
    lemma_mul_is_distributive_add(a as int, b as int, c as int);
    assert(a * (b + c) == a * b + a * c);
    lemma_fr_add_reduced(a * b, a * c);
    lemma_fr_add_reduced(a * b, (a * c) % fr_modulus());
    lemma_fr_mul_commutative(a, fr_add_spec(b, c));
    lemma_fr_mul_commutative(a, b);
    lemma_fr_mul_commutative(a, c);
}

/// Every power of one is one.
pub proof fn lemma_fr_pow_one(e: nat)
    ensures
        fr_pow_spec(1, e) == 1,
    decreases e,
{
    if e > 0 {
        lemma_fr_pow_one((e - 1) as nat);
        lemma_fr_mul_one(1);
    }
}

/// A power is a canonical representative.
pub proof fn lemma_fr_pow_reduced(a: nat, e: nat)
    ensures
        fr_pow_spec(a, e) < fr_modulus(),
    decreases e,
{
}

/// The power of a product is the product of the powers.
pub proof fn lemma_fr_pow_of_product(a: nat, b: nat, e: nat)
    ensures
        fr_pow_spec(fr_mul_spec(a, b), e) == fr_mul_spec(fr_pow_spec(a, e), fr_pow_spec(b, e)),
    decreases e,
{
    if e == 0 {
        lemma_fr_mul_one(1);
    } else {
        let d = (e - 1) as nat;
        lemma_fr_pow_of_product(a, b, d);
        let (pa, pb) = (fr_pow_spec(a, d), fr_pow_spec(b, d));
        let ab = fr_mul_spec(a, b);
        // (ab) * (pa * pb) == (a * pa) * (b * pb)
        lemma_fr_mul_associative(a, b, fr_mul_spec(pa, pb));
        lemma_fr_mul_associative(b, pa, pb);
        lemma_fr_mul_commutative(b, pa);
        lemma_fr_mul_associative(pa, b, pb);
        lemma_fr_mul_associative(a, pa, fr_mul_spec(b, pb));
        assert(fr_mul_spec(ab, fr_mul_spec(pa, pb)) == fr_mul_spec(
            a,
            fr_mul_spec(b, fr_mul_spec(pa, pb)),
        ));
        assert(fr_mul_spec(b, fr_mul_spec(pa, pb)) == fr_mul_spec(pa, fr_mul_spec(b, pb)));
    }
}

/// The power to a sum of exponents is the product of the powers.
pub proof fn lemma_fr_pow_add(a: nat, d: nat, e: nat)
    ensures
        fr_pow_spec(a, d + e) == fr_mul_spec(fr_pow_spec(a, d), fr_pow_spec(a, e)),
    decreases d,
{
    if d == 0 {
        lemma_fr_mul_one(fr_pow_spec(a, e));
        lemma_fr_pow_reduced(a, e);
        lemma_small_mod(fr_pow_spec(a, e), fr_modulus());
    } else {
        lemma_fr_pow_add(a, (d - 1) as nat, e);
        lemma_fr_mul_associative(a, fr_pow_spec(a, (d - 1) as nat), fr_pow_spec(a, e));
        assert(d + e - 1 == (d - 1) + e);
    }
}

/// Where `a` has the inverse `x`, each power of `a` has the same power of
/// `x` as its inverse, and is not zero.
pub proof fn lemma_fr_pow_inverse(a: nat, x: nat, e: nat)
    requires
        fr_is_inverse(a, x),
    ensures
        fr_is_inverse(fr_pow_spec(a, e), fr_pow_spec(x, e)),
        fr_pow_spec(a, e) != 0,
{
    lemma_fr_pow_of_product(a, x, e);
    lemma_fr_pow_one(e);
    lemma_fr_pow_reduced(x, e);
    if fr_pow_spec(a, e) == 0 {
        assert(0 * fr_pow_spec(x, e) == 0);
    }
}

} // verus!
