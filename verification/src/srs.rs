//! The structured reference string and its two specialisations.

use crate::commitment::{Key, KeyView, VKey, WKey};
use crate::curve::{CurvePoint, G1, G2};
use crate::field::{fr_random, fr_values, Scalar};
use crate::structured_scalar_power;
use crate::structured_scalar_power_spec;
use ark_std::rand::rngs::StdRng;
use crate::is_power_of_two_spec;
use vstd::prelude::*;
use vstd::slice::{slice_subrange, slice_to_vec};

verus! {

/// The reference string as the setup left it: the powers of the two secret
/// exponents on the generators of G1 and G2.
#[derive(Debug)]
pub struct GenericSRS {
    /// `g^{alpha^i}`, for `i` from zero on.
    pub g_alpha_powers: Vec<G1>,
    /// `h^{alpha^i}`, for `i` from zero on.
    pub h_alpha_powers: Vec<G2>,
    /// `g^{beta^i}`, for `i` from zero on.
    pub g_beta_powers: Vec<G1>,
    /// `h^{beta^i}`, for `i` from zero on.
    pub h_beta_powers: Vec<G2>,
}

/// What the prover needs of the reference string to aggregate `n` proofs.
#[derive(Debug)]
pub struct ProverSRS {
    /// The number of proofs that this string is for.
    pub n: usize,
    /// `g^{alpha^i}` for `i` below `2n`.
    pub g_alpha_powers_table: Vec<G1>,
    /// `g^{beta^i}` for `i` below `2n`.
    pub g_beta_powers_table: Vec<G1>,
    /// `h^{alpha^i}` for `i` below `n`.
    pub h_alpha_powers_table: Vec<G2>,
    /// `h^{beta^i}` for `i` below `n`.
    pub h_beta_powers_table: Vec<G2>,
    /// The commitment key over G2.
    pub vkey: VKey,
    /// The commitment key over G1.
    pub wkey: WKey,
}

/// What the verifier needs of the reference string.
#[derive(Clone, Copy, Debug)]
pub struct VerifierSRS {
    /// The number of proofs that this string is for.
    pub n: usize,
    pub g: G1,
    pub h: G2,
    pub g_alpha: G1,
    pub g_beta: G1,
    pub h_alpha: G2,
    pub h_beta: G2,
    /// The first points of the commitment key over G2.
    pub vkey_first: (G2, G2),
    /// The first points of the commitment key over G1.
    pub wkey_first: (G1, G1),
}

/// What a [`ProverSRS`] holds.
pub ghost struct ProverSRSView {
    pub n: usize,
    pub g_alpha_powers_table: Seq<G1>,
    pub g_beta_powers_table: Seq<G1>,
    pub h_alpha_powers_table: Seq<G2>,
    pub h_beta_powers_table: Seq<G2>,
    pub vkey: KeyView<G2>,
    pub wkey: KeyView<G1>,
}

impl View for ProverSRS {
    type V = ProverSRSView;

    open spec fn view(&self) -> ProverSRSView {
        ProverSRSView {
            n: self.n,
            g_alpha_powers_table: self.g_alpha_powers_table@,
            g_beta_powers_table: self.g_beta_powers_table@,
            h_alpha_powers_table: self.h_alpha_powers_table@,
            h_beta_powers_table: self.h_beta_powers_table@,
            vkey: self.vkey@,
            wkey: self.wkey@,
        }
    }
}

impl ProverSRSView {
    /// Whether both commitment keys hold `n` points in each half.
    pub open spec fn has_correct_len(self, n: nat) -> bool {
        &&& self.vkey.a.len() == n
        &&& self.vkey.b.len() == n
        &&& self.wkey.a.len() == n
        &&& self.wkey.b.len() == n
    }
}

impl ProverSRS {
    /// Whether the commitment keys are of the length that `n` proofs need.
    pub fn has_correct_len(&self, n: usize) -> (r: bool)
        ensures
            r == self@.has_correct_len(n as nat),
    {
        self.vkey.has_correct_len(n) && self.wkey.has_correct_len(n)
    }
}

impl GenericSRS {
    /// Whether the string holds the powers that aggregating `num_proofs`
    /// proofs needs: `2 * num_proofs` in G1, and in G2 `num_proofs` and at
    /// least two.
    pub open spec fn supports(&self, num_proofs: nat) -> bool {
        &&& is_power_of_two_spec(num_proofs)
        &&& 2 * num_proofs <= usize::MAX
        &&& self.g_alpha_powers.len() >= 2 * num_proofs
        &&& self.g_beta_powers.len() >= 2 * num_proofs
        &&& self.h_alpha_powers.len() >= num_proofs
        &&& self.h_beta_powers.len() >= num_proofs
        &&& self.h_alpha_powers.len() >= 2
        &&& self.h_beta_powers.len() >= 2
    }

    /// Whether the string holds `len` powers of each exponent on each
    /// generator.
    pub open spec fn holds(&self, len: nat) -> bool {
        &&& self.g_alpha_powers.len() == len
        &&& self.g_beta_powers.len() == len
        &&& self.h_alpha_powers.len() == len
        &&& self.h_beta_powers.len() == len
    }

    /// What the prover gets of this string for `n` proofs.
    pub open spec fn prover_part(&self, n: nat) -> ProverSRSView {
        ProverSRSView {
            n: n as usize,
            g_alpha_powers_table: self.g_alpha_powers@.subrange(0, 2 * (n as int)),
            g_beta_powers_table: self.g_beta_powers@.subrange(0, 2 * (n as int)),
            h_alpha_powers_table: self.h_alpha_powers@.subrange(0, n as int),
            h_beta_powers_table: self.h_beta_powers@.subrange(0, n as int),
            vkey: KeyView {
                a: self.h_alpha_powers@.subrange(0, n as int),
                b: self.h_beta_powers@.subrange(0, n as int),
            },
            wkey: KeyView {
                a: self.g_alpha_powers@.subrange(n as int, 2 * (n as int)),
                b: self.g_beta_powers@.subrange(n as int, 2 * (n as int)),
            },
        }
    }

    /// What the verifier gets of this string for `n` proofs.
    pub open spec fn verifier_part(&self, n: nat) -> VerifierSRS {
        VerifierSRS {
            n: n as usize,
            g: self.g_alpha_powers@[0],
            h: self.h_alpha_powers@[0],
            g_alpha: self.g_alpha_powers@[1],
            g_beta: self.g_beta_powers@[1],
            h_alpha: self.h_alpha_powers@[1],
            h_beta: self.h_beta_powers@[1],
            vkey_first: (self.h_alpha_powers@[0], self.h_beta_powers@[0]),
            wkey_first: (self.g_alpha_powers@[n as int], self.g_beta_powers@[n as int]),
        }
    }

    /// Cuts the string down to what aggregating and verifying `num_proofs`
    /// proofs need. The commitment key over G2 is made of the first
    /// `num_proofs` powers on `h`, that over G1 of the powers on `g` from
    /// `num_proofs` on.
    pub fn specialize(&self, num_proofs: usize) -> (r: (ProverSRS, VerifierSRS))
        requires
            self.supports(num_proofs as nat),
        ensures
            r.0@ == self.prover_part(num_proofs as nat),
            r.1 == self.verifier_part(num_proofs as nat),
            r.0@.has_correct_len(num_proofs as nat),
    {
        let n = num_proofs;
        assert(n >= 1) by {
            reveal_with_fuel(is_power_of_two_spec, 2);
        }
        let tn = 2 * n;
        let ga = self.g_alpha_powers.as_slice();
        let gb = self.g_beta_powers.as_slice();
        let ha = self.h_alpha_powers.as_slice();
        let hb = self.h_beta_powers.as_slice();
        let pk = ProverSRS {
            n,
            g_alpha_powers_table: slice_to_vec(slice_subrange(ga, 0, tn)),
            g_beta_powers_table: slice_to_vec(slice_subrange(gb, 0, tn)),
            h_alpha_powers_table: slice_to_vec(slice_subrange(ha, 0, n)),
            h_beta_powers_table: slice_to_vec(slice_subrange(hb, 0, n)),
            vkey: Key { a: slice_to_vec(slice_subrange(ha, 0, n)), b: slice_to_vec(slice_subrange(hb, 0, n)) },
            wkey: Key { a: slice_to_vec(slice_subrange(ga, n, tn)), b: slice_to_vec(slice_subrange(gb, n, tn)) },
        };
        let vk = VerifierSRS {
            n,
            g: ga[0],
            h: ha[0],
            g_alpha: ga[1],
            g_beta: gb[1],
            h_alpha: ha[1],
            h_beta: hb[1],
            vkey_first: (ha[0], hb[0]),
            wkey_first: (ga[n], gb[n]),
        };
        (pk, vk)
    }
}

/// The point `g` times each of the first `num` powers of `s`.
pub open spec fn structured_generators_spec<G: CurvePoint>(num: nat, g: G, s: nat) -> Seq<G> {
    g.spec_fixed_products(structured_scalar_power_spec(num, s))
}

/// The point `g` times each of the powers `1, s, s^2, ...` of `s`, up to the
/// power `num - 1`.
pub fn structured_generators_scalar_power<G: CurvePoint>(num: usize, g: &G, s: &Scalar) -> (r: Vec<G>)
    requires
        num > 0,
    ensures
        r.len() == num,
        r@ == structured_generators_spec(num as nat, *g, s@),
{
    let powers_of_scalar = structured_scalar_power(num, s);
    assert(fr_values(powers_of_scalar@).len() == num);
    g.fixed_products(powers_of_scalar.as_slice())
}

impl GenericSRS {
    /// Whether this is the reference string for `size` proofs with the
    /// secret exponents `alpha` and `beta`: the first `2 * size` powers of
    /// each on the generators of G1 and of G2.
    pub open spec fn made_from(&self, alpha: nat, beta: nat, size: nat) -> bool {
        &&& self.g_alpha_powers@ == structured_generators_spec(2 * size, G1::spec_generator(), alpha)
        &&& self.h_alpha_powers@ == structured_generators_spec(2 * size, G2::spec_generator(), alpha)
        &&& self.g_beta_powers@ == structured_generators_spec(2 * size, G1::spec_generator(), beta)
        &&& self.h_beta_powers@ == structured_generators_spec(2 * size, G2::spec_generator(), beta)
    }
}

/// The reference string for `size` proofs with the secret exponents `alpha`
/// and `beta`. A string whose exponents are known to anyone is of use in
/// tests only.
pub fn setup_fake_srs_with(alpha: &Scalar, beta: &Scalar, size: usize) -> (r: GenericSRS)
    requires
        0 < size,
        2 * size <= usize::MAX,
    ensures
        r.made_from(alpha@, beta@, size as nat),
        r.holds(2 * size as nat),
        is_power_of_two_spec(size as nat) ==> r.supports(size as nat),
{
    let g = G1::generator();
    let h = G2::generator();
    GenericSRS {
        g_alpha_powers: structured_generators_scalar_power(2 * size, &g, alpha),
        h_alpha_powers: structured_generators_scalar_power(2 * size, &h, alpha),
        g_beta_powers: structured_generators_scalar_power(2 * size, &g, beta),
        h_beta_powers: structured_generators_scalar_power(2 * size, &h, beta),
    }
}

/// A reference string for `size` proofs with secret exponents drawn from
/// `rng`, for tests.
pub fn setup_fake_srs(rng: &mut StdRng, size: usize) -> (r: GenericSRS)
    requires
        0 < size,
        2 * size <= usize::MAX,
    ensures
        exists|alpha: nat, beta: nat| #[trigger] r.made_from(alpha, beta, size as nat),
        r.holds(2 * size as nat),
        is_power_of_two_spec(size as nat) ==> r.supports(size as nat),
{
    let alpha = fr_random(rng);
    let beta = fr_random(rng);
    setup_fake_srs_with(&alpha, &beta, size)
}

} // verus!
