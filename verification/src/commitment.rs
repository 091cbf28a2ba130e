//! Commitment keys and the commitments to vectors of points made under them.

use crate::curve::{fq12_product, CurvePoint, Fq12, G1, G2};
use crate::errors::{agrees, Error, ErrorKind};
use crate::field::{fr_values, Scalar};
use crate::ip::{pairing, pairing_spec};
use vstd::prelude::*;
use vstd::slice::slice_to_vec;

verus! {

/// A commitment key: two vectors of points, one for each of the two secret
/// exponents of the reference string.
#[derive(Debug)]
pub struct Key<G> {
    /// The points for the first exponent.
    pub a: Vec<G>,
    /// The points for the second exponent.
    pub b: Vec<G>,
}

/// The key under which vectors of G1 are committed: points of G2.
pub type VKey = Key<G2>;

/// The key under which vectors of G2 are committed: points of G1.
pub type WKey = Key<G1>;

/// What a commitment key holds.
pub ghost struct KeyView<G> {
    pub a: Seq<G>,
    pub b: Seq<G>,
}

impl<G> View for Key<G> {
    type V = KeyView<G>;

    open spec fn view(&self) -> KeyView<G> {
        KeyView { a: self.a@, b: self.b@ }
    }
}

/// A commitment: one element of the target field for each half of the key.
pub type Output = (Fq12, Fq12);

/// The smaller of two lengths.
pub open spec fn min_len(x: nat, y: nat) -> nat {
    if x <= y {
        x
    } else {
        y
    }
}

impl<G: CurvePoint> KeyView<G> {
    /// How many points of each half take part where the halves are walked
    /// together.
    pub open spec fn len(self) -> nat {
        min_len(self.a.len(), self.b.len())
    }

    /// The key with its `i`-th points multiplied by `s[i]`.
    pub open spec fn scaled(self, s: Seq<nat>) -> KeyView<G> {
        let n = min_len(self.len(), s.len());
        KeyView {
            a: Seq::new(n, |i: int| self.a[i].spec_mul(s[i])),
            b: Seq::new(n, |i: int| self.b[i].spec_mul(s[i])),
        }
    }

    /// The key that folds `right` into `self`: each point of `right` times
    /// `x`, plus the point of `self` at its place.
    pub open spec fn compressed(self, right: KeyView<G>, x: nat) -> KeyView<G> {
        let n = min_len(self.len(), right.len());
        KeyView {
            a: Seq::new(n, |i: int| right.a[i].spec_mul(x).spec_add(self.a[i])),
            b: Seq::new(n, |i: int| right.b[i].spec_mul(x).spec_add(self.b[i])),
        }
    }

    /// The first `at` points of each half.
    pub open spec fn left(self, at: int) -> KeyView<G> {
        KeyView { a: self.a.subrange(0, at), b: self.b.subrange(0, at) }
    }

    /// The points of each half from `at` on.
    pub open spec fn right(self, at: int) -> KeyView<G> {
        KeyView {
            a: self.a.subrange(at, self.a.len() as int),
            b: self.b.subrange(at, self.b.len() as int),
        }
    }
}

impl<G: CurvePoint> Key<G> {
    /// Whether both halves of the key hold `n` points.
    pub fn has_correct_len(&self, n: usize) -> (r: bool)
        ensures
            r == (self.a.len() == n && self.b.len() == n),
    {
        self.a.len() == n && n == self.b.len()
    }

    /// A copy of the key.
    pub fn duplicate(&self) -> (r: Key<G>)
        ensures
            r@ == self@,
    {
        Key { a: slice_to_vec(self.a.as_slice()), b: slice_to_vec(self.b.as_slice()) }
    }

    /// The key with its `i`-th points multiplied by `s_vec[i]`.
    pub fn scale(&self, s_vec: &[Scalar]) -> (r: Result<Key<G>, Error>)
        ensures
            self.a.len() != s_vec.len() ==> r is Err && r->Err_0.kind()
                == ErrorKind::InvalidKeyLength,
            self.a.len() == s_vec.len() ==> r is Ok && r->Ok_0@ == self@.scaled(
                fr_values(s_vec@),
            ),
    {
        if self.a.len() != s_vec.len() {
            return Err(Error::InvalidKeyLength);
        }
        let n = if self.b.len() < self.a.len() {
            self.b.len()
        } else {
            self.a.len()
        };
        let mut a: Vec<G> = Vec::with_capacity(n);
        let mut b: Vec<G> = Vec::with_capacity(n);
        let mut i: usize = 0;
        while i < n
            invariant
                i <= n,
                n <= self.a.len(),
                n <= self.b.len(),
                n <= s_vec.len(),
                a.len() == i,
                b.len() == i,
                forall|j: int| 0 <= j < i ==> a@[j] == self.a@[j].spec_mul(s_vec@[j]@),
                forall|j: int| 0 <= j < i ==> b@[j] == self.b@[j].spec_mul(s_vec@[j]@),
            decreases n - i,
        {
            a.push(self.a[i].mul(&s_vec[i]));
            b.push(self.b[i].mul(&s_vec[i]));
            i += 1;
        }
        let r = Key { a, b };
        proof {
            let want = self@.scaled(fr_values(s_vec@));
            assert(r@.a =~= want.a);
            assert(r@.b =~= want.b);
        }
        Ok(r)
    }

    /// The key cut in two at `at`: its first `at` points, and the rest.
    pub fn split(self, at: usize) -> (r: (Key<G>, Key<G>))
        requires
            at <= self.a.len(),
            at <= self.b.len(),
        ensures
            r.0@ == self@.left(at as int),
            r.1@ == self@.right(at as int),
    {
        let mut a = self.a;
        let mut b = self.b;
        let a_right = a.split_off(at);
        let b_right = b.split_off(at);
        (Key { a, b }, Key { a: a_right, b: b_right })
    }

    /// Folds `right` into this key with the factor `scale`: the `i`-th point
    /// becomes `right[i] * scale + self[i]`.
    pub fn compress(&self, right: &Key<G>, scale: &Scalar) -> (r: Result<Key<G>, Error>)
        ensures
            self.a.len() != right.a.len() ==> r is Err && r->Err_0.kind()
                == ErrorKind::InvalidKeyLength,
            self.a.len() == right.a.len() ==> r is Ok && r->Ok_0@ == self@.compressed(
                right@,
                scale@,
            ),
    {
        if self.a.len() != right.a.len() {
            return Err(Error::InvalidKeyLength);
        }
        let mut n = self.a.len();
        if self.b.len() < n {
            n = self.b.len();
        }
        if right.b.len() < n {
            n = right.b.len();
        }
        let mut a: Vec<G> = Vec::with_capacity(n);
        let mut b: Vec<G> = Vec::with_capacity(n);
        let mut i: usize = 0;
        while i < n
            invariant
                i <= n,
                n <= self.a.len(),
                n <= self.b.len(),
                n <= right.a.len(),
                n <= right.b.len(),
                a.len() == i,
                b.len() == i,
                forall|j: int|
                    0 <= j < i ==> a@[j] == right.a@[j].spec_mul(scale@).spec_add(self.a@[j]),
                forall|j: int|
                    0 <= j < i ==> b@[j] == right.b@[j].spec_mul(scale@).spec_add(self.b@[j]),
            decreases n - i,
        {
            a.push(right.a[i].mul(scale).add(&self.a[i]));
            b.push(right.b[i].mul(scale).add(&self.b[i]));
            i += 1;
        }
        let r = Key { a, b };
        proof {
            let want = self@.compressed(right@, scale@);
            assert(r@.a =~= want.a);
            assert(r@.b =~= want.b);
        }
        Ok(r)
    }

    /// The first point of each half.
    pub fn first(&self) -> (r: (G, G))
        requires
            self.a.len() > 0,
            self.b.len() > 0,
        ensures
            r == (self.a@[0], self.b@[0]),
    {
        (self.a[0], self.b[0])
    }
}

/// The commitment to `a` under the key `v`.
pub open spec fn single_g1_spec(v: KeyView<G2>, a: Seq<G1>) -> Result<Output, ErrorKind> {
    match pairing_spec(a, v.a) {
        Err(e) => Err(e),
        Ok(t) => match pairing_spec(a, v.b) {
            Err(e) => Err(e),
            Ok(u) => Ok((t, u)),
        },
    }
}

/// The commitment to `a` and `b` together under the keys `v` and `w`.
pub open spec fn pair_spec(v: KeyView<G2>, w: KeyView<G1>, a: Seq<G1>, b: Seq<G2>) -> Result<
    Output,
    ErrorKind,
> {
    match pairing_spec(a, v.a) {
        Err(e) => Err(e),
        Ok(t1) => match pairing_spec(w.a, b) {
            Err(e) => Err(e),
            Ok(t2) => match pairing_spec(a, v.b) {
                Err(e) => Err(e),
                Ok(u1) => match pairing_spec(w.b, b) {
                    Err(e) => Err(e),
                    Ok(u2) => Ok((fq12_product(t1, t2), fq12_product(u1, u2))),
                },
            },
        },
    }
}

/// Commits to a single vector of G1 under the key `vkey`: the products of the
/// pairings of `a_vec` with each half of the key.
pub fn single_g1(vkey: &VKey, a_vec: &[G1]) -> (r: Result<Output, Error>)
    ensures
        agrees(r, single_g1_spec(vkey@, a_vec@)),
{
    let t = pairing(a_vec, vkey.a.as_slice())?;
    let u = pairing(a_vec, vkey.b.as_slice())?;
    Ok((t, u))
}

/// Commits to a vector of G1 and one of G2 together: for each half of the
/// keys, the product of the pairings of `a` with `vkey` times that of `wkey`
/// with `b`.
pub fn pair(vkey: &VKey, wkey: &WKey, a: &[G1], b: &[G2]) -> (r: Result<Output, Error>)
    ensures
        agrees(r, pair_spec(vkey@, wkey@, a@, b@)),
{
    let t1 = pairing(a, vkey.a.as_slice())?;
    let t2 = pairing(wkey.a.as_slice(), b)?;
    let u1 = pairing(a, vkey.b.as_slice())?;
    let u2 = pairing(wkey.b.as_slice(), b)?;
    Ok((t1.mul(&t2), u1.mul(&u2)))
}

} // verus!
