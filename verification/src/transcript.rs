//! The Fiat-Shamir transcript: what turns the values exchanged so far into the
//! next challenge.
//!
//! A transcript is modelled as a deterministic machine over a state of bytes.
//! Absorbing a value moves the state; drawing a challenge reads a scalar off
//! the state and moves it again. Prover and verifier that start from the same
//! state and absorb the same values in the same order draw the same challenges.

use crate::curve::{
    fq12_pair_serialize, fq12_pair_serialized, fq12_serialize, fq12_serialized, g1_serialize,
    g1_serialized, g2_serialize, g2_serialized, Fq12, G1, G2,
};
use crate::field::{fr_from_random_bytes, fr_values, le_value, shaved_value, Scalar};
use crate::wire::{le_bytes4, le_number4};
use ark_ff::{BigInteger256, PrimeField};
use ark_serialize::CanonicalSerialize;
use bellman_ce::plonk::commitments::transcript::keccak_transcript::RollingKeccakTranscript;
use bellman_ce::plonk::commitments::transcript::{Prng, Transcript};
use bellman_ce::PrimeFieldRepr;
use vstd::pervasive::unreached;
use vstd::prelude::*;

verus! {

/// A value that a transcript can absorb: one with a canonical serialisation.
pub trait CanonicalBytes {
    /// The canonical serialisation of the value.
    spec fn canonical_bytes(&self) -> Seq<u8>;

    fn to_canonical_bytes(&self) -> (b: Vec<u8>)
        ensures
            b@ == self.canonical_bytes(),
    ;
}

/// The canonical serialisation of a scalar.
pub uninterp spec fn fr_serialized(x: nat) -> Seq<u8>;

/// The canonical serialisation of rows of scalars.
pub uninterp spec fn fr_rows_serialized(rows: Seq<Seq<nat>>) -> Seq<u8>;

/// The views of rows of scalars.
pub open spec fn fr_rows_values(rows: Seq<Vec<Scalar>>) -> Seq<Seq<nat>> {
    Seq::new(rows.len(), |i: int| fr_values(rows[i]@))
}

impl CanonicalBytes for Scalar {
    open spec fn canonical_bytes(&self) -> Seq<u8> {
        fr_serialized(self@)
    }

    fn to_canonical_bytes(&self) -> (b: Vec<u8>) {
        fr_serialize(self)
    }
}

impl CanonicalBytes for G1 {
    open spec fn canonical_bytes(&self) -> Seq<u8> {
        g1_serialized(*self)
    }

    fn to_canonical_bytes(&self) -> (b: Vec<u8>) {
        g1_serialize(self)
    }
}

impl CanonicalBytes for G2 {
    open spec fn canonical_bytes(&self) -> Seq<u8> {
        g2_serialized(*self)
    }

    fn to_canonical_bytes(&self) -> (b: Vec<u8>) {
        g2_serialize(self)
    }
}

impl CanonicalBytes for Fq12 {
    open spec fn canonical_bytes(&self) -> Seq<u8> {
        fq12_serialized(*self)
    }

    fn to_canonical_bytes(&self) -> (b: Vec<u8>) {
        fq12_serialize(self)
    }
}

impl CanonicalBytes for (Fq12, Fq12) {
    open spec fn canonical_bytes(&self) -> Seq<u8> {
        fq12_pair_serialized(self.0, self.1)
    }

    fn to_canonical_bytes(&self) -> (b: Vec<u8>) {
        fq12_pair_serialize(&self.0, &self.1)
    }
}

impl CanonicalBytes for Vec<Vec<Scalar>> {
    open spec fn canonical_bytes(&self) -> Seq<u8> {
        fr_rows_serialized(fr_rows_values(self@))
    }

    fn to_canonical_bytes(&self) -> (b: Vec<u8>) {
        fr_rows_serialize(self)
    }
}

/// The transcript from which the challenges of an aggregation are drawn. It is
/// handed to prover and verifier so that the application can absorb its own
/// data first.
pub trait LocalTranscript {
    /// All that the future challenges depend on.
    spec fn state(&self) -> Seq<u8>;

    /// The state after absorbing `bytes` in `state`.
    spec fn after_append(state: Seq<u8>, bytes: Seq<u8>) -> Seq<u8>;

    /// The challenge that is drawn in `state`.
    spec fn challenge_of(state: Seq<u8>) -> nat;

    /// The state after drawing a challenge in `state`.
    spec fn after_challenge(state: Seq<u8>) -> Seq<u8>;

    /// Separates this use of the transcript from others.
    fn domain_sep(&mut self);

    /// Absorbs the canonical serialisation of `point`.
    fn append<S: CanonicalBytes>(&mut self, point: &S)
        ensures
            final(self).state() == Self::after_append(old(self).state(), point.canonical_bytes()),
    ;

    /// Draws a challenge, which is never zero.
    fn challenge_scalar(&mut self) -> (c: Scalar)
        ensures
            c@ == Self::challenge_of(old(self).state()),
            c@ != 0,
            final(self).state() == Self::after_challenge(old(self).state()),
    ;
}

/// `bellman_ce`'s rolling Keccak transcript over the scalar field of BN256.
#[verifier::external_body]
pub struct RollingKeccak {
    inner: RollingKeccakTranscript<bellman_ce::bn256::Fr>,
}

/// The transcript that the aggregation uses by default: a rolling Keccak
/// transcript, and the number of challenges that were drawn from it.
pub struct KeccakTranscript {
    core: RollingKeccak,
    draws: u32,
}

/// What a rolling Keccak transcript holds: its two digests of 32 bytes and its
/// count of challenges as four little-endian bytes, 68 bytes in all.
pub uninterp spec fn keccak_state(t: RollingKeccak) -> Seq<u8>;

/// The state of a rolling Keccak transcript after it has committed to `bytes`.
pub uninterp spec fn keccak_absorbed(state: Seq<u8>, bytes: Seq<u8>) -> Seq<u8>;

/// The challenge that a rolling Keccak transcript yields in `state`, as 32
/// little-endian bytes, and the state it is left in.
pub uninterp spec fn keccak_squeezed(state: Seq<u8>) -> (Seq<u8>, Seq<u8>);

/// The count of challenges that the state of a rolling Keccak transcript
/// holds.
pub open spec fn keccak_count(state: Seq<u8>) -> nat {
    le_number4(state.subrange(64, 68))
}

/// How many times in a row the Keccak transcript draws again after a zero.
pub const ZERO_REDRAWS: usize = 16;

/// The part of the state that the rolling Keccak transcript holds.
pub open spec fn rolling_part(state: Seq<u8>) -> Seq<u8> {
    state.subrange(0, 68)
}

/// The number of challenges drawn so far, which the state ends with.
pub open spec fn draws_of(state: Seq<u8>) -> nat {
    le_number4(state.subrange(68, 72))
}

/// The state made of what the rolling Keccak transcript holds and of the
/// number of challenges drawn.
pub open spec fn state_of(rolling: Seq<u8>, draws: u32) -> Seq<u8> {
    rolling + le_bytes4(draws)
}

/// The first non-zero scalar among the next `tries` draws in `state`, and the
/// state after it; one and the state as it is, where all of them are zero or
/// the transcript has been drawn from as often as it can count.
pub open spec fn draw_nonzero(state: Seq<u8>, tries: nat) -> (nat, Seq<u8>)
    decreases tries,
{
    if tries == 0 || draws_of(state) >= u32::MAX {
        (1, state)
    } else {
        let (bytes, next) = keccak_squeezed(rolling_part(state));
        let after = state_of(next, (draws_of(state) + 1) as u32);
        if shaved_value(bytes) != 0 {
            (shaved_value(bytes), after)
        } else {
            draw_nonzero(after, (tries - 1) as nat)
        }
    }
}

/// A state is made of its two parts.
pub proof fn lemma_state_parts(rolling: Seq<u8>, draws: u32)
    requires
        rolling.len() == 68,
    ensures
        rolling_part(state_of(rolling, draws)) == rolling,
        draws_of(state_of(rolling, draws)) == draws,
        state_of(rolling, draws).subrange(68, 72) == le_bytes4(draws),
{
    let st = state_of(rolling, draws);
    assert(st.subrange(0, 68) =~= rolling);
    assert(st.subrange(68, 72) =~= le_bytes4(draws));
}

/// A fresh Keccak transcript: all of its state is zero.
pub fn new_keccak_transcript() -> (t: KeccakTranscript)
    ensures
        t.state() == Seq::new(72, |i: int| 0u8),
{
    let core = keccak_new();
    assert(keccak_state(core).subrange(64, 68) =~= seq![0u8, 0u8, 0u8, 0u8]);
    assert(state_of(keccak_state(core), 0) =~= Seq::new(72, |i: int| 0u8));
    KeccakTranscript { core, draws: 0 }
}

impl KeccakTranscript {
    /// The rolling transcript has drawn no more challenges than were counted.
    #[verifier::type_invariant]
    pub closed spec fn counted(self) -> bool {
        keccak_state(self.core).len() == 68 && keccak_count(keccak_state(self.core)) <= self.draws
    }
}

impl LocalTranscript for KeccakTranscript {
    closed spec fn state(&self) -> Seq<u8> {
        state_of(keccak_state(self.core), self.draws)
    }

    open spec fn after_append(state: Seq<u8>, bytes: Seq<u8>) -> Seq<u8> {
        keccak_absorbed(rolling_part(state), bytes) + state.subrange(68, 72)
    }

    open spec fn challenge_of(state: Seq<u8>) -> nat {
        draw_nonzero(state, ZERO_REDRAWS as nat).0
    }

    open spec fn after_challenge(state: Seq<u8>) -> Seq<u8> {
        draw_nonzero(state, ZERO_REDRAWS as nat).1
    }

    /// The Keccak transcript has no separator: it absorbs nothing.
    fn domain_sep(&mut self)
        ensures
            final(self).state() == old(self).state(),
    {
    }

    /// Absorbs the canonical serialisation of `point`. The rolling
    /// transcript is taken out while it absorbs and put back after, so that
    /// the count beside it is right at every point.
    fn append<S: CanonicalBytes>(&mut self, point: &S) {
        proof {
            use_type_invariant(&*self);
            lemma_state_parts(keccak_state(self.core), self.draws);
        }
        let buff = point.to_canonical_bytes();
        let mut core = keccak_new();
        assert(keccak_state(core).subrange(64, 68) =~= seq![0u8, 0u8, 0u8, 0u8]);
        std::mem::swap(&mut core, &mut self.core);
        keccak_commit(&mut core, &buff);
        self.core = core;
    }

    /// Draws challenges until one is not zero, [`ZERO_REDRAWS`] times at
    /// most. The rolling transcript counts its challenges in 32 bits: one
    /// that has been drawn from as often as that holds is drawn from no
    /// more, and yields one from then on.
    fn challenge_scalar(&mut self) -> (c: Scalar) {
        let mut left: usize = ZERO_REDRAWS;
        while left > 0 && self.draws < u32::MAX
            invariant
                draw_nonzero(self.state(), left as nat) == draw_nonzero(
                    old(self).state(),
                    ZERO_REDRAWS as nat,
                ),
            decreases left,
        {
            proof {
                use_type_invariant(&*self);
                lemma_state_parts(keccak_state(self.core), self.draws);
            }
            let mut core = keccak_new();
            assert(keccak_state(core).subrange(64, 68) =~= seq![0u8, 0u8, 0u8, 0u8]);
            std::mem::swap(&mut core, &mut self.core);
            let bytes = keccak_squeeze(&mut core);
            self.draws = self.draws + 1;
            self.core = core;
            let c = match fr_from_random_bytes(&bytes) {
                Some(c) => c,
                None => unreached(),
            };
            if !c.is_zero() {
                return c;
            }
            left -= 1;
        }
        proof {
            use_type_invariant(&*self);
            lemma_state_parts(keccak_state(self.core), self.draws);
        }
        Scalar::one()
    }
}

/// `RollingKeccakTranscript::new`: both digests and the count are zero.
#[verifier::external_body]
fn keccak_new() -> (t: RollingKeccak)
    ensures
        keccak_state(t) == Seq::new(68, |i: int| 0u8),
{
    RollingKeccak { inner: RollingKeccakTranscript::new() }
}

/// `Transcript::commit_bytes` on the rolling Keccak transcript: it leaves the
/// count of challenges as it is.
#[verifier::external_body]
fn keccak_commit(t: &mut RollingKeccak, bytes: &Vec<u8>)
    ensures
        keccak_state(*final(t)) == keccak_absorbed(keccak_state(*old(t)), bytes@),
        keccak_state(*final(t)).len() == 68,
        keccak_count(keccak_state(*final(t))) == keccak_count(keccak_state(*old(t))),
{
    t.inner.commit_bytes(bytes);
}

/// `Prng::get_challenge` on the rolling Keccak transcript, the scalar written
/// out by `PrimeFieldRepr::write_le`: four limbs, of which the transcript has
/// cleared the three highest bits. The transcript counts its challenges in 32
/// bits and raises the count by one: it must not be at its highest.
#[verifier::external_body]
fn keccak_squeeze(t: &mut RollingKeccak) -> (bytes: Vec<u8>)
    requires
        keccak_count(keccak_state(*old(t))) < u32::MAX,
    ensures
        bytes.len() == 32,
        le_value(bytes@)
            < 0x2000_0000_0000_0000_0000_0000_0000_0000_0000_0000_0000_0000_0000_0000_0000_0000nat,
        (bytes@, keccak_state(*final(t))) == keccak_squeezed(keccak_state(*old(t))),
        keccak_state(*final(t)).len() == 68,
        keccak_count(keccak_state(*final(t))) == keccak_count(keccak_state(*old(t))) + 1,
{
    let repr = bellman_ce::PrimeField::into_repr(&t.inner.get_challenge());
    let mut buf: Vec<u8> = Vec::with_capacity(32);
    repr.write_le(&mut buf).unwrap();
    buf
}

/// `ark_serialize::CanonicalSerialize::serialize` on `ark_bn254::Fr`.
#[verifier::external_body]
fn fr_serialize(x: &Scalar) -> (b: Vec<u8>)
    ensures
        b@ == fr_serialized(x@),
{
    let mut out = Vec::new();
    ark_bn254::Fr::from_repr(BigInteger256(x.to_limbs())).unwrap().serialize(&mut out).unwrap();
    out
}

/// `ark_serialize::CanonicalSerialize::serialize` on a `Vec<Vec<ark_bn254::Fr>>`.
#[verifier::external_body]
fn fr_rows_serialize(rows: &Vec<Vec<Scalar>>) -> (b: Vec<u8>)
    ensures
        b@ == fr_rows_serialized(fr_rows_values(rows@)),
{
    let v: Vec<Vec<ark_bn254::Fr>> = rows.iter().map(|row| row.iter().map(
        |x| ark_bn254::Fr::from_repr(BigInteger256(x.to_limbs())).unwrap(),
    ).collect()).collect();
    let mut out = Vec::new();
    v.serialize(&mut out).unwrap();
    out
}

} // verus!
