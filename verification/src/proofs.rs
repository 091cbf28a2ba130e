//! The aggregate proof and its parts.

use crate::commitment::Output;
use crate::curve::{Fq12, G1, G2};
use crate::errors::{Error, ErrorKind};
use crate::is_power_of_two;
use crate::is_power_of_two_spec;
use vstd::prelude::*;

verus! {

/// A Groth16 proof: the three points that its verification equation relates.
#[derive(Clone, Copy, Debug)]
pub struct Proof {
    pub a: G1,
    pub b: G2,
    pub c: G1,
}

/// The opening of one commitment key: one point for each of its halves.
#[derive(Clone, Copy, Debug)]
pub struct KZGOpening<G>(pub G, pub G);

/// What the inner-product argument leaves behind: what each round committed
/// to, and the single values that remain after the last round.
#[derive(Debug)]
pub struct GipaProof {
    /// How many proofs were aggregated.
    pub nproofs: u32,
    /// For each round, the commitments to the two cross terms of `A` and `B`.
    pub comms_ab: Vec<(Output, Output)>,
    /// For each round, the commitments to the two cross terms of `C`.
    pub comms_c: Vec<(Output, Output)>,
    /// For each round, the two cross inner products of `A` and `B`.
    pub z_ab: Vec<(Fq12, Fq12)>,
    /// For each round, the two cross inner products of `C` and the scalars.
    pub z_c: Vec<(G1, G1)>,
    pub final_a: G1,
    pub final_b: G2,
    pub final_c: G1,
    /// The commitment key `v` after the last round.
    pub final_vkey: (G2, G2),
    /// The commitment key `w` after the last round.
    pub final_wkey: (G1, G1),
}

/// What a [`GipaProof`] holds.
pub ghost struct GipaProofView {
    pub nproofs: u32,
    pub comms_ab: Seq<(Output, Output)>,
    pub comms_c: Seq<(Output, Output)>,
    pub z_ab: Seq<(Fq12, Fq12)>,
    pub z_c: Seq<(G1, G1)>,
    pub final_a: G1,
    pub final_b: G2,
    pub final_c: G1,
    pub final_vkey: (G2, G2),
    pub final_wkey: (G1, G1),
}

impl View for GipaProof {
    type V = GipaProofView;

    open spec fn view(&self) -> GipaProofView {
        GipaProofView {
            nproofs: self.nproofs,
            comms_ab: self.comms_ab@,
            comms_c: self.comms_c@,
            z_ab: self.z_ab@,
            z_c: self.z_c@,
            final_a: self.final_a,
            final_b: self.final_b,
            final_c: self.final_c,
            final_vkey: self.final_vkey,
            final_wkey: self.final_wkey,
        }
    }
}

/// The inner-product argument together with the openings of the two final
/// commitment keys.
#[derive(Debug)]
pub struct TippMippProof {
    pub gipa: GipaProof,
    pub vkey_opening: KZGOpening<G2>,
    pub wkey_opening: KZGOpening<G1>,
}

/// What a [`TippMippProof`] holds.
pub ghost struct TippMippProofView {
    pub gipa: GipaProofView,
    pub vkey_opening: KZGOpening<G2>,
    pub wkey_opening: KZGOpening<G1>,
}

impl View for TippMippProof {
    type V = TippMippProofView;

    open spec fn view(&self) -> TippMippProofView {
        TippMippProofView {
            gipa: self.gipa@,
            vkey_opening: self.vkey_opening,
            wkey_opening: self.wkey_opening,
        }
    }
}

/// The proof that stands for all the aggregated proofs.
#[derive(Debug)]
pub struct AggregateProof {
    /// The commitment to the vectors `A` and `B`.
    pub com_ab: Output,
    /// The commitment to the vector `C`.
    pub com_c: Output,
    /// The product of the pairings of `A` with the rescaled `B`.
    pub ip_ab: Fq12,
    /// The sum of the points of `C`, each times its power of the challenge.
    pub agg_c: G1,
    pub tmipp: TippMippProof,
}

/// What an [`AggregateProof`] holds.
pub ghost struct AggregateProofView {
    pub com_ab: Output,
    pub com_c: Output,
    pub ip_ab: Fq12,
    pub agg_c: G1,
    pub tmipp: TippMippProofView,
}

impl View for AggregateProof {
    type V = AggregateProofView;

    open spec fn view(&self) -> AggregateProofView {
        AggregateProofView {
            com_ab: self.com_ab,
            com_c: self.com_c,
            ip_ab: self.ip_ab,
            agg_c: self.agg_c,
            tmipp: self.tmipp@,
        }
    }
}

/// The number of rounds that halve `n` down to one: the logarithm of `n` to
/// the base two, rounded down.
pub open spec fn rounds_spec(n: nat) -> nat
    decreases n,
{
    if n <= 1 {
        0
    } else {
        1 + rounds_spec(n / 2)
    }
}

/// The number of rounds that halve `n` down to one.
pub fn rounds(n: usize) -> (r: usize)
    ensures
        r == rounds_spec(n as nat),
{
    let mut m = n;
    let mut r: usize = 0;
    while m > 1
        invariant
            r + rounds_spec(m as nat) == rounds_spec(n as nat),
            r + m <= n,
        decreases m,
    {
        m = m / 2;
        r += 1;
    }
    r
}

impl AggregateProofView {
    /// Whether the proof is shaped as an aggregation of at least two proofs
    /// and a power of two of them, with one entry in each of its vectors for
    /// each round.
    pub open spec fn well_shaped(self) -> bool {
        let gipa = self.tmipp.gipa;
        let n = gipa.nproofs as nat;
        &&& 2 <= n
        &&& is_power_of_two_spec(n)
        &&& gipa.comms_ab.len() == rounds_spec(n)
        &&& gipa.comms_c.len() == rounds_spec(n)
        &&& gipa.z_ab.len() == rounds_spec(n)
        &&& gipa.z_c.len() == rounds_spec(n)
    }
}

impl AggregateProof {
    /// Checks the shape of the proof before anything is computed from it.
    pub fn parsing_check(&self) -> (r: Result<(), Error>)
        ensures
            self@.well_shaped() ==> r is Ok,
            !self@.well_shaped() ==> r is Err && r->Err_0.kind() == ErrorKind::InvalidProof,
            self@.tmipp.gipa.nproofs < 2 ==> (r matches Err(Error::InvalidProof(m)) && m@
                == "Proof length out of bounds"@),
            2 <= self@.tmipp.gipa.nproofs && !is_power_of_two_spec(
                self@.tmipp.gipa.nproofs as nat,
            ) ==> (r matches Err(Error::InvalidProof(m)) && m@
                == "Proof length not a power of two"@),
            2 <= self@.tmipp.gipa.nproofs && is_power_of_two_spec(
                self@.tmipp.gipa.nproofs as nat,
            ) && !self@.well_shaped() ==> (r matches Err(Error::InvalidProof(m)) && m@
                == "Proof vectors unequal sizes"@),
    {
        let gipa = &self.tmipp.gipa;
        if gipa.nproofs < 2 {
            return Err(Error::InvalidProof("Proof length out of bounds".to_string()));
        }
        if !is_power_of_two(gipa.nproofs as usize) {
            return Err(Error::InvalidProof("Proof length not a power of two".to_string()));
        }
        let ref_len = rounds(gipa.nproofs as usize);
        let all_same = ref_len == gipa.comms_ab.len() && ref_len == gipa.comms_c.len() && ref_len
            == gipa.z_ab.len() && ref_len == gipa.z_c.len();
        if !all_same {
            return Err(Error::InvalidProof("Proof vectors unequal sizes".to_string()));
        }
        Ok(())
    }
}

} // verus!
