//! The aggregate proof on the wire: the canonical serialisations of its
//! parts, one after the other in the order of their declaration. The number
//! of proofs is written as four little-endian bytes; the vectors of the
//! rounds are written without their length, which the number of proofs gives.

use crate::commitment::Output;
use crate::curve::{
    fq12_deserialize, fq12_deserialized, fq12_serialize, fq12_serialized, g1_deserialize,
    g1_deserialized, g1_serialize, g1_serialized, g2_deserialize, g2_deserialized, g2_serialize,
    g2_serialized, Fq12, G1, G2,
};
use crate::errors::{Error, ErrorKind};
use crate::is_power_of_two;
use crate::is_power_of_two_spec;
use crate::proofs::{
    rounds, rounds_spec, AggregateProof, AggregateProofView, GipaProof, GipaProofView, KZGOpening,
    TippMippProof, TippMippProofView,
};
use vstd::prelude::*;
use vstd::slice::slice_subrange;

verus! {

/// The size of a serialised point of G1.
pub const G1_SIZE: usize = 32;

/// The size of a serialised point of G2.
pub const G2_SIZE: usize = 64;

/// The size of a serialised element of the target field.
pub const GT_SIZE: usize = 384;

/// The size of what a proof holds before the vectors of its rounds.
pub const HEAD_SIZE: usize = 1956;

/// The size of what one round adds to a proof.
pub const ROUND_SIZE: usize = 3904;

/// The size of what a proof holds after the vectors of its rounds.
pub const TAIL_SIZE: usize = 512;

/// The four little-endian bytes of a number.
pub open spec fn le_bytes4(n: u32) -> Seq<u8> {
    seq![
        (n % 256) as u8,
        (n / 256 % 256) as u8,
        (n / 65536 % 256) as u8,
        (n / 16777216) as u8,
    ]
}

/// The number that four little-endian bytes hold.
pub open spec fn le_number4(b: Seq<u8>) -> nat {
    (b[0] as nat) + (b[1] as nat) * 256 + (b[2] as nat) * 65536 + (b[3] as nat) * 16777216
}

/// The serialisation of a commitment.
pub open spec fn output_bytes(o: Output) -> Seq<u8> {
    fq12_serialized(o.0) + fq12_serialized(o.1)
}

/// The serialisations of the commitments of the rounds to both cross terms.
pub open spec fn commitments_bytes(v: Seq<(Output, Output)>) -> Seq<u8>
    decreases v.len(),
{
    if v.len() == 0 {
        Seq::empty()
    } else {
        commitments_bytes(v.drop_last()) + output_bytes(v.last().0) + output_bytes(v.last().1)
    }
}

/// The serialisations of the inner products of the rounds in the target field.
pub open spec fn products_bytes(v: Seq<(Fq12, Fq12)>) -> Seq<u8>
    decreases v.len(),
{
    if v.len() == 0 {
        Seq::empty()
    } else {
        products_bytes(v.drop_last()) + output_bytes(v.last())
    }
}

/// The serialisations of the inner products of the rounds in G1.
pub open spec fn points_bytes(v: Seq<(G1, G1)>) -> Seq<u8>
    decreases v.len(),
{
    if v.len() == 0 {
        Seq::empty()
    } else {
        points_bytes(v.drop_last()) + g1_serialized(v.last().0) + g1_serialized(v.last().1)
    }
}

/// The proof on the wire.
pub open spec fn wire_spec(p: AggregateProofView) -> Seq<u8> {
    let g = p.tmipp.gipa;
    output_bytes(p.com_ab) + output_bytes(p.com_c) + fq12_serialized(p.ip_ab) + g1_serialized(
        p.agg_c,
    ) + le_bytes4(g.nproofs) + commitments_bytes(g.comms_ab) + commitments_bytes(g.comms_c)
        + products_bytes(g.z_ab) + points_bytes(g.z_c) + g1_serialized(g.final_a) + g2_serialized(
        g.final_b,
    ) + g1_serialized(g.final_c) + g2_serialized(g.final_vkey.0) + g2_serialized(g.final_vkey.1)
        + g1_serialized(g.final_wkey.0) + g1_serialized(g.final_wkey.1) + g2_serialized(
        p.tmipp.vkey_opening.0,
    ) + g2_serialized(p.tmipp.vkey_opening.1) + g1_serialized(p.tmipp.wkey_opening.0)
        + g1_serialized(p.tmipp.wkey_opening.1)
}

/// The point of G1 that the bytes hold at `at`.
pub open spec fn g1_at(b: Seq<u8>, at: int) -> Option<G1> {
    g1_deserialized(b.subrange(at, at + G1_SIZE))
}

/// The point of G2 that the bytes hold at `at`.
pub open spec fn g2_at(b: Seq<u8>, at: int) -> Option<G2> {
    g2_deserialized(b.subrange(at, at + G2_SIZE))
}

/// The element of the target field that the bytes hold at `at`.
pub open spec fn gt_at(b: Seq<u8>, at: int) -> Option<Fq12> {
    fq12_deserialized(b.subrange(at, at + GT_SIZE))
}

/// The two points of G1 that the bytes hold at `at`.
pub open spec fn g1_pair_at(b: Seq<u8>, at: int) -> Option<(G1, G1)> {
    match (g1_at(b, at), g1_at(b, at + G1_SIZE)) {
        (Some(x), Some(y)) => Some((x, y)),
        _ => None,
    }
}

/// The two points of G2 that the bytes hold at `at`.
pub open spec fn g2_pair_at(b: Seq<u8>, at: int) -> Option<(G2, G2)> {
    match (g2_at(b, at), g2_at(b, at + G2_SIZE)) {
        (Some(x), Some(y)) => Some((x, y)),
        _ => None,
    }
}

/// The commitment that the bytes hold at `at`.
pub open spec fn output_at(b: Seq<u8>, at: int) -> Option<Output> {
    match (gt_at(b, at), gt_at(b, at + GT_SIZE)) {
        (Some(x), Some(y)) => Some((x, y)),
        _ => None,
    }
}

/// The two commitments that the bytes hold at `at`.
pub open spec fn outputs_at(b: Seq<u8>, at: int) -> Option<(Output, Output)> {
    match (output_at(b, at), output_at(b, at + 2 * GT_SIZE)) {
        (Some(x), Some(y)) => Some((x, y)),
        _ => None,
    }
}

/// Where the parts of a proof of `k` rounds begin on the wire.
pub ghost struct Offsets {
    pub comms_ab: int,
    pub comms_c: int,
    pub z_ab: int,
    pub z_c: int,
    pub tail: int,
}

/// Where the parts of a proof of `k` rounds begin on the wire.
pub open spec fn offsets(k: int) -> Offsets {
    Offsets {
        comms_ab: HEAD_SIZE as int,
        comms_c: HEAD_SIZE + k * 1536,
        z_ab: HEAD_SIZE + k * 3072,
        z_c: HEAD_SIZE + k * 3840,
        tail: HEAD_SIZE + k * 3904,
    }
}

/// Whether the bytes are a proof on the wire: they have the length of a
/// proof of the number of proofs that they state, which is a power of two
/// and at least two, and each of their parts holds a value
/// of its kind.
pub open spec fn is_wire(b: Seq<u8>) -> bool {
    &&& b.len() >= HEAD_SIZE
    &&& {
        let n = le_number4(b.subrange(1952, 1956));
        let k = rounds_spec(n) as int;
        let o = offsets(k);
        &&& 2 <= n
        &&& is_power_of_two_spec(n)
        &&& b.len() == HEAD_SIZE + k * ROUND_SIZE + TAIL_SIZE
        &&& output_at(b, 0) is Some
        &&& output_at(b, 768) is Some
        &&& gt_at(b, 1536) is Some
        &&& g1_at(b, 1920) is Some
        &&& forall|i: int| 0 <= i < k ==> (#[trigger] outputs_at(b, o.comms_ab + i * 1536)) is Some
        &&& forall|i: int| 0 <= i < k ==> (#[trigger] outputs_at(b, o.comms_c + i * 1536)) is Some
        &&& forall|i: int| 0 <= i < k ==> (#[trigger] output_at(b, o.z_ab + i * 768)) is Some
        &&& forall|i: int| 0 <= i < k ==> (#[trigger] g1_pair_at(b, o.z_c + i * 64)) is Some
        &&& g1_at(b, o.tail) is Some
        &&& g2_at(b, o.tail + 32) is Some
        &&& g1_at(b, o.tail + 96) is Some
        &&& g2_pair_at(b, o.tail + 128) is Some
        &&& g1_pair_at(b, o.tail + 256) is Some
        &&& g2_pair_at(b, o.tail + 320) is Some
        &&& g1_pair_at(b, o.tail + 448) is Some
    }
}

/// The proof that the bytes hold, where they are a proof on the wire.
pub open spec fn parsed_spec(b: Seq<u8>) -> AggregateProofView {
    let n = le_number4(b.subrange(1952, 1956));
    let k = rounds_spec(n) as int;
    let o = offsets(k);
    let v = g2_pair_at(b, o.tail + 320)->Some_0;
    let w = g1_pair_at(b, o.tail + 448)->Some_0;
    AggregateProofView {
        com_ab: output_at(b, 0)->0,
        com_c: output_at(b, 768)->0,
        ip_ab: gt_at(b, 1536)->0,
        agg_c: g1_at(b, 1920)->0,
        tmipp: TippMippProofView {
            gipa: GipaProofView {
                nproofs: n as u32,
                comms_ab: Seq::new(k as nat, |i: int| outputs_at(b, o.comms_ab + i * 1536)->0),
                comms_c: Seq::new(k as nat, |i: int| outputs_at(b, o.comms_c + i * 1536)->0),
                z_ab: Seq::new(k as nat, |i: int| output_at(b, o.z_ab + i * 768)->0),
                z_c: Seq::new(k as nat, |i: int| g1_pair_at(b, o.z_c + i * 64)->0),
                final_a: g1_at(b, o.tail)->0,
                final_b: g2_at(b, o.tail + 32)->0,
                final_c: g1_at(b, o.tail + 96)->0,
                final_vkey: g2_pair_at(b, o.tail + 128)->0,
                final_wkey: g1_pair_at(b, o.tail + 256)->0,
            },
            vkey_opening: KZGOpening(v.0, v.1),
            wkey_opening: KZGOpening(w.0, w.1),
        },
    }
}

fn write_gt(out: &mut Vec<u8>, x: &Fq12)
    ensures
        final(out)@ == old(out)@ + fq12_serialized(*x),
{
    let mut bytes = fq12_serialize(x);
    out.append(&mut bytes);
}

fn write_g1(out: &mut Vec<u8>, x: &G1)
    ensures
        final(out)@ == old(out)@ + g1_serialized(*x),
{
    let mut bytes = g1_serialize(x);
    out.append(&mut bytes);
}

fn write_g2(out: &mut Vec<u8>, x: &G2)
    ensures
        final(out)@ == old(out)@ + g2_serialized(*x),
{
    let mut bytes = g2_serialize(x);
    out.append(&mut bytes);
}

fn write_output(out: &mut Vec<u8>, x: &Output)
    ensures
        final(out)@ == old(out)@ + output_bytes(*x),
{
    write_gt(out, &x.0);
    write_gt(out, &x.1);
    assert(out@ =~= old(out)@ + output_bytes(*x));
}

fn write_number(out: &mut Vec<u8>, n: u32)
    ensures
        final(out)@ == old(out)@ + le_bytes4(n),
{
    out.push((n % 256) as u8);
    out.push((n / 256 % 256) as u8);
    out.push((n / 65536 % 256) as u8);
    out.push((n / 16777216) as u8);
    assert(out@ =~= old(out)@ + le_bytes4(n));
}

fn read_g1(bytes: &[u8], at: usize) -> (r: Option<G1>)
    requires
        at + G1_SIZE <= bytes.len(),
    ensures
        r == g1_at(bytes@, at as int),
{
    g1_deserialize(slice_subrange(bytes, at, at + G1_SIZE))
}

fn read_g2(bytes: &[u8], at: usize) -> (r: Option<G2>)
    requires
        at + G2_SIZE <= bytes.len(),
    ensures
        r == g2_at(bytes@, at as int),
{
    g2_deserialize(slice_subrange(bytes, at, at + G2_SIZE))
}

fn read_gt(bytes: &[u8], at: usize) -> (r: Option<Fq12>)
    requires
        at + GT_SIZE <= bytes.len(),
    ensures
        r == gt_at(bytes@, at as int),
{
    fq12_deserialize(slice_subrange(bytes, at, at + GT_SIZE))
}

fn read_g1_pair(bytes: &[u8], at: usize) -> (r: Option<(G1, G1)>)
    requires
        at + 2 * G1_SIZE <= bytes.len(),
    ensures
        r == g1_pair_at(bytes@, at as int),
{
    let x = read_g1(bytes, at);
    let y = read_g1(bytes, at + G1_SIZE);
    match (x, y) {
        (Some(x), Some(y)) => Some((x, y)),
        _ => None,
    }
}

fn read_g2_pair(bytes: &[u8], at: usize) -> (r: Option<(G2, G2)>)
    requires
        at + 2 * G2_SIZE <= bytes.len(),
    ensures
        r == g2_pair_at(bytes@, at as int),
{
    let x = read_g2(bytes, at);
    let y = read_g2(bytes, at + G2_SIZE);
    match (x, y) {
        (Some(x), Some(y)) => Some((x, y)),
        _ => None,
    }
}

fn read_output(bytes: &[u8], at: usize) -> (r: Option<Output>)
    requires
        at + 2 * GT_SIZE <= bytes.len(),
    ensures
        r == output_at(bytes@, at as int),
{
    let x = read_gt(bytes, at);
    let y = read_gt(bytes, at + GT_SIZE);
    match (x, y) {
        (Some(x), Some(y)) => Some((x, y)),
        _ => None,
    }
}

fn read_outputs(bytes: &[u8], at: usize) -> (r: Option<(Output, Output)>)
    requires
        at + 4 * GT_SIZE <= bytes.len(),
    ensures
        r == outputs_at(bytes@, at as int),
{
    let x = read_output(bytes, at);
    let y = read_output(bytes, at + 2 * GT_SIZE);
    match (x, y) {
        (Some(x), Some(y)) => Some((x, y)),
        _ => None,
    }
}

impl AggregateProof {
    /// The proof on the wire.
    pub fn write(&self) -> (out: Vec<u8>)
        ensures
            out@ == wire_spec(self@),
    {
        let gipa = &self.tmipp.gipa;
        let mut out: Vec<u8> = Vec::new();
        write_output(&mut out, &self.com_ab);
        write_output(&mut out, &self.com_c);
        write_gt(&mut out, &self.ip_ab);
        write_g1(&mut out, &self.agg_c);
        write_number(&mut out, gipa.nproofs);
        let ghost head = out@;
        assert(head =~= output_bytes(self.com_ab) + output_bytes(self.com_c) + fq12_serialized(
            self.ip_ab,
        ) + g1_serialized(self.agg_c) + le_bytes4(gipa.nproofs));

        let mut i: usize = 0;
        while i < gipa.comms_ab.len()
            invariant
                i <= gipa.comms_ab.len(),
                out@ == head + commitments_bytes(gipa.comms_ab@.subrange(0, i as int)),
            decreases gipa.comms_ab.len() - i,
        {
            proof {
                let next = gipa.comms_ab@.subrange(0, i + 1);
                assert(next.drop_last() =~= gipa.comms_ab@.subrange(0, i as int));
            }
            let ghost before = out@;
            write_output(&mut out, &gipa.comms_ab[i].0);
            write_output(&mut out, &gipa.comms_ab[i].1);
            assert(out@ =~= head + commitments_bytes(gipa.comms_ab@.subrange(0, i + 1)));
            i += 1;
        }
        assert(gipa.comms_ab@.subrange(0, gipa.comms_ab.len() as int) =~= gipa.comms_ab@);
        let ghost head = out@;

        let mut i: usize = 0;
        while i < gipa.comms_c.len()
            invariant
                i <= gipa.comms_c.len(),
                out@ == head + commitments_bytes(gipa.comms_c@.subrange(0, i as int)),
            decreases gipa.comms_c.len() - i,
        {
            proof {
                let next = gipa.comms_c@.subrange(0, i + 1);
                assert(next.drop_last() =~= gipa.comms_c@.subrange(0, i as int));
            }
            write_output(&mut out, &gipa.comms_c[i].0);
            write_output(&mut out, &gipa.comms_c[i].1);
            assert(out@ =~= head + commitments_bytes(gipa.comms_c@.subrange(0, i + 1)));
            i += 1;
        }
        assert(gipa.comms_c@.subrange(0, gipa.comms_c.len() as int) =~= gipa.comms_c@);
        let ghost head = out@;

        let mut i: usize = 0;
        while i < gipa.z_ab.len()
            invariant
                i <= gipa.z_ab.len(),
                out@ == head + products_bytes(gipa.z_ab@.subrange(0, i as int)),
            decreases gipa.z_ab.len() - i,
        {
            proof {
                let next = gipa.z_ab@.subrange(0, i + 1);
                assert(next.drop_last() =~= gipa.z_ab@.subrange(0, i as int));
            }
            write_output(&mut out, &gipa.z_ab[i]);
            assert(out@ =~= head + products_bytes(gipa.z_ab@.subrange(0, i + 1)));
            i += 1;
        }
        assert(gipa.z_ab@.subrange(0, gipa.z_ab.len() as int) =~= gipa.z_ab@);
        let ghost head = out@;

        let mut i: usize = 0;
        while i < gipa.z_c.len()
            invariant
                i <= gipa.z_c.len(),
                out@ == head + points_bytes(gipa.z_c@.subrange(0, i as int)),
            decreases gipa.z_c.len() - i,
        {
            proof {
                let next = gipa.z_c@.subrange(0, i + 1);
                assert(next.drop_last() =~= gipa.z_c@.subrange(0, i as int));
            }
            write_g1(&mut out, &gipa.z_c[i].0);
            write_g1(&mut out, &gipa.z_c[i].1);
            assert(out@ =~= head + points_bytes(gipa.z_c@.subrange(0, i + 1)));
            i += 1;
        }
        assert(gipa.z_c@.subrange(0, gipa.z_c.len() as int) =~= gipa.z_c@);

        write_g1(&mut out, &gipa.final_a);
        write_g2(&mut out, &gipa.final_b);
        write_g1(&mut out, &gipa.final_c);
        write_g2(&mut out, &gipa.final_vkey.0);
        write_g2(&mut out, &gipa.final_vkey.1);
        write_g1(&mut out, &gipa.final_wkey.0);
        write_g1(&mut out, &gipa.final_wkey.1);
        write_g2(&mut out, &self.tmipp.vkey_opening.0);
        write_g2(&mut out, &self.tmipp.vkey_opening.1);
        write_g1(&mut out, &self.tmipp.wkey_opening.0);
        write_g1(&mut out, &self.tmipp.wkey_opening.1);
        out
    }

    /// The proof that the bytes hold. It fails where the bytes are no proof
    /// on the wire: where their length is not that of a proof of the number
    /// of proofs that they state, or a part of them holds no value of its
    /// kind.
    pub fn read(bytes: &[u8]) -> (r: Result<AggregateProof, Error>)
        ensures
            is_wire(bytes@) ==> r is Ok && r->Ok_0@ == parsed_spec(bytes@),
            !is_wire(bytes@) ==> r is Err && r->Err_0.kind() == ErrorKind::MalformedProof,
    {
        if bytes.len() < HEAD_SIZE {
            return Err(Error::MalformedProof);
        }
        let number = slice_subrange(bytes, 1952, 1956);
        let wide: u64 = number[0] as u64 + number[1] as u64 * 256 + number[2] as u64 * 65536
            + number[3] as u64 * 16777216;
        if wide < 2 {
            return Err(Error::MalformedProof);
        }
        let nproofs = wide as u32;
        if !is_power_of_two(nproofs as usize) {
            return Err(Error::MalformedProof);
        }
        let k = rounds(nproofs as usize);
        proof {
            lemma_rounds_bound(nproofs as nat);
        }
        if bytes.len() != HEAD_SIZE + k * ROUND_SIZE + TAIL_SIZE {
            return Err(Error::MalformedProof);
        }
        let ghost o = offsets(k as int);
        let com_ab = match read_output(bytes, 0) {
            Some(x) => x,
            None => {
                return Err(Error::MalformedProof);
            },
        };
        let com_c = match read_output(bytes, 768) {
            Some(x) => x,
            None => {
                return Err(Error::MalformedProof);
            },
        };
        let ip_ab = match read_gt(bytes, 1536) {
            Some(x) => x,
            None => {
                return Err(Error::MalformedProof);
            },
        };
        let agg_c = match read_g1(bytes, 1920) {
            Some(x) => x,
            None => {
                return Err(Error::MalformedProof);
            },
        };

        let mut comms_ab: Vec<(Output, Output)> = Vec::with_capacity(k);
        let mut i: usize = 0;
        while i < k
            invariant
                i <= k,
                k <= 32,
                bytes.len() == HEAD_SIZE + k * ROUND_SIZE + TAIL_SIZE,
                o == offsets(k as int),
                comms_ab.len() == i,
                forall|j: int|
                    0 <= j < i ==> (#[trigger] outputs_at(bytes@, o.comms_ab + j * 1536)) == Some(
                        comms_ab@[j],
                    ),
            decreases k - i,
        {
            match read_outputs(bytes, HEAD_SIZE + i * 1536) {
                Some(x) => comms_ab.push(x),
                None => {
                    assert(outputs_at(bytes@, o.comms_ab + i * 1536) is None);
                    return Err(Error::MalformedProof);
                },
            }
            i += 1;
        }
        let mut comms_c: Vec<(Output, Output)> = Vec::with_capacity(k);
        let mut i: usize = 0;
        while i < k
            invariant
                i <= k,
                k <= 32,
                bytes.len() == HEAD_SIZE + k * ROUND_SIZE + TAIL_SIZE,
                o == offsets(k as int),
                comms_c.len() == i,
                forall|j: int|
                    0 <= j < i ==> (#[trigger] outputs_at(bytes@, o.comms_c + j * 1536)) == Some(
                        comms_c@[j],
                    ),
            decreases k - i,
        {
            match read_outputs(bytes, HEAD_SIZE + k * 1536 + i * 1536) {
                Some(x) => comms_c.push(x),
                None => {
                    assert(outputs_at(bytes@, o.comms_c + i * 1536) is None);
                    return Err(Error::MalformedProof);
                },
            }
            i += 1;
        }
        let mut z_ab: Vec<(Fq12, Fq12)> = Vec::with_capacity(k);
        let mut i: usize = 0;
        while i < k
            invariant
                i <= k,
                k <= 32,
                bytes.len() == HEAD_SIZE + k * ROUND_SIZE + TAIL_SIZE,
                o == offsets(k as int),
                z_ab.len() == i,
                forall|j: int|
                    0 <= j < i ==> (#[trigger] output_at(bytes@, o.z_ab + j * 768)) == Some(
                        z_ab@[j],
                    ),
            decreases k - i,
        {
            match read_output(bytes, HEAD_SIZE + k * 3072 + i * 768) {
                Some(x) => z_ab.push(x),
                None => {
                    assert(output_at(bytes@, o.z_ab + i * 768) is None);
                    return Err(Error::MalformedProof);
                },
            }
            i += 1;
        }
        let mut z_c: Vec<(G1, G1)> = Vec::with_capacity(k);
        let mut i: usize = 0;
        while i < k
            invariant
                i <= k,
                k <= 32,
                bytes.len() == HEAD_SIZE + k * ROUND_SIZE + TAIL_SIZE,
                o == offsets(k as int),
                z_c.len() == i,
                forall|j: int|
                    0 <= j < i ==> (#[trigger] g1_pair_at(bytes@, o.z_c + j * 64)) == Some(
                        z_c@[j],
                    ),
            decreases k - i,
        {
            match read_g1_pair(bytes, HEAD_SIZE + k * 3840 + i * 64) {
                Some(x) => z_c.push(x),
                None => {
                    assert(g1_pair_at(bytes@, o.z_c + i * 64) is None);
                    return Err(Error::MalformedProof);
                },
            }
            i += 1;
        }

        let tail = HEAD_SIZE + k * ROUND_SIZE;
        let final_a = match read_g1(bytes, tail) {
            Some(x) => x,
            None => {
                return Err(Error::MalformedProof);
            },
        };
        let final_b = match read_g2(bytes, tail + 32) {
            Some(x) => x,
            None => {
                return Err(Error::MalformedProof);
            },
        };
        let final_c = match read_g1(bytes, tail + 96) {
            Some(x) => x,
            None => {
                return Err(Error::MalformedProof);
            },
        };
        let final_vkey = match read_g2_pair(bytes, tail + 128) {
            Some(x) => x,
            None => {
                return Err(Error::MalformedProof);
            },
        };
        let final_wkey = match read_g1_pair(bytes, tail + 256) {
            Some(x) => x,
            None => {
                return Err(Error::MalformedProof);
            },
        };
        let vkey_opening = match read_g2_pair(bytes, tail + 320) {
            Some(x) => x,
            None => {
                return Err(Error::MalformedProof);
            },
        };
        let wkey_opening = match read_g1_pair(bytes, tail + 448) {
            Some(x) => x,
            None => {
                return Err(Error::MalformedProof);
            },
        };
        let proof = AggregateProof {
            com_ab,
            com_c,
            ip_ab,
            agg_c,
            tmipp: TippMippProof {
                gipa: GipaProof {
                    nproofs,
                    comms_ab,
                    comms_c,
                    z_ab,
                    z_c,
                    final_a,
                    final_b,
                    final_c,
                    final_vkey,
                    final_wkey,
                },
                vkey_opening: KZGOpening(vkey_opening.0, vkey_opening.1),
                wkey_opening: KZGOpening(wkey_opening.0, wkey_opening.1),
            },
        };
        proof {
            let want = parsed_spec(bytes@);
            assert(proof@.tmipp.gipa.comms_ab =~= want.tmipp.gipa.comms_ab);
            assert(proof@.tmipp.gipa.comms_c =~= want.tmipp.gipa.comms_c);
            assert(proof@.tmipp.gipa.z_ab =~= want.tmipp.gipa.z_ab);
            assert(proof@.tmipp.gipa.z_c =~= want.tmipp.gipa.z_c);
        }
        Ok(proof)
    }
}

/// Halving a number that fits 32 bits down to one takes at most 32 rounds.
proof fn lemma_rounds_bound(n: nat)
    requires
        n <= u32::MAX,
    ensures
        rounds_spec(n) <= 32,
{
    assert(crate::polynomial::two_to(32) == 0x1_0000_0000) by {
        reveal_with_fuel(crate::polynomial::two_to, 33);
    }
    lemma_rounds_below(n, 32);
}

/// Halving a number below two to the `bits` down to one takes at most
/// `bits` rounds.
proof fn lemma_rounds_below(n: nat, bits: nat)
    requires
        n < crate::polynomial::two_to(bits),
    ensures
        rounds_spec(n) <= bits,
    decreases bits,
{
    if n > 1 {
        if bits > 0 {
            lemma_rounds_below(n / 2, (bits - 1) as nat);
        }
    }
}

} // verus!
