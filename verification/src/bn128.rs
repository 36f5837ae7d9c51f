//! The three operations on byte buffers: addition and scalar multiplication
//! in the first group, and the pairing check.
//!
//! A coordinate takes 32 bytes of a buffer. It is read by `read_input`, which
//! reverses the bytes, and the reversed bytes are taken with the most
//! significant byte first. A point of the first group takes 64 bytes, x before
//! y; all zero stands for the point at infinity.

use vstd::prelude::*;
use crate::bytes::{lemma_be_bytes_of_be_value, zeros};
use crate::chain_ext::InvalidArgument;
use crate::curve::{
    g1_from, g1_scalar_product, g1_sum, g2_from, pairing_check, pairing_product_is_one,
    point_values, Fq2Element, G1Point, G1Value, G2Point, G2Value,
};
use crate::field::{encode_number, fq_at, fr_at, read_fq, read_fr, FieldElement};

verus! {

/// The length of one block of the pairing check's input: a point of the
/// first group and a point of the second.
pub const PAIR_LEN: usize = 192;

/// The point of the first group at `offset` of `input`: x at `offset`, y 32
/// bytes on.
pub open spec fn point_at(input: Seq<u8>, offset: int) -> Result<G1Value, InvalidArgument> {
    match (fq_at(input, offset), fq_at(input, offset + 32)) {
        (Ok(x), Ok(y)) => g1_from(x, y),
        _ => Err(InvalidArgument::NotInField),
    }
}

/// The pair of points at `offset` of `input`. The point of the first group
/// comes first, x before y. The point of the second group follows, x before
/// y, and of each coordinate the imaginary part before the real one. All six
/// numbers have to be field elements before either point is looked at.
pub open spec fn pair_at(input: Seq<u8>, offset: int) -> Result<
    (G1Value, G2Value),
    InvalidArgument,
> {
    match (
        fq_at(input, offset),
        fq_at(input, offset + 32),
        fq_at(input, offset + 64),
        fq_at(input, offset + 96),
        fq_at(input, offset + 128),
        fq_at(input, offset + 160),
    ) {
        (Ok(ax), Ok(ay), Ok(bx_imaginary), Ok(bx_real), Ok(by_imaginary), Ok(by_real)) => match (
            g2_from((bx_real, bx_imaginary), (by_real, by_imaginary)),
            g1_from(ax, ay),
        ) {
            (Ok(b), Ok(a)) => Ok((a, b)),
            _ => Err(InvalidArgument::NotOnCurve),
        },
        _ => Err(InvalidArgument::NotInField),
    }
}

/// The first `count` pairs of `input`, or the error of the first block that
/// holds none.
pub open spec fn pairs_in(input: Seq<u8>, count: nat) -> Result<
    Seq<(G1Value, G2Value)>,
    InvalidArgument,
>
    decreases count,
{
    if count == 0 {
        Ok(Seq::empty())
    } else {
        match pairs_in(input, (count - 1) as nat) {
            Err(error) => Err(error),
            Ok(before) => match pair_at(input, (count - 1) * 192) {
                Err(error) => Err(error),
                Ok(pair) => Ok(before.push(pair)),
            },
        }
    }
}

/// The 64 bytes that stand for a point of the first group: all zero for the
/// point at infinity, else x and then y, each in 32 bytes with the least
/// significant byte first.
pub open spec fn encode_point(point: G1Value) -> Seq<u8> {
    match point {
        None => zeros(64),
        Some((x, y)) => encode_number(x) + encode_number(y),
    }
}

/// What `add` returns on `input`.
pub open spec fn add_result(input: Seq<u8>) -> Result<Seq<u8>, InvalidArgument> {
    match point_at(input, 0) {
        Err(error) => Err(error),
        Ok(p) => match point_at(input, 64) {
            Err(error) => Err(error),
            Ok(q) => Ok(encode_point(g1_sum(p, q))),
        },
    }
}

/// What `mul` returns on `input`.
pub open spec fn mul_result(input: Seq<u8>) -> Result<Seq<u8>, InvalidArgument> {
    match point_at(input, 0) {
        Err(error) => Err(error),
        Ok(p) => match fr_at(input, 64) {
            Err(error) => Err(error),
            Ok(scalar) => Ok(encode_point(g1_scalar_product(p, scalar))),
        },
    }
}

/// What `pairing` returns on `input`.
pub open spec fn pairing_result(input: Seq<u8>) -> Result<bool, InvalidArgument> {
    if input.len() % 192 != 0 {
        Err(InvalidArgument::InvalidLength)
    } else {
        match pairs_in(input, input.len() / 192) {
            Err(error) => Err(error),
            Ok(pairs) => Ok(pairing_product_is_one(pairs)),
        }
    }
}

/// Reads the field element that lies `ahead` bytes after `start`. Where that
/// place is beyond what a buffer can hold, the element is zero, as for every
/// place past the end of `input`.
fn read_fq_ahead(input: &[u8], start: usize, ahead: usize) -> (r: Result<
    FieldElement,
    InvalidArgument,
>)
    ensures
        match fq_at(input@, start + ahead) {
            Ok(value) => r matches Ok(element) && element@ == value && element.wf(),
            Err(error) => r == Err::<FieldElement, InvalidArgument>(error),
        },
{
    if start <= usize::MAX - ahead {
        read_fq(input, start + ahead)
    } else {
        assert(input@.len() == input.len());
        read_fq(input, usize::MAX)
    }
}

/// Reads the point of the first group at `start_inx` of `input`. Bytes that
/// `input` does not hold count as zero. Two zero coordinates give the point
/// at infinity; other coordinates have to lie on the curve.
pub fn read_point(input: &[u8], start_inx: usize) -> (r: Result<G1Point, InvalidArgument>)
    ensures
        match point_at(input@, start_inx as int) {
            Ok(value) => r matches Ok(point) && point@ == value && point.wf(),
            Err(error) => r == Err::<G1Point, InvalidArgument>(error),
        },
{
    let px = match read_fq(input, start_inx) {
        Ok(px) => px,
        Err(error) => {
            return Err(error);
        },
    };
    let py = match read_fq_ahead(input, start_inx, 32) {
        Ok(py) => py,
        Err(error) => {
            return Err(error);
        },
    };
    G1Point::from_coordinates(px, py)
}

/// Reads the pair of points at `start_inx` of `input`, the block of 192 bytes
/// that starts there.
pub fn read_pair(input: &[u8], start_inx: usize) -> (r: Result<
    (G1Point, G2Point),
    InvalidArgument,
>)
    ensures
        match pair_at(input@, start_inx as int) {
            Ok(value) => r matches Ok(pair) && pair.0@ == value.0 && pair.1@ == value.1
                && pair.0.wf() && pair.1.wf(),
            Err(error) => r == Err::<(G1Point, G2Point), InvalidArgument>(error),
        },
{
    let a_x = match read_fq(input, start_inx) {
        Ok(element) => element,
        Err(error) => {
            return Err(error);
        },
    };
    let a_y = match read_fq_ahead(input, start_inx, 32) {
        Ok(element) => element,
        Err(error) => {
            return Err(error);
        },
    };
    let b_a_y = match read_fq_ahead(input, start_inx, 64) {
        Ok(element) => element,
        Err(error) => {
            return Err(error);
        },
    };
    let b_a_x = match read_fq_ahead(input, start_inx, 96) {
        Ok(element) => element,
        Err(error) => {
            return Err(error);
        },
    };
    let b_b_y = match read_fq_ahead(input, start_inx, 128) {
        Ok(element) => element,
        Err(error) => {
            return Err(error);
        },
    };
    let b_b_x = match read_fq_ahead(input, start_inx, 160) {
        Ok(element) => element,
        Err(error) => {
            return Err(error);
        },
    };
    let b_a = Fq2Element { real: b_a_x, imaginary: b_a_y };
    let b_b = Fq2Element { real: b_b_x, imaginary: b_b_y };
    let b = match G2Point::from_coordinates(b_a, b_b) {
        Ok(point) => point,
        Err(error) => {
            return Err(error);
        },
    };
    let a = match G1Point::from_coordinates(a_x, a_y) {
        Ok(point) => point,
        Err(error) => {
            return Err(error);
        },
    };
    Ok((a, b))
}

/// Writes the 64 bytes that stand for `point` to `output`: zero throughout
/// for the point at infinity, else x and then y, the bytes of each reversed.
pub fn write_point(output: &mut [u8; 64], point: &G1Point)
    ensures
        final(output)@ == encode_point(point@),
{
    match point {
        G1Point::Infinity => {
            let mut i: usize = 0;
            while i < 64
                invariant
                    i <= 64,
                    forall|k: int| 0 <= k < i ==> output@[k] == 0,
                decreases 64 - i,
            {
                output[i] = 0;
                i += 1;
            }
            assert(output@ =~= zeros(64));
        },
        G1Point::Affine(affine) => {
            let mut i: usize = 0;
            while i < 32
                invariant
                    i <= 32,
                    forall|k: int| 0 <= k < i ==> output@[k] == affine.x.bytes@[31 - k],
                    forall|k: int| 32 <= k < 32 + i ==> output@[k] == affine.y.bytes@[63 - k],
                decreases 32 - i,
            {
                output[i] = affine.x.bytes[31 - i];
                output[32 + i] = affine.y.bytes[31 - i];
                i += 1;
            }
            proof {
                lemma_be_bytes_of_be_value(affine.x.bytes@);
                lemma_be_bytes_of_be_value(affine.y.bytes@);
                assert(output@ =~= affine.x.bytes@.reverse() + affine.y.bytes@.reverse());
            }
        },
    }
}

/// Adds two points of the first group. `input` holds the first point in its
/// bytes 0 to 63 and the second in its bytes 64 to 127; bytes that it does
/// not hold count as zero. The sum comes back in 64 bytes.
pub fn add(input: &[u8]) -> (r: Result<[u8; 64], InvalidArgument>)
    ensures
        match add_result(input@) {
            Ok(bytes) => r matches Ok(output) && output@ == bytes,
            Err(error) => r == Err::<[u8; 64], InvalidArgument>(error),
        },
{
    let first = match read_point(input, 0) {
        Ok(point) => point,
        Err(error) => {
            return Err(error);
        },
    };
    let second = match read_point(input, 64) {
        Ok(point) => point,
        Err(error) => {
            return Err(error);
        },
    };
    let mut output = [0u8; 64];
    write_point(&mut output, &first.sum(&second));
    Ok(output)
}

/// Multiplies a point of the first group by a scalar. `input` holds the point
/// in its bytes 0 to 63 and the scalar in its bytes 64 to 95; bytes that it
/// does not hold count as zero. The product comes back in 64 bytes.
pub fn mul(input: &[u8]) -> (r: Result<[u8; 64], InvalidArgument>)
    ensures
        match mul_result(input@) {
            Ok(bytes) => r matches Ok(output) && output@ == bytes,
            Err(error) => r == Err::<[u8; 64], InvalidArgument>(error),
        },
{
    let p = match read_point(input, 0) {
        Ok(point) => point,
        Err(error) => {
            return Err(error);
        },
    };
    let fr = match read_fr(input, 64) {
        Ok(scalar) => scalar,
        Err(error) => {
            return Err(error);
        },
    };
    let mut output = [0u8; 64];
    write_point(&mut output, &p.product(&fr));
    Ok(output)
}

/// Checks whether the product of the pairings of the pairs in `input` is the
/// unit of the target group. `input` holds one pair in each 192 bytes; a
/// length that is no multiple of 192 is turned down. No pairs at all give
/// `true`.
pub fn pairing(input: &[u8]) -> (r: Result<bool, InvalidArgument>)
    ensures
        r == pairing_result(input@),
{
    if input.len() % PAIR_LEN != 0 {
        return Err(InvalidArgument::InvalidLength);
    }
    let elements: usize = input.len() / PAIR_LEN;
    let mut vals: Vec<(G1Point, G2Point)> = Vec::new();
    let mut idx: usize = 0;
    assert(point_values(vals@) =~= Seq::empty());
    while idx < elements
        invariant
            idx <= elements,
            elements == input.len() / 192,
            input.len() % 192 == 0,
            pairs_in(input@, idx as nat) == Ok::<Seq<(G1Value, G2Value)>, InvalidArgument>(
                point_values(vals@),
            ),
            forall|k: int| 0 <= k < vals.len() ==> vals[k].0.wf() && vals[k].1.wf(),
        decreases elements - idx,
    {
        let ghost before = vals@;
        match read_pair(input, idx * PAIR_LEN) {
            Ok(pair) => {
                vals.push(pair);
                assert(point_values(vals@) =~= point_values(before).push((pair.0@, pair.1@)));
            },
            Err(error) => {
                proof {
                    lemma_pairs_in_fails(input@, (idx + 1) as nat, elements as nat);
                }
                return Err(error);
            },
        }
        idx += 1;
    }
    Ok(pairing_check(&vals))
}

/// An error among the first pairs is the error of every longer run of pairs.
pub proof fn lemma_pairs_in_fails(input: Seq<u8>, count: nat, more: nat)
    requires
        count <= more,
        pairs_in(input, count) is Err,
    ensures
        pairs_in(input, more) == pairs_in(input, count),
    decreases more,
{
    if count < more {
        lemma_pairs_in_fails(input, count, (more - 1) as nat);
    }
}

} // verus!
