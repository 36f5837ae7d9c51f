//! What holds of the three operations on every input.

use vstd::prelude::*;
use crate::bn128::{add_result, encode_point, mul_result, pairing_result, point_at};
use crate::bytes::{
    be_bytes, input_read, lemma_be_bytes_len, lemma_be_value_of_be_bytes, lemma_be_value_zero,
    lemma_pow256_values, overlay, pow256, zeros,
};
use crate::chain_ext::InvalidArgument;
use crate::curve::{
    fq2_product, g1_from, g1_valid, on_curve, on_twist, twist_coefficient, G1Value,
};
use crate::field::{encode_number, fq_at, fq_modulus, fr_at, fr_modulus, number_at};

verus! {

/// A number that fits into 32 bytes is read back from its encoding, wherever
/// in a buffer the encoding lies.
pub proof fn lemma_number_at_encoded(before: Seq<u8>, value: nat, after: Seq<u8>)
    requires
        value < pow256(32),
    ensures
        number_at(before + encode_number(value) + after, before.len() as int) == value,
{
    let input = before + encode_number(value) + after;
    lemma_be_bytes_len(value, 32);
    lemma_be_value_of_be_bytes(value, 32);
    assert(overlay(input, zeros(32), before.len() as int) =~= encode_number(value));
    assert(encode_number(value).reverse() =~= be_bytes(value, 32));
}

/// Where a buffer ends, zero is read.
pub proof fn lemma_number_at_end(input: Seq<u8>, offset: int)
    requires
        input.len() <= offset,
    ensures
        number_at(input, offset) == 0,
{
    lemma_be_value_zero(zeros(32));
}

/// Bytes that a buffer does not hold count as zero: with zero bytes put
/// behind it, a buffer gives the same number at every place, and so the same
/// result under each of the operations that read numbers from it.
pub proof fn lemma_missing_bytes_are_zero(input: Seq<u8>, fill: nat, offset: int)
    requires
        0 <= offset,
    ensures
        number_at(input + zeros(fill), offset) == number_at(input, offset),
        add_result(input + zeros(fill)) == add_result(input),
        mul_result(input + zeros(fill)) == mul_result(input),
{
    let longer = input + zeros(fill);
    assert forall|at: int| 0 <= at implies #[trigger] number_at(longer, at) == number_at(
        input,
        at,
    ) by {
        assert(input_read(longer, zeros(32), at) =~= input_read(input, zeros(32), at));
    }
    assert(number_at(longer, 0) == number_at(input, 0));
    assert(number_at(longer, 32) == number_at(input, 32));
    assert(number_at(longer, 64) == number_at(input, 64));
    assert(number_at(longer, 96) == number_at(input, 96));
}

/// A number that fits into 32 bytes is a field element exactly when it is
/// below the field's prime, and a scalar exactly when it is below the group
/// order: the prime itself, the order itself and all above them are turned
/// down as not in the field.
pub proof fn lemma_modulus_is_the_limit(before: Seq<u8>, value: nat, after: Seq<u8>)
    requires
        value < pow256(32),
    ensures
        fq_at(before + encode_number(value) + after, before.len() as int) == if value
            < fq_modulus() {
            Ok::<nat, InvalidArgument>(value)
        } else {
            Err::<nat, InvalidArgument>(InvalidArgument::NotInField)
        },
        fr_at(before + encode_number(value) + after, before.len() as int) == if value
            < fr_modulus() {
            Ok::<nat, InvalidArgument>(value)
        } else {
            Err::<nat, InvalidArgument>(InvalidArgument::NotInField)
        },
{
    lemma_number_at_encoded(before, value, after);
}

/// Two field elements side by side are read as the point that they stand
/// for. Two zeros are always the point at infinity. Other coordinates are a
/// point exactly when they lie on the curve, and are turned down as not on the
/// curve when they do not.
pub proof fn lemma_coordinates_decide(before: Seq<u8>, x: nat, y: nat, after: Seq<u8>)
    requires
        x < fq_modulus(),
        y < fq_modulus(),
    ensures
        point_at(before + encode_number(x) + encode_number(y) + after, before.len() as int)
            == g1_from(x, y),
        g1_from(0, 0) == Ok::<G1Value, InvalidArgument>(None),
        !(x == 0 && y == 0) && on_curve(x, y) ==> g1_from(x, y) == Ok::<
            G1Value,
            InvalidArgument,
        >(Some((x, y))),
        !(x == 0 && y == 0) && !on_curve(x, y) ==> g1_from(x, y) == Err::<
            G1Value,
            InvalidArgument,
        >(InvalidArgument::NotOnCurve),
{
    let input = before + encode_number(x) + encode_number(y) + after;
    let start = before.len() as int;
    lemma_pow256_values();
    lemma_be_bytes_len(x, 32);
    let first = before + encode_number(x) + (encode_number(y) + after);
    assert(first =~= input);
    lemma_number_at_encoded(before, x, encode_number(y) + after);
    lemma_number_at_encoded(before + encode_number(x), y, after);
    assert((before + encode_number(x)).len() == start + 32);
    assert(number_at(input, start) == x);
    assert(number_at(input, start + 32) == y);
    assert(fq_at(input, start) == Ok::<nat, InvalidArgument>(x));
    assert(fq_at(input, start + 32) == Ok::<nat, InvalidArgument>(y));
}

/// The constant of the twisted curve's equation is 3 divided by 9 + i: times
/// 9 + i it gives 3. And no point of the twisted curve has zero for both
/// coordinates.
pub proof fn lemma_twist_coefficient()
    ensures
        fq2_product(twist_coefficient(), (9, 1)) == (3nat, 0nat),
        !on_twist((0, 0), (0, 0)),
{
}

/// The encoding of a point takes 64 bytes.
pub proof fn lemma_encode_point_len(point: G1Value)
    ensures
        encode_point(point).len() == 64,
{
    if let Some((x, y)) = point {
        lemma_be_bytes_len(x, 32);
        lemma_be_bytes_len(y, 32);
    }
}

/// Decoding undoes encoding: every point of the group, the point at infinity
/// among them, is read back from its 64 bytes, wherever in a buffer they lie.
pub proof fn lemma_decode_encode(before: Seq<u8>, point: G1Value, after: Seq<u8>)
    requires
        g1_valid(point),
    ensures
        point_at(before + encode_point(point) + after, before.len() as int) == Ok::<
            G1Value,
            InvalidArgument,
        >(point),
{
    let (x, y): (nat, nat) = match point {
        None => (0, 0),
        Some(numbers) => numbers,
    };
    lemma_zero_encoding();
    assert(encode_point(point) =~= encode_number(x) + encode_number(y));
    assert(before + encode_point(point) + after =~= before + encode_number(x) + encode_number(y)
        + after);
    lemma_coordinates_decide(before, x, y, after);
    assert(!on_curve(0, 0));
}

/// Zero is encoded as 32 zero bytes.
pub proof fn lemma_zero_encoding()
    ensures
        encode_number(0) == zeros(32),
        encode_number(0) + encode_number(0) == zeros(64),
{
    lemma_be_bytes_len(0, 32);
    lemma_pow256_values();
    lemma_be_value_of_be_bytes(0, 32);
    lemma_be_value_zero(be_bytes(0, 32));
    assert(encode_number(0) =~= zeros(32));
    assert(encode_number(0) + encode_number(0) =~= zeros(64));
}

/// The point at infinity is the neutral element of `add`, on either side:
/// added to a point of the group it gives that point, and added to itself it
/// gives itself, which is 64 zero bytes.
pub proof fn lemma_add_identity(point: G1Value)
    requires
        g1_valid(point),
    ensures
        add_result(encode_point(point) + encode_point(None)) == Ok::<Seq<u8>, InvalidArgument>(
            encode_point(point),
        ),
        add_result(encode_point(None) + encode_point(point)) == Ok::<Seq<u8>, InvalidArgument>(
            encode_point(point),
        ),
        add_result(encode_point(None) + encode_point(None)) == Ok::<Seq<u8>, InvalidArgument>(
            zeros(64),
        ),
{
    let nothing: G1Value = None;
    lemma_points_side_by_side(point, nothing);
    lemma_points_side_by_side(nothing, point);
    lemma_points_side_by_side(nothing, nothing);
}

/// Two encoded points side by side are read back as they were.
pub proof fn lemma_points_side_by_side(p: G1Value, q: G1Value)
    requires
        g1_valid(p),
        g1_valid(q),
    ensures
        point_at(encode_point(p) + encode_point(q), 0) == Ok::<G1Value, InvalidArgument>(p),
        point_at(encode_point(p) + encode_point(q), 64) == Ok::<G1Value, InvalidArgument>(q),
{
    let input = encode_point(p) + encode_point(q);
    let nothing = Seq::<u8>::empty();
    lemma_encode_point_len(p);
    assert(nothing + encode_point(p) + encode_point(q) =~= input);
    assert(encode_point(p) + encode_point(q) + nothing =~= input);
    lemma_decode_encode(nothing, p, encode_point(q));
    lemma_decode_encode(encode_point(p), q, nothing);
}

/// An encoded point with an encoded scalar behind it: both are read back as
/// they were.
pub proof fn lemma_point_before_scalar(point: G1Value, scalar: nat)
    requires
        g1_valid(point),
        scalar < fr_modulus(),
    ensures
        point_at(encode_point(point) + encode_number(scalar), 0) == Ok::<
            G1Value,
            InvalidArgument,
        >(point),
        fr_at(encode_point(point) + encode_number(scalar), 64) == Ok::<nat, InvalidArgument>(
            scalar,
        ),
{
    let input = encode_point(point) + encode_number(scalar);
    let nothing = Seq::<u8>::empty();
    lemma_encode_point_len(point);
    lemma_pow256_values();
    assert(nothing + encode_point(point) + encode_number(scalar) =~= input);
    assert(encode_point(point) + encode_number(scalar) + nothing =~= input);
    lemma_decode_encode(nothing, point, encode_number(scalar));
    lemma_number_at_encoded(encode_point(point), scalar, nothing);
}

/// `mul` by zero gives the point at infinity and `mul` by one gives the
/// point.
pub proof fn lemma_mul_by_zero_and_one(point: G1Value)
    requires
        g1_valid(point),
    ensures
        mul_result(encode_point(point) + encode_number(0)) == Ok::<Seq<u8>, InvalidArgument>(
            zeros(64),
        ),
        mul_result(encode_point(point) + encode_number(1)) == Ok::<Seq<u8>, InvalidArgument>(
            encode_point(point),
        ),
{
    lemma_point_before_scalar(point, 0);
    lemma_point_before_scalar(point, 1);
}

/// `pairing` on no bytes at all is `true`, and on a number of bytes that is
/// no multiple of 192 it is the error `InvalidLength`.
pub proof fn lemma_pairing_lengths(input: Seq<u8>)
    ensures
        input.len() == 0 ==> pairing_result(input) == Ok::<bool, InvalidArgument>(true),
        input.len() % 192 != 0 ==> pairing_result(input) == Err::<bool, InvalidArgument>(
            InvalidArgument::InvalidLength,
        ),
{
}

} // verus!
