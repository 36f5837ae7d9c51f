//! Elements of the base field and of the scalar field, as 32 bytes each.

use vstd::prelude::*;
use crate::bytes::{
    be_bytes, be_value, input_read, lemma_be_value_concat, lemma_be_value_zero, lemma_pow256_increases,
    lemma_pow256_values, pow256, read_input, two_pow_128, zeros,
};
use crate::chain_ext::InvalidArgument;

verus! {

/// The prime of the base field:
/// 21888242871839275222246405745257275088696311157297823662689037894645226208583.
pub open spec fn fq_modulus() -> nat {
    0x30644e72e131a029b85045b68181585d97816a916871ca8d3c208c16d87cfd47nat
}

/// The order of the curve's group, the prime of the scalar field:
/// 21888242871839275222246405745257275088548364400416034343698204186575808495617.
pub open spec fn fr_modulus() -> nat {
    0x30644e72e131a029b85045b68181585d2833e84879b9709143e1f593f0000001nat
}

/// The upper sixteen bytes of both moduli.
pub const MODULUS_HIGH: u128 = 0x30644e72e131a029b85045b68181585d;

/// The lower sixteen bytes of the base field's prime.
pub const FQ_MODULUS_LOW: u128 = 0x97816a916871ca8d3c208c16d87cfd47;

/// The lower sixteen bytes of the group order.
pub const FR_MODULUS_LOW: u128 = 0x2833e84879b9709143e1f593f0000001;

/// The number read at `offset` of `input`: the 32 bytes from there on, with
/// zero for each byte that `input` does not hold, reversed and then taken with
/// the most significant byte first.
pub open spec fn number_at(input: Seq<u8>, offset: int) -> nat {
    be_value(input_read(input, zeros(32), offset))
}

/// The 32 bytes that stand for a number in a buffer: its bytes with the
/// least significant one first, so that `number_at` reads it back.
pub open spec fn encode_number(value: nat) -> Seq<u8> {
    be_bytes(value, 32).reverse()
}

/// The base field element at `offset` of `input`, where the number there is
/// one.
pub open spec fn fq_at(input: Seq<u8>, offset: int) -> Result<nat, InvalidArgument> {
    if number_at(input, offset) < fq_modulus() {
        Ok(number_at(input, offset))
    } else {
        Err(InvalidArgument::NotInField)
    }
}

/// The scalar at `offset` of `input`, where the number there is one.
pub open spec fn fr_at(input: Seq<u8>, offset: int) -> Result<nat, InvalidArgument> {
    if number_at(input, offset) < fr_modulus() {
        Ok(number_at(input, offset))
    } else {
        Err(InvalidArgument::NotInField)
    }
}

/// An element of the base field, most significant byte first.
#[derive(Clone, Copy, Debug)]
pub struct FieldElement {
    pub bytes: [u8; 32],
}

/// An element of the scalar field, most significant byte first.
#[derive(Clone, Copy, Debug)]
pub struct Scalar {
    pub bytes: [u8; 32],
}

impl View for FieldElement {
    type V = nat;

    open spec fn view(&self) -> nat {
        be_value(self.bytes@)
    }
}

impl View for Scalar {
    type V = nat;

    open spec fn view(&self) -> nat {
        be_value(self.bytes@)
    }
}

impl FieldElement {
    /// The element is reduced: its number is below the field's prime.
    pub open spec fn wf(&self) -> bool {
        self@ < fq_modulus()
    }

    /// Whether the element is zero.
    pub fn is_zero(&self) -> (zero: bool)
        ensures
            zero == (self@ == 0),
    {
        all_zero(&self.bytes)
    }
}

impl Scalar {
    /// The scalar is reduced: its number is below the group order.
    pub open spec fn wf(&self) -> bool {
        self@ < fr_modulus()
    }
}

/// The sixteen bytes of `bytes` from `start` on, as one number.
fn load_u128(bytes: &[u8; 32], start: usize) -> (value: u128)
    requires
        start <= 16,
    ensures
        value == be_value(bytes@.subrange(start as int, start + 16)),
{
    let mut value: u128 = 0;
    let mut i: usize = 0;
    while i < 16
        invariant
            i <= 16,
            start <= 16,
            value == be_value(bytes@.subrange(start as int, start + i)),
            value < pow256(i as nat),
        decreases 16 - i,
    {
        proof {
            let next = bytes@.subrange(start as int, start + i + 1);
            assert(next.drop_last() =~= bytes@.subrange(start as int, start + i));
            lemma_pow256_increases((i + 1) as nat, 16);
            lemma_pow256_values();
        }
        value = value * 256 + bytes[start + i] as u128;
        i += 1;
    }
    value
}

/// Whether the number in `bytes` is below the one with the upper half `high`
/// and the lower half `low`.
fn is_below(bytes: &[u8; 32], high: u128, low: u128) -> (below: bool)
    ensures
        below == (be_value(bytes@) < high * two_pow_128() + low),
{
    let upper = load_u128(bytes, 0);
    let lower = load_u128(bytes, 16);
    proof {
        let first = bytes@.subrange(0, 16);
        let second = bytes@.subrange(16, 32);
        assert(bytes@ =~= first + second);
        lemma_be_value_concat(first, second);
        lemma_pow256_values();
        let unit = two_pow_128();
        assert(be_value(bytes@) == upper * unit + lower);
        if upper < high {
            assert(upper * unit + unit <= high * unit) by (nonlinear_arith)
                requires
                    upper + 1 <= high,
            ;
        } else if upper > high {
            assert(high * unit + unit <= upper * unit) by (nonlinear_arith)
                requires
                    high + 1 <= upper,
            ;
        }
    }
    upper < high || (upper == high && lower < low)
}

/// Whether all of `bytes` are zero.
fn all_zero(bytes: &[u8; 32]) -> (zero: bool)
    ensures
        zero == (be_value(bytes@) == 0),
{
    let mut i: usize = 0;
    while i < 32
        invariant
            i <= 32,
            forall|k: int| 0 <= k < i ==> bytes@[k] == 0,
        decreases 32 - i,
    {
        if bytes[i] != 0 {
            proof {
                lemma_be_value_zero(bytes@);
            }
            return false;
        }
        i += 1;
    }
    proof {
        lemma_be_value_zero(bytes@);
    }
    true
}

/// The 32 bytes of `input` from `start` on, filled up with zero and reversed.
fn read_number(input: &[u8], start: usize) -> (bytes: [u8; 32])
    ensures
        bytes@ == input_read(input@, zeros(32), start as int),
{
    let mut buf = [0u8; 32];
    assert(buf@ =~= zeros(32));
    read_input(input, &mut buf, start);
    buf
}

/// Reads the base field element at `start` of `input`. Bytes that `input`
/// does not hold count as zero. A number that is not below the field's prime
/// is turned down.
pub fn read_fq(input: &[u8], start: usize) -> (r: Result<FieldElement, InvalidArgument>)
    ensures
        match fq_at(input@, start as int) {
            Ok(value) => r matches Ok(element) && element@ == value && element.wf(),
            Err(error) => r == Err::<FieldElement, InvalidArgument>(error),
        },
{
    let bytes = read_number(input, start);
    if is_below(&bytes, MODULUS_HIGH, FQ_MODULUS_LOW) {
        Ok(FieldElement { bytes })
    } else {
        Err(InvalidArgument::NotInField)
    }
}

/// Reads the scalar at `start` of `input`. Bytes that `input` does not hold
/// count as zero. A number that is not below the group order is turned down.
pub fn read_fr(input: &[u8], start: usize) -> (r: Result<Scalar, InvalidArgument>)
    ensures
        match fr_at(input@, start as int) {
            Ok(value) => r matches Ok(scalar) && scalar@ == value && scalar.wf(),
            Err(error) => r == Err::<Scalar, InvalidArgument>(error),
        },
{
    let bytes = read_number(input, start);
    if is_below(&bytes, MODULUS_HIGH, FR_MODULUS_LOW) {
        Ok(Scalar { bytes })
    } else {
        Err(InvalidArgument::NotInField)
    }
}

} // verus!
