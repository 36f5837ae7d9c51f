//! The curve operations as a contract calls them through its host: by
//! number, on a buffer of fixed length, with a status code for an answer.
//!
//! The host reads the buffer, charges for the call and writes the answer. What
//! it reads, charges and writes is decided here.

use parity_scale_codec::Encode;
use vstd::prelude::*;
use vstd::slice::slice_to_vec;
use vstd::std_specs::convert::FromSpecImpl;
use zeropool_bn::GroupError;
use crate::bn128::{add_result, mul_result, pairing, pairing_result};

verus! {

/// Why an input buffer was turned down.
#[derive(Clone, Copy, Debug, PartialEq, Eq, Structural)]
pub enum InvalidArgument {
    /// A 32-byte value is not below the modulus it is read against.
    NotInField,
    /// A coordinate pair is neither all zero nor a point of its curve.
    NotOnCurve,
    /// The input of the pairing check is not a whole number of blocks.
    InvalidLength,
}

impl InvalidArgument {
    /// The status code under which the host reports the error.
    pub open spec fn spec_code(self) -> u32 {
        match self {
            InvalidArgument::NotInField => 1,
            InvalidArgument::NotOnCurve => 2,
            InvalidArgument::InvalidLength => 3,
        }
    }

    /// The status code under which the host reports the error. Zero is the
    /// code of success, so no error has it.
    #[verifier::when_used_as_spec(spec_code)]
    pub fn code(self) -> (code: u32)
        ensures
            code == self.spec_code(),
            code != 0,
    {
        match self {
            InvalidArgument::NotInField => 1,
            InvalidArgument::NotOnCurve => 2,
            InvalidArgument::InvalidLength => 3,
        }
    }
}

impl From<GroupError> for InvalidArgument {
    /// Whatever the curve arithmetic holds against a point, the point is
    /// reported as not on its curve.
    fn from(error: GroupError) -> (r: InvalidArgument) {
        InvalidArgument::NotOnCurve
    }
}

impl FromSpecImpl<GroupError> for InvalidArgument {
    open spec fn obeys_from_spec() -> bool {
        true
    }

    open spec fn from_spec(error: GroupError) -> InvalidArgument {
        InvalidArgument::NotOnCurve
    }
}

/// A curve operation that a contract can call.
#[derive(Clone, Copy, Debug, PartialEq, Eq, Structural)]
pub enum Operation {
    /// Addition in the first group.
    Add,
    /// Multiplication of a point of the first group by a scalar.
    Mul,
    /// The pairing check.
    Pairing,
}

/// The operation that a contract calls by the number `func_id`, if that is
/// the number of a curve operation.
pub open spec fn operation_of(func_id: u32) -> Option<Operation> {
    if func_id == 6 {
        Some(Operation::Add)
    } else if func_id == 7 {
        Some(Operation::Mul)
    } else if func_id == 8 {
        Some(Operation::Pairing)
    } else {
        None
    }
}

/// The weight, as computation time, that the host charges for an operation
/// before it runs it.
pub open spec fn weight_of(operation: Operation) -> u64 {
    match operation {
        Operation::Add => 7_940_000,
        Operation::Mul => 168_074_000,
        Operation::Pairing => 6_080_874_000,
    }
}

/// The number of bytes that the host reads for an operation: two points, a
/// point and a scalar, four pairs.
pub open spec fn input_len_of(operation: Operation) -> usize {
    match operation {
        Operation::Add => 128,
        Operation::Mul => 96,
        Operation::Pairing => 768,
    }
}

/// One byte for a truth value: 1 for `true`, 0 for `false`.
pub open spec fn encode_bool(value: bool) -> Seq<u8> {
    seq![if value { 1u8 } else { 0u8 }]
}

/// What the host does after an operation on `input`: it writes the bytes
/// under `Ok` and reports the status zero, or it writes nothing and reports
/// the status under `Err`, the code of what was wrong with `input`.
pub open spec fn call_result(operation: Operation, input: Seq<u8>) -> Result<Seq<u8>, u32> {
    match operation {
        Operation::Add => match add_result(input) {
            Ok(point) => Ok(point),
            Err(error) => Err(error.spec_code()),
        },
        Operation::Mul => match mul_result(input) {
            Ok(point) => Ok(point),
            Err(error) => Err(error.spec_code()),
        },
        Operation::Pairing => match pairing_result(input) {
            Ok(holds) => Ok(encode_bool(holds)),
            Err(error) => Err(error.spec_code()),
        },
    }
}

/// Calls `parity_scale_codec::Encode::encode` on a `bool`. Taken on trust:
/// it gives one byte, 1 for `true` and 0 for `false`.
#[verifier::external_body]
fn scale_encode_bool(value: bool) -> (bytes: Vec<u8>)
    ensures
        bytes@ == encode_bool(value),
{
    value.encode()
}

/// The chain extension that offers the curve operations to contracts.
#[derive(Default)]
pub struct FetchRandomExtension;

impl FetchRandomExtension {
    /// The extension is always switched on.
    pub fn enabled() -> (enabled: bool)
        ensures
            enabled,
    {
        true
    }

    /// The operation that a contract calls by the number `func_id`: 6 for
    /// the addition, 7 for the multiplication, 8 for the pairing check.
    pub fn operation(func_id: u32) -> (operation: Option<Operation>)
        ensures
            operation == operation_of(func_id),
    {
        match func_id {
            6 => Some(Operation::Add),
            7 => Some(Operation::Mul),
            8 => Some(Operation::Pairing),
            _ => None,
        }
    }

    /// The weight, as computation time, to charge before `operation` runs.
    pub fn weight(operation: Operation) -> (weight: u64)
        ensures
            weight == weight_of(operation),
    {
        match operation {
            Operation::Add => 7_940_000,
            Operation::Mul => 168_074_000,
            Operation::Pairing => 6_080_874_000,
        }
    }

    /// The number of bytes to read for `operation`.
    pub fn input_len(operation: Operation) -> (len: usize)
        ensures
            len == input_len_of(operation),
    {
        match operation {
            Operation::Add => 128,
            Operation::Mul => 96,
            Operation::Pairing => 768,
        }
    }

    /// Runs `operation` on `input`. `Ok` holds the bytes to write back, after
    /// which the status is zero; `Err` holds the status to report instead,
    /// which is never zero.
    pub fn call(&mut self, operation: Operation, input: &[u8]) -> (r: Result<Vec<u8>, u32>)
        ensures
            match call_result(operation, input@) {
                Ok(bytes) => r matches Ok(output) && output@ == bytes,
                Err(code) => r == Err::<Vec<u8>, u32>(code) && code != 0,
            },
    {
        match operation {
            Operation::Add => match crate::bn128::add(input) {
                Ok(point) => Ok(slice_to_vec(point.as_slice())),
                Err(reason) => Err(reason.code()),
            },
            Operation::Mul => match crate::bn128::mul(input) {
                Ok(point) => Ok(slice_to_vec(point.as_slice())),
                Err(reason) => Err(reason.code()),
            },
            Operation::Pairing => match pairing(input) {
                Ok(holds) => Ok(scale_encode_bool(holds)),
                Err(reason) => Err(reason.code()),
            },
        }
    }
}

} // verus!
