//! The typed requests, the instruction bytes they are decoded from, and the
//! stored record.

use crate::error::{DecodeError, ProcessError};
use crate::wire::{
    borsh_deserialize, borsh_to_vec, i32_le_bytes, le_i32, overwrite, read_i32_le, record_bytes,
    record_of, str_from_utf8, write_prefix,
};
use vstd::prelude::*;
use vstd::slice::slice_subrange;
use vstd::string::StringSliceAdditionalSpecFns;
use vstd::utf8::{decode_utf8, encode_utf8, encode_utf8_decode_utf8, valid_utf8};

verus! {

/// A request to the calculator.
#[derive(Clone, Debug, PartialEq, Eq)]
pub enum Instructions {
    /// Create the record, holding the result zero.
    Initialize,
    /// Apply `operator` to `val1` and `val2` and store the outcome.
    Calculate { val1: i32, val2: i32, operator: String },
}

/// A request as a mathematical value: the operator is a sequence of characters.
pub enum InstructionsView {
    Initialize,
    Calculate { val1: i32, val2: i32, operator: Seq<char> },
}

impl View for Instructions {
    type V = InstructionsView;

    open spec fn view(&self) -> InstructionsView {
        match *self {
            Instructions::Initialize => InstructionsView::Initialize,
            Instructions::Calculate { val1, val2, operator } => InstructionsView::Calculate {
                val1,
                val2,
                operator: operator@,
            },
        }
    }
}

/// Number of bytes before the operator in a calculation: the opcode, two
/// operands of four bytes and the operator length.
pub const HEADER_LEN: usize = 10;

/// The operator bytes of a calculation whose header is complete: as many
/// bytes after the header as byte 9 says.
pub open spec fn operator_bytes(input: Seq<u8>) -> Seq<u8>
    recommends
        input.len() >= HEADER_LEN,
        HEADER_LEN + input[9] <= input.len(),
{
    input.subrange(HEADER_LEN as int, HEADER_LEN + input[9])
}

/// What instruction bytes mean.
///
/// Byte 0 is the opcode. `0` is `Initialize`, whatever follows. `1` is
/// `Calculate`: bytes 1 to 4 and 5 to 8 are the operands, little-endian,
/// byte 9 is the length of the operator, and the operator follows as UTF-8.
/// Bytes after the operator are not read.
pub open spec fn spec_unpack(input: Seq<u8>) -> Result<InstructionsView, DecodeError> {
    if input.len() == 0 {
        Err(DecodeError::Empty)
    } else if input[0] == 0 {
        Ok(InstructionsView::Initialize)
    } else if input[0] != 1 {
        Err(DecodeError::UnknownOpcode)
    } else if input.len() < HEADER_LEN {
        Err(DecodeError::Truncated)
    } else if HEADER_LEN + input[9] > input.len() {
        Err(DecodeError::OperatorOutOfBounds)
    } else if !valid_utf8(operator_bytes(input)) {
        Err(DecodeError::InvalidUtf8)
    } else {
        Ok(
            InstructionsView::Calculate {
                val1: le_i32(input.subrange(1, 5)) as i32,
                val2: le_i32(input.subrange(5, 9)) as i32,
                operator: decode_utf8(operator_bytes(input)),
            },
        )
    }
}

/// The bytes of a calculation: the opcode `1`, the two operands
/// little-endian, the length of the operator in bytes, and the operator as
/// UTF-8.
pub open spec fn calculate_bytes(val1: i32, val2: i32, operator: Seq<char>) -> Seq<u8>
    recommends
        encode_utf8(operator).len() <= u8::MAX,
{
    seq![1u8] + i32_le_bytes(val1) + i32_le_bytes(val2) + seq![encode_utf8(operator).len() as u8]
        + encode_utf8(operator)
}

impl Instructions {
    /// Decodes instruction bytes. Reads no byte past the end of `input` and
    /// none after the operator.
    pub fn unpack(input: &[u8]) -> (res: Result<Instructions, DecodeError>)
        ensures
            match res {
                Ok(instruction) => spec_unpack(input@) == Ok::<InstructionsView, DecodeError>(
                    instruction@,
                ),
                Err(e) => spec_unpack(input@) == Err::<InstructionsView, DecodeError>(e),
            },
    {
        if input.len() == 0 {
            return Err(DecodeError::Empty);
        }
        let opcode: u8 = input[0];
        if opcode == 0 {
            return Ok(Instructions::Initialize);
        }
        if opcode != 1 {
            return Err(DecodeError::UnknownOpcode);
        }
        if input.len() < HEADER_LEN {
            return Err(DecodeError::Truncated);
        }
        let val1: i32 = read_i32_le(input, 1);
        let val2: i32 = read_i32_le(input, 5);
        let operator_len: usize = input[9] as usize;
        if operator_len > input.len() - HEADER_LEN {
            return Err(DecodeError::OperatorOutOfBounds);
        }
        let raw = slice_subrange(input, HEADER_LEN, HEADER_LEN + operator_len);
        match str_from_utf8(raw) {
            Err(_) => Err(DecodeError::InvalidUtf8),
            Ok(s) => {
                proof {
                    encode_utf8_decode_utf8(s@);
                }
                Ok(Instructions::Calculate { val1, val2, operator: s.to_owned() })
            },
        }
    }
}

/// The stored record: the outcome of the last calculation, if it had one.
#[derive(Clone, Copy, Debug, PartialEq, Eq)]
pub struct ComputeResult {
    pub result: Option<i32>,
}

impl ComputeResult {
    /// The bytes that store this record.
    pub fn to_vec(&self) -> (bytes: Vec<u8>)
        ensures
            bytes@ == record_bytes(self.result),
    {
        borsh_to_vec(&self.result).unwrap()
    }

    /// Reads the record that `bytes` begin with; what follows it is not read.
    pub fn deserialize(bytes: &[u8]) -> (res: Result<ComputeResult, ProcessError>)
        ensures
            match res {
                Ok(record) => record_of(bytes@) == Some(record.result),
                Err(e) => e == ProcessError::CorruptRecord && record_of(bytes@) is None,
            },
    {
        match borsh_deserialize(bytes) {
            Ok(result) => Ok(ComputeResult { result }),
            Err(_) => Err(ProcessError::CorruptRecord),
        }
    }

    /// Writes this record over the first bytes of `data`, or leaves `data`
    /// as it is where the record does not fit.
    pub fn serialize(&self, data: &mut Vec<u8>) -> (res: Result<(), ProcessError>)
        ensures
            record_bytes(self.result).len() <= old(data).len() ==> res is Ok && final(data)@
                == overwrite(old(data)@, record_bytes(self.result)),
            record_bytes(self.result).len() > old(data).len() ==> res == Err::<(), ProcessError>(
                ProcessError::SlotTooSmall,
            ) && final(data)@ == old(data)@,
    {
        let bytes = self.to_vec();
        if bytes.len() > data.len() {
            return Err(ProcessError::SlotTooSmall);
        }
        write_prefix(data, &bytes);
        Ok(())
    }
}

} // verus!
