//! What can go wrong.

use vstd::prelude::*;

verus! {

/// Why instruction bytes were turned down.
#[derive(Clone, Copy, Debug, PartialEq, Eq)]
pub enum DecodeError {
    /// There is no opcode: the buffer is empty.
    Empty,
    /// The opcode is neither `0` nor `1`.
    UnknownOpcode,
    /// The opcode asks for a calculation, and the buffer ends before the ten
    /// bytes of opcode, operands and operator length are complete.
    Truncated,
    /// The operator length reaches past the end of the buffer.
    OperatorOutOfBounds,
    /// The operator bytes are not UTF-8.
    InvalidUtf8,
}

/// Why a request was not carried out. A request that fails leaves every
/// storage slot as it was.
#[derive(Clone, Copy, Debug, PartialEq, Eq)]
pub enum ProcessError {
    /// The instruction bytes could not be decoded.
    Decode(DecodeError),
    /// The request came with another number of storage slots than it takes:
    /// three to initialize, one to calculate.
    AccountCount,
    /// The record's slot is not owned by this program.
    NotOwner,
    /// The bytes of the record's slot are not the bytes of a record.
    CorruptRecord,
    /// The record's slot is too short for the record to be written.
    SlotTooSmall,
    /// The host could not provision the record's slot; the code is the host's.
    Provisioning(u64),
}

} // verus!
