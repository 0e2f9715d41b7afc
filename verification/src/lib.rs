//! A calculator that keeps its last result in a storage slot.
//!
//! The host hands over the program's identity, an ordered list of storage
//! slots and the raw bytes of an instruction. [`state`] decodes the bytes into
//! a typed request, [`processor`] carries the request out on the slots with
//! the help of [`arithmetic`], and [`wire`] holds the byte-level encodings
//! all of them rest on. [`laws`] states what holds of them together.
//!
//! The library touches nothing but the values it is given. What only the host
//! can do, provisioning a slot, it asks for through an [`Action`]; the host
//! does it and reports back through [`process_initialize`].
//!
//! Three things are settled here once and hold throughout:
//!
//! - Arithmetic wraps around in two's complement, division included.
//! - A division by zero and an unknown operator are no errors. The call
//!   succeeds and the record holds no result afterwards.
//! - A record is read from the first bytes of its slot and written over
//!   them. A slot may be longer than its record; what lies behind the record
//!   is neither read nor written.
//!
//! A call that fails leaves every slot as it was.

pub mod arithmetic;
pub mod error;
pub mod laws;
pub mod processor;
pub mod state;
pub mod wire;

use error::ProcessError;
use processor::{
    process_increment, process_initialize, slots_view, spec_process_increment,
    spec_process_initialize, Action, Identity, InitializeEvent, StorageSlot, StorageSlotView,
};
use state::{spec_unpack, Instructions, InstructionsView};
use vstd::prelude::*;

verus! {

/// What an instruction does when it arrives: what the host does next, and
/// the slots after the call.
///
/// Bytes that cannot be decoded end the call with the decoder's error. A
/// calculation is carried out at once. An initialization takes its first
/// step, which asks the host to provision the record's slot.
pub open spec fn spec_process_instruction(
    program_id: Identity,
    slots: Seq<StorageSlotView>,
    instruction_data: Seq<u8>,
) -> (Action, Seq<StorageSlotView>) {
    match spec_unpack(instruction_data) {
        Err(e) => (Action::Finish(Err(ProcessError::Decode(e))), slots),
        Ok(InstructionsView::Initialize) => spec_process_initialize(
            program_id,
            slots,
            InitializeEvent::Started,
        ),
        Ok(InstructionsView::Calculate { val1, val2, operator }) => {
            let (res, after) = spec_process_increment(program_id, slots, val1, val2, operator);
            (Action::Finish(res), after)
        },
    }
}

/// The entry point: decodes `instruction_data` and carries the request out
/// on `accounts`.
pub fn process_instruction(
    program_id: &Identity,
    accounts: &mut Vec<StorageSlot>,
    instruction_data: &[u8],
) -> (action: Action)
    ensures
        final(accounts)@.len() == old(accounts)@.len(),
        action == spec_process_instruction(
            *program_id,
            slots_view(old(accounts)@),
            instruction_data@,
        ).0,
        slots_view(final(accounts)@) == spec_process_instruction(
            *program_id,
            slots_view(old(accounts)@),
            instruction_data@,
        ).1,
{
    match Instructions::unpack(instruction_data) {
        Err(e) => Action::Finish(Err(ProcessError::Decode(e))),
        Ok(Instructions::Initialize) => process_initialize(
            program_id,
            accounts,
            InitializeEvent::Started,
        ),
        Ok(Instructions::Calculate { val1, val2, operator }) => {
            Action::Finish(process_increment(program_id, accounts, val1, val2, operator))
        },
    }
}

} // verus!
