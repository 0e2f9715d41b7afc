//! Carrying out requests on storage slots.
//!
//! A calculation is carried out in one call. An initialization needs the
//! host in the middle, to provision the record's slot, so it is taken in
//! steps: each step answers with what the host does next.

use crate::arithmetic::{calculate, spec_calculate};
use crate::error::ProcessError;
use crate::state::ComputeResult;
use crate::wire::{overwrite, record_bytes, record_of};
use vstd::prelude::*;

verus! {

/// The 32 bytes that name a program or a storage slot.
pub type Identity = [u8; 32];

/// A storage slot as the host hands it over: its own name, the program that
/// owns it, and its bytes.
#[derive(Clone, Debug, PartialEq, Eq)]
pub struct StorageSlot {
    pub key: Identity,
    pub owner: Identity,
    pub data: Vec<u8>,
}

/// A storage slot as a mathematical value.
pub struct StorageSlotView {
    pub key: Identity,
    pub owner: Identity,
    pub data: Seq<u8>,
}

impl View for StorageSlot {
    type V = StorageSlotView;

    open spec fn view(&self) -> StorageSlotView {
        StorageSlotView { key: self.key, owner: self.owner, data: self.data@ }
    }
}

/// The slots of a list, each as a mathematical value.
pub open spec fn slots_view(slots: Seq<StorageSlot>) -> Seq<StorageSlotView> {
    slots.map_values(|slot: StorageSlot| slot@)
}

/// Storing a result in a slot: the record's bytes replace the first bytes of
/// the slot, which must be long enough to take them.
pub open spec fn spec_store(slot: StorageSlotView, result: Option<i32>) -> Result<
    StorageSlotView,
    ProcessError,
> {
    if record_bytes(result).len() > slot.data.len() {
        Err(ProcessError::SlotTooSmall)
    } else {
        Ok(StorageSlotView { data: overwrite(slot.data, record_bytes(result)), ..slot })
    }
}

/// Number of bytes that a record's slot is provisioned with: the flag byte
/// and the four bytes of a result.
pub const RECORD_SPACE: u64 = 5;

/// A slot holds a record of the program: the program owns it, it has room
/// for every record, and its bytes begin with one.
pub open spec fn holds_record(program_id: Identity, slot: StorageSlotView) -> bool {
    &&& slot.owner == program_id
    &&& slot.data.len() >= RECORD_SPACE
    &&& record_of(slot.data) is Some
}

/// What a calculation does to the slots it is given: how the call ends, and
/// the slots after it.
///
/// The request takes one slot. The slot must be owned by the program and
/// hold a record; the outcome of the calculation then replaces the record.
/// Where the call fails the slots stay as they are.
pub open spec fn spec_process_increment(
    program_id: Identity,
    slots: Seq<StorageSlotView>,
    val1: i32,
    val2: i32,
    operator: Seq<char>,
) -> (Result<(), ProcessError>, Seq<StorageSlotView>) {
    if slots.len() != 1 {
        (Err(ProcessError::AccountCount), slots)
    } else if slots[0].owner != program_id {
        (Err(ProcessError::NotOwner), slots)
    } else if record_of(slots[0].data) is None {
        (Err(ProcessError::CorruptRecord), slots)
    } else {
        match spec_store(slots[0], spec_calculate(val1, val2, operator)) {
            Ok(slot) => (Ok(()), seq![slot]),
            Err(e) => (Err(e), slots),
        }
    }
}

fn same_identity(a: &Identity, b: &Identity) -> (same: bool)
    ensures
        same == (*a == *b),
{
    let mut i: usize = 0;
    while i < 32
        invariant
            i <= 32,
            forall|j: int| 0 <= j < i ==> a@[j] == b@[j],
        decreases 32 - i,
    {
        if a[i] != b[i] {
            return false;
        }
        i += 1;
    }
    assert(*a =~= *b);
    true
}

/// Carries out a calculation on the one slot in `accounts`.
///
/// The slot is written only after the owner check has passed and its bytes
/// have been read as a record; a call that fails changes nothing.
pub fn process_increment(
    program_id: &Identity,
    accounts: &mut Vec<StorageSlot>,
    val1: i32,
    val2: i32,
    operator: String,
) -> (res: Result<(), ProcessError>)
    ensures
        final(accounts)@.len() == old(accounts)@.len(),
        res == spec_process_increment(
            *program_id,
            slots_view(old(accounts)@),
            val1,
            val2,
            operator@,
        ).0,
        slots_view(final(accounts)@) == spec_process_increment(
            *program_id,
            slots_view(old(accounts)@),
            val1,
            val2,
            operator@,
        ).1,
{
    if accounts.len() != 1 {
        return Err(ProcessError::AccountCount);
    }
    if !same_identity(&accounts[0].owner, program_id) {
        return Err(ProcessError::NotOwner);
    }
    let result = calculate(val1, val2, &operator);
    let mut record = match ComputeResult::deserialize(accounts[0].data.as_slice()) {
        Ok(record) => record,
        Err(e) => {
            return Err(e);
        },
    };
    record.result = result;
    match record.serialize(&mut accounts[0].data) {
        Ok(()) => {
            assert(slots_view(accounts@) =~= seq![
                StorageSlotView {
                    data: overwrite(old(accounts)@[0].data@, record_bytes(result)),
                    ..old(accounts)@[0]@
                },
            ]);
            Ok(())
        },
        Err(e) => {
            assert(slots_view(accounts@) =~= slots_view(old(accounts)@));
            Err(e)
        },
    }
}

/// What the host is asked to provision: `space` bytes for the slot named
/// `target`, owned by `owner` and paid for by the slot named `payer`.
#[derive(Clone, Copy, Debug, PartialEq, Eq)]
pub struct ProvisionRequest {
    pub payer: Identity,
    pub target: Identity,
    pub owner: Identity,
    pub space: u64,
}

/// What the host reports to an initialization.
#[derive(Clone, Copy, Debug, PartialEq, Eq)]
pub enum InitializeEvent {
    /// The request has arrived; nothing has been provisioned yet.
    Started,
    /// The host has provisioned the slot as asked.
    Provisioned,
    /// The host could not provision the slot; the code says why.
    ProvisionFailed(u64),
}

/// What the host does next.
#[derive(Clone, Copy, Debug, PartialEq, Eq)]
pub enum Action {
    /// Provision a slot, then report how that went.
    Provision(ProvisionRequest),
    /// End the call with this result.
    Finish(Result<(), ProcessError>),
}

/// One step of an initialization: what the host does next, and the slots
/// after the step.
///
/// The request takes three slots: the payer, the record's slot and the
/// host's provisioning program. When it starts, the host is asked to
/// provision the record's slot. When the host has done so, the record with
/// the result zero is written to the slot, which by then must be owned by
/// the program. When the host could not, nothing is written.
pub open spec fn spec_process_initialize(
    program_id: Identity,
    slots: Seq<StorageSlotView>,
    event: InitializeEvent,
) -> (Action, Seq<StorageSlotView>) {
    match event {
        InitializeEvent::ProvisionFailed(code) => (
            Action::Finish(Err(ProcessError::Provisioning(code))),
            slots,
        ),
        _ => if slots.len() != 3 {
            (Action::Finish(Err(ProcessError::AccountCount)), slots)
        } else if event is Started {
            (
                Action::Provision(
                    ProvisionRequest {
                        payer: slots[0].key,
                        target: slots[1].key,
                        owner: program_id,
                        space: RECORD_SPACE,
                    },
                ),
                slots,
            )
        } else if slots[1].owner != program_id {
            (Action::Finish(Err(ProcessError::NotOwner)), slots)
        } else {
            match spec_store(slots[1], Some(0i32)) {
                Ok(slot) => (Action::Finish(Ok(())), slots.update(1, slot)),
                Err(e) => (Action::Finish(Err(e)), slots),
            }
        },
    }
}

/// Takes an initialization one step further.
///
/// The host calls this with `Started`, provisions what the answer asks for,
/// brings `accounts` up to date and calls again with what came of it.
pub fn process_initialize(
    program_id: &Identity,
    accounts: &mut Vec<StorageSlot>,
    event: InitializeEvent,
) -> (action: Action)
    ensures
        final(accounts)@.len() == old(accounts)@.len(),
        action == spec_process_initialize(*program_id, slots_view(old(accounts)@), event).0,
        slots_view(final(accounts)@) == spec_process_initialize(
            *program_id,
            slots_view(old(accounts)@),
            event,
        ).1,
{
    match event {
        InitializeEvent::ProvisionFailed(code) => Action::Finish(
            Err(ProcessError::Provisioning(code)),
        ),
        InitializeEvent::Started => {
            if accounts.len() != 3 {
                return Action::Finish(Err(ProcessError::AccountCount));
            }
            Action::Provision(
                ProvisionRequest {
                    payer: accounts[0].key,
                    target: accounts[1].key,
                    owner: *program_id,
                    space: RECORD_SPACE,
                },
            )
        },
        InitializeEvent::Provisioned => {
            if accounts.len() != 3 {
                return Action::Finish(Err(ProcessError::AccountCount));
            }
            if !same_identity(&accounts[1].owner, program_id) {
                return Action::Finish(Err(ProcessError::NotOwner));
            }
            let record = ComputeResult { result: Some(0) };
            match record.serialize(&mut accounts[1].data) {
                Ok(()) => {
                    assert(slots_view(accounts@) =~= slots_view(old(accounts)@).update(
                        1,
                        spec_store(old(accounts)@[1]@, Some(0i32))->Ok_0,
                    ));
                    Action::Finish(Ok(()))
                },
                Err(e) => {
                    assert(slots_view(accounts@) =~= slots_view(old(accounts)@));
                    Action::Finish(Err(e))
                },
            }
        },
    }
}

} // verus!
