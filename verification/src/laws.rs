//! What holds of the library whatever the input: statements that relate the
//! decoder, the arithmetic, the record encoding and the processor, each
//! proved from the definitions the contracts are written in.

use crate::arithmetic::{spec_calculate, trunc_div};
use crate::error::{DecodeError, ProcessError};
use crate::processor::{
    holds_record, spec_process_increment, spec_process_initialize, Action, Identity,
    InitializeEvent, StorageSlotView, RECORD_SPACE,
};
use crate::spec_process_instruction;
use crate::state::{calculate_bytes, operator_bytes, spec_unpack, InstructionsView, HEADER_LEN};
use crate::wire::{
    i32_le_bytes, lemma_i32_le_round_trip, lemma_le_bytes_round_trip, overwrite, record_bytes,
    record_of,
};
use vstd::prelude::*;
use vstd::utf8::{encode_utf8, encode_utf8_decode_utf8, encode_utf8_valid_utf8};

verus! {

/// Bytes that begin with the opcode `0` decode to `Initialize`, whatever
/// follows the opcode.
pub proof fn lemma_opcode_zero_is_initialize(input: Seq<u8>)
    requires
        input.len() > 0,
        input[0] == 0,
    ensures
        spec_unpack(input) == Ok::<InstructionsView, DecodeError>(InstructionsView::Initialize),
{
}

/// Bytes that begin with the opcode `1` and end before the operator length
/// fail as truncated; so does every such buffer of fewer than nine bytes.
pub proof fn lemma_short_calculation_is_truncated(input: Seq<u8>)
    requires
        0 < input.len() < HEADER_LEN,
        input[0] == 1,
    ensures
        spec_unpack(input) == Err::<InstructionsView, DecodeError>(DecodeError::Truncated),
{
}

/// Bytes appended to an instruction that decodes change nothing: the decoder
/// reads no byte after the operator.
pub proof fn lemma_unpack_ignores_trailing(input: Seq<u8>, trailing: Seq<u8>)
    requires
        spec_unpack(input) is Ok,
    ensures
        spec_unpack(input + trailing) == spec_unpack(input),
{
    let longer = input + trailing;
    assert(longer[0] == input[0]);
    if input[0] == 1 {
        assert(longer[9] == input[9]);
        assert(longer.subrange(1, 5) =~= input.subrange(1, 5));
        assert(longer.subrange(5, 9) =~= input.subrange(5, 9));
        assert(operator_bytes(longer) =~= operator_bytes(input));
    }
}

/// Every calculation whose operator takes at most 255 bytes can be written
/// down, and what is written decodes to that calculation, whatever follows.
pub proof fn lemma_unpack_calculate_bytes(
    val1: i32,
    val2: i32,
    operator: Seq<char>,
    trailing: Seq<u8>,
)
    requires
        encode_utf8(operator).len() <= u8::MAX,
    ensures
        spec_unpack(calculate_bytes(val1, val2, operator) + trailing) == Ok::<
            InstructionsView,
            DecodeError,
        >(InstructionsView::Calculate { val1, val2, operator }),
{
    let input = calculate_bytes(val1, val2, operator);
    lemma_i32_le_round_trip(val1);
    lemma_i32_le_round_trip(val2);
    encode_utf8_valid_utf8(operator);
    encode_utf8_decode_utf8(operator);
    assert(input.len() == HEADER_LEN + encode_utf8(operator).len());
    assert(input[0] == 1);
    assert(input[9] == encode_utf8(operator).len());
    assert(input.subrange(1, 5) =~= i32_le_bytes(val1));
    assert(input.subrange(5, 9) =~= i32_le_bytes(val2));
    assert(operator_bytes(input) =~= encode_utf8(operator));
    lemma_unpack_ignores_trailing(input, trailing);
}

/// An operator of one ASCII character is written as one byte, the
/// character's code: `+`, `-`, `*` and `/` are the bytes `0x2b`, `0x2d`,
/// `0x2a` and `0x2f`, each behind the length byte `1`.
pub proof fn lemma_ascii_operator_bytes(val1: i32, val2: i32, symbol: char)
    requires
        symbol as u32 <= 0x7f,
    ensures
        encode_utf8(seq![symbol]) == seq![symbol as u8],
        calculate_bytes(val1, val2, seq![symbol]) == seq![1u8] + i32_le_bytes(val1) + i32_le_bytes(
            val2,
        ) + seq![1u8, symbol as u8],
{
    let code = symbol as u32;
    assert((code & 0x7f) as u8 == code as u8) by (bit_vector)
        requires
            code <= 0x7f,
    ;
    assert(seq![symbol].drop_first() =~= Seq::<char>::empty());
    assert(encode_utf8(Seq::<char>::empty()) =~= Seq::<u8>::empty());
    assert(encode_utf8(seq![symbol]) =~= seq![symbol as u8]);
    assert(calculate_bytes(val1, val2, seq![symbol]) =~= seq![1u8] + i32_le_bytes(val1)
        + i32_le_bytes(val2) + seq![1u8, symbol as u8]);
}

/// A sum, a difference or a product that fits in an `i32` is stored as it
/// is: wrapping only shows where the exact result leaves the range.
pub proof fn lemma_exact_in_range(val1: i32, val2: i32)
    ensures
        i32::MIN <= val1 + val2 <= i32::MAX ==> spec_calculate(val1, val2, seq!['+']) == Some(
            (val1 + val2) as i32,
        ),
        i32::MIN <= val1 - val2 <= i32::MAX ==> spec_calculate(val1, val2, seq!['-']) == Some(
            (val1 - val2) as i32,
        ),
        i32::MIN <= val1 * val2 <= i32::MAX ==> spec_calculate(val1, val2, seq!['*']) == Some(
            (val1 * val2) as i32,
        ),
{
    lemma_operators_differ();
}

/// The four operators are four different strings.
pub proof fn lemma_operators_differ()
    ensures
        seq!['+'] != seq!['-'],
        seq!['+'] != seq!['*'],
        seq!['+'] != seq!['/'],
        seq!['-'] != seq!['*'],
        seq!['-'] != seq!['/'],
        seq!['*'] != seq!['/'],
{
    assert(seq!['+'][0] == '+');
    assert(seq!['-'][0] == '-');
    assert(seq!['*'][0] == '*');
    assert(seq!['/'][0] == '/');
}

/// Division by a divisor other than zero gives the quotient rounded toward
/// zero: what is left over is smaller than the divisor and has the sign of
/// the dividend. The one quotient that does not fit, `i32::MIN / -1`, is
/// left out here; it wraps to `i32::MIN`.
pub proof fn lemma_division_truncates(val1: i32, val2: i32)
    requires
        val2 != 0,
        !(val1 == i32::MIN && val2 == -1),
    ensures
        spec_calculate(val1, val2, seq!['/']) == Some(trunc_div(val1 as int, val2 as int) as i32),
        i32::MIN <= trunc_div(val1 as int, val2 as int) <= i32::MAX,
        ({
            let rest = val1 - trunc_div(val1 as int, val2 as int) * val2;
            &&& val1 >= 0 ==> 0 <= rest
            &&& val1 <= 0 ==> rest <= 0
            &&& val2 > 0 ==> -val2 < rest < val2
            &&& val2 < 0 ==> val2 < rest < -val2
        }),
{
    lemma_operators_differ();
    let a = val1 as int;
    let b = val2 as int;
    let q = trunc_div(a, b);
    lemma_trunc_div(a, b);
    assert(i32::MIN <= q <= i32::MAX) by (nonlinear_arith)
        requires
            b != 0,
            -0x8000_0000 <= a < 0x8000_0000,
            !(a == -0x8000_0000 && b == -1),
            ({
                let rest = a - q * b;
                &&& a >= 0 ==> 0 <= rest
                &&& a <= 0 ==> rest <= 0
                &&& b > 0 ==> -b < rest < b
                &&& b < 0 ==> b < rest < -b
            }),
    ;
}

/// What is left over by `trunc_div` is smaller than the divisor and has the
/// sign of the dividend.
pub proof fn lemma_trunc_div(a: int, b: int)
    requires
        b != 0,
    ensures
        ({
            let rest = a - trunc_div(a, b) * b;
            &&& a >= 0 ==> 0 <= rest
            &&& a <= 0 ==> rest <= 0
            &&& b > 0 ==> -b < rest < b
            &&& b < 0 ==> b < rest < -b
        }),
{
    let x = if a < 0 {
        -a
    } else {
        a
    };
    let d = if b < 0 {
        -b
    } else {
        b
    };
    vstd::arithmetic::div_mod::lemma_fundamental_div_mod(x, d);
    vstd::arithmetic::div_mod::lemma_mod_bound(x, d);
    let q = x / d;
    assert(x == d * q + x % d);
    assert(trunc_div(a, b) == if (a < 0) == (b < 0) {
        q
    } else {
        -q
    });
    assert(trunc_div(a, b) * b == if a < 0 {
        -(d * q)
    } else {
        d * q
    }) by (nonlinear_arith)
        requires
            trunc_div(a, b) == if (a < 0) == (b < 0) {
                q
            } else {
                -q
            },
            d == if b < 0 {
                -b
            } else {
                b
            },
    ;
}

/// Division by zero has no result, whatever the dividend.
pub proof fn lemma_division_by_zero(val1: i32)
    ensures
        spec_calculate(val1, 0, seq!['/']) == None::<i32>,
{
    lemma_operators_differ();
}

/// An operator other than `+`, `-`, `*` and `/` has no result, whatever the
/// operands: the outcome of a division by zero.
pub proof fn lemma_unknown_operator(val1: i32, val2: i32, operator: Seq<char>, dividend: i32)
    requires
        operator != seq!['+'],
        operator != seq!['-'],
        operator != seq!['*'],
        operator != seq!['/'],
    ensures
        spec_calculate(val1, val2, operator) == None::<i32>,
        spec_calculate(val1, val2, operator) == spec_calculate(dividend, 0, seq!['/']),
{
    lemma_operators_differ();
}

/// Writing a record and reading it back gives the record, whether it holds a
/// result or none and whatever bytes follow it; and a record takes one byte
/// at least and five at most.
pub proof fn lemma_record_round_trip(result: Option<i32>, rest: Seq<u8>)
    ensures
        record_of(record_bytes(result)) == Some(result),
        record_of(record_bytes(result) + rest) == Some(result),
        1 <= record_bytes(result).len() <= 5,
{
    match result {
        None => {},
        Some(v) => {
            lemma_i32_le_round_trip(v);
            assert(record_bytes(result).subrange(1, 5) =~= i32_le_bytes(v));
            assert((record_bytes(result) + rest).subrange(1, 5) =~= i32_le_bytes(v));
        },
    }
}

/// Bytes store a result exactly when they begin with the bytes written for
/// it: no record has two encodings, and no bytes store two records.
pub proof fn lemma_record_bytes_unique(bytes: Seq<u8>, result: Option<i32>)
    ensures
        record_of(bytes) == Some(result) <==> {
            &&& record_bytes(result).len() <= bytes.len()
            &&& bytes.subrange(0, record_bytes(result).len() as int) == record_bytes(result)
        },
{
    let len = record_bytes(result).len() as int;
    if record_of(bytes) == Some(result) {
        if bytes[0] == 1 {
            lemma_le_bytes_round_trip(bytes.subrange(1, 5));
        }
        assert(bytes.subrange(0, len) =~= record_bytes(result));
    }
    if len <= bytes.len() && bytes.subrange(0, len) == record_bytes(result) {
        lemma_record_round_trip(result, bytes.subrange(len, bytes.len() as int));
        assert(bytes =~= record_bytes(result) + bytes.subrange(len, bytes.len() as int));
    }
}

/// A record written over the first bytes of a slot is read back from the
/// slot, whatever the slot held before.
pub proof fn lemma_stored_record_is_read_back(data: Seq<u8>, result: Option<i32>)
    requires
        record_bytes(result).len() <= data.len(),
    ensures
        record_of(overwrite(data, record_bytes(result))) == Some(result),
        overwrite(data, record_bytes(result)).len() == data.len(),
{
    lemma_record_round_trip(
        result,
        data.subrange(record_bytes(result).len() as int, data.len() as int),
    );
}

/// A calculation on a slot that another program owns fails with `NotOwner`
/// and leaves the slot as it was, whatever the slot holds.
pub proof fn lemma_foreign_slot_is_rejected(
    program_id: Identity,
    slot: StorageSlotView,
    val1: i32,
    val2: i32,
    operator: Seq<char>,
)
    requires
        slot.owner != program_id,
    ensures
        spec_process_increment(program_id, seq![slot], val1, val2, operator) == (
            Err::<(), ProcessError>(ProcessError::NotOwner),
            seq![slot],
        ),
{
}

/// Every calculation on a slot that holds a record succeeds. The slot then
/// holds the outcome of the calculation, a result or none, and is again a
/// slot that holds a record; the bytes after the record stay as they were.
pub proof fn lemma_outcome_is_stored(
    program_id: Identity,
    slot: StorageSlotView,
    val1: i32,
    val2: i32,
    operator: Seq<char>,
)
    requires
        holds_record(program_id, slot),
    ensures
        ({
            let outcome = spec_calculate(val1, val2, operator);
            let (res, after) = spec_process_increment(
                program_id,
                seq![slot],
                val1,
                val2,
                operator,
            );
            &&& res is Ok
            &&& after.len() == 1
            &&& after[0].key == slot.key
            &&& after[0].data == overwrite(slot.data, record_bytes(outcome))
            &&& record_of(after[0].data) == Some(outcome)
            &&& holds_record(program_id, after[0])
        }),
{
    let outcome = spec_calculate(val1, val2, operator);
    lemma_record_round_trip(outcome, Seq::empty());
    lemma_stored_record_is_read_back(slot.data, outcome);
}

/// A division by a divisor other than zero, on a slot that holds a record,
/// leaves the slot holding the quotient rounded toward zero. The one
/// quotient that does not fit, `i32::MIN / -1`, is left out here.
pub proof fn lemma_quotient_is_stored(
    program_id: Identity,
    slot: StorageSlotView,
    val1: i32,
    val2: i32,
)
    requires
        holds_record(program_id, slot),
        val2 != 0,
        !(val1 == i32::MIN && val2 == -1),
    ensures
        ({
            let (res, after) = spec_process_increment(
                program_id,
                seq![slot],
                val1,
                val2,
                seq!['/'],
            );
            &&& res is Ok
            &&& record_of(after[0].data) == Some(
                Some(trunc_div(val1 as int, val2 as int) as i32),
            )
        }),
{
    lemma_division_truncates(val1, val2);
    lemma_outcome_is_stored(program_id, slot, val1, val2, seq!['/']);
}

/// A division by zero, on a slot that holds a record, succeeds and leaves
/// the slot holding no result.
pub proof fn lemma_division_by_zero_is_stored(
    program_id: Identity,
    slot: StorageSlotView,
    val1: i32,
)
    requires
        holds_record(program_id, slot),
    ensures
        ({
            let (res, after) = spec_process_increment(
                program_id,
                seq![slot],
                val1,
                0,
                seq!['/'],
            );
            &&& res is Ok
            &&& record_of(after[0].data) == Some(None::<i32>)
        }),
{
    lemma_division_by_zero(val1);
    lemma_outcome_is_stored(program_id, slot, val1, 0, seq!['/']);
}

/// A calculation with an unknown operator ends as a division by zero does,
/// on whatever slots and with whatever operands. On a slot that holds a
/// record it succeeds and leaves the slot holding no result.
pub proof fn lemma_unknown_operator_is_stored(
    program_id: Identity,
    slots: Seq<StorageSlotView>,
    val1: i32,
    val2: i32,
    operator: Seq<char>,
    dividend: i32,
)
    requires
        operator != seq!['+'],
        operator != seq!['-'],
        operator != seq!['*'],
        operator != seq!['/'],
    ensures
        spec_process_increment(program_id, slots, val1, val2, operator) == spec_process_increment(
            program_id,
            slots,
            dividend,
            0,
            seq!['/'],
        ),
        slots.len() == 1 && holds_record(program_id, slots[0]) ==> {
            let (res, after) = spec_process_increment(program_id, slots, val1, val2, operator);
            &&& res is Ok
            &&& record_of(after[0].data) == Some(None::<i32>)
        },
{
    lemma_unknown_operator(val1, val2, operator, dividend);
    if slots.len() == 1 && holds_record(program_id, slots[0]) {
        assert(slots =~= seq![slots[0]]);
        lemma_outcome_is_stored(program_id, slots[0], val1, val2, operator);
    }
}

/// Two calculations in a row, the second on the result of the first: the
/// slot ends up holding what the second operator makes of that result.
pub proof fn lemma_calculations_compose(
    program_id: Identity,
    slot: StorageSlotView,
    val1: i32,
    val2: i32,
    first: Seq<char>,
    val3: i32,
    second: Seq<char>,
)
    requires
        holds_record(program_id, slot),
        spec_calculate(val1, val2, first) is Some,
    ensures
        ({
            let between = spec_process_increment(program_id, seq![slot], val1, val2, first).1;
            let result = spec_calculate(val1, val2, first)->Some_0;
            let (res, after) = spec_process_increment(program_id, between, result, val3, second);
            &&& res is Ok
            &&& record_of(after[0].data) == Some(spec_calculate(result, val3, second))
        }),
{
    lemma_outcome_is_stored(program_id, slot, val1, val2, first);
    let between = spec_process_increment(program_id, seq![slot], val1, val2, first).1;
    let result = spec_calculate(val1, val2, first)->Some_0;
    assert(between =~= seq![between[0]]);
    lemma_outcome_is_stored(program_id, between[0], result, val3, second);
}

/// A slot that the host has provisioned as asked, owned by the program and
/// with room for a record, holds the result zero once the initialization
/// has finished.
pub proof fn lemma_initialized_slot_holds_zero(
    program_id: Identity,
    slots: Seq<StorageSlotView>,
)
    requires
        slots.len() == 3,
        slots[1].owner == program_id,
        slots[1].data.len() >= RECORD_SPACE,
    ensures
        ({
            let (action, after) = spec_process_initialize(
                program_id,
                slots,
                InitializeEvent::Provisioned,
            );
            &&& action == Action::Finish(Ok(()))
            &&& after == slots.update(
                1,
                StorageSlotView {
                    data: overwrite(slots[1].data, record_bytes(Some(0i32))),
                    ..slots[1]
                },
            )
            &&& record_of(after[1].data) == Some(Some(0i32))
            &&& holds_record(program_id, after[1])
        }),
{
    lemma_record_round_trip(Some(0i32), Seq::empty());
    lemma_stored_record_is_read_back(slots[1].data, Some(0i32));
}

/// Initializing again a slot that holds a record ends in one of two ways,
/// and the host's answer says in which. Where the host refuses to provision,
/// the call fails with the host's code and the slot keeps its record. Where
/// the host provisions, the call succeeds and the slot holds the result zero
/// again.
pub proof fn lemma_initialize_again(
    program_id: Identity,
    slots: Seq<StorageSlotView>,
    code: u64,
)
    requires
        slots.len() == 3,
        holds_record(program_id, slots[1]),
    ensures
        spec_process_initialize(program_id, slots, InitializeEvent::Started).0 is Provision,
        spec_process_initialize(program_id, slots, InitializeEvent::Started).1 == slots,
        spec_process_initialize(program_id, slots, InitializeEvent::ProvisionFailed(code)) == (
            Action::Finish(Err(ProcessError::Provisioning(code))),
            slots,
        ),
        spec_process_initialize(program_id, slots, InitializeEvent::Provisioned).0
            == Action::Finish(Ok(())),
        record_of(
            spec_process_initialize(program_id, slots, InitializeEvent::Provisioned).1[1].data,
        ) == Some(Some(0i32)),
{
    lemma_initialized_slot_holds_zero(program_id, slots);
}

/// A step that does not end in success leaves every slot as it was: a
/// calculation that fails, an initialization that fails or that asks the
/// host to provision, and an instruction that ends in either way.
pub proof fn lemma_only_success_writes(
    program_id: Identity,
    slots: Seq<StorageSlotView>,
    val1: i32,
    val2: i32,
    operator: Seq<char>,
    event: InitializeEvent,
    input: Seq<u8>,
)
    ensures
        spec_process_increment(program_id, slots, val1, val2, operator).0 is Err
            ==> spec_process_increment(program_id, slots, val1, val2, operator).1 == slots,
        spec_process_initialize(program_id, slots, event).0 != Action::Finish(Ok(()))
            ==> spec_process_initialize(program_id, slots, event).1 == slots,
        spec_process_instruction(program_id, slots, input).0 != Action::Finish(Ok(()))
            ==> spec_process_instruction(program_id, slots, input).1 == slots,
{
}

/// A step changes nothing but the bytes of the record: the list keeps its
/// length, each slot keeps its name, its owner and its size, and a slot that
/// the program does not own keeps its bytes.
pub proof fn lemma_only_the_record_changes(
    program_id: Identity,
    slots: Seq<StorageSlotView>,
    val1: i32,
    val2: i32,
    operator: Seq<char>,
    event: InitializeEvent,
    input: Seq<u8>,
    i: int,
)
    requires
        0 <= i < slots.len(),
    ensures
        ({
            let after = spec_process_increment(program_id, slots, val1, val2, operator).1;
            &&& after.len() == slots.len()
            &&& after[i].key == slots[i].key
            &&& after[i].owner == slots[i].owner
            &&& after[i].data.len() == slots[i].data.len()
            &&& slots[i].owner != program_id ==> after[i] == slots[i]
        }),
        ({
            let after = spec_process_initialize(program_id, slots, event).1;
            &&& after.len() == slots.len()
            &&& after[i].key == slots[i].key
            &&& after[i].owner == slots[i].owner
            &&& after[i].data.len() == slots[i].data.len()
            &&& slots[i].owner != program_id ==> after[i] == slots[i]
        }),
        ({
            let after = spec_process_instruction(program_id, slots, input).1;
            &&& after.len() == slots.len()
            &&& after[i].key == slots[i].key
            &&& after[i].owner == slots[i].owner
            &&& after[i].data.len() == slots[i].data.len()
            &&& slots[i].owner != program_id ==> after[i] == slots[i]
        }),
{
}

/// The entry point does what the instruction bytes say and nothing else.
/// Bytes that do not decode end the call with the decoder's error and change
/// no slot; the opcode `0` takes the first step of an initialization; the
/// bytes of a calculation, whatever follows them, carry that calculation out.
pub proof fn lemma_instruction_is_dispatched(
    program_id: Identity,
    slots: Seq<StorageSlotView>,
    input: Seq<u8>,
    val1: i32,
    val2: i32,
    operator: Seq<char>,
    trailing: Seq<u8>,
)
    requires
        encode_utf8(operator).len() <= u8::MAX,
    ensures
        spec_unpack(input) matches Err(e) ==> spec_process_instruction(program_id, slots, input)
            == (Action::Finish(Err(ProcessError::Decode(e))), slots),
        input.len() > 0 && input[0] == 0 ==> spec_process_instruction(program_id, slots, input)
            == spec_process_initialize(program_id, slots, InitializeEvent::Started),
        ({
            let (res, after) = spec_process_increment(program_id, slots, val1, val2, operator);
            spec_process_instruction(
                program_id,
                slots,
                calculate_bytes(val1, val2, operator) + trailing,
            ) == (Action::Finish(res), after)
        }),
{
    lemma_unpack_calculate_bytes(val1, val2, operator, trailing);
}

} // verus!
