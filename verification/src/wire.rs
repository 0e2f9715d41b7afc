//! Byte-level encodings: little-endian integers, the stored record, and the
//! calls into `borsh` and `std` that read and write them.
//!
//! The record is written and read by `borsh`, and the operator of a
//! calculation is checked by `std::str::from_utf8`. Verus does not see inside
//! either: what this library takes them to do is stated in the contracts of
//! `borsh_to_vec`, `borsh_deserialize` and `str_from_utf8` below, and every
//! proof that goes through one of them rests on that statement.

use vstd::prelude::*;
use vstd::string::StringSliceAdditionalSpecFns;
use vstd::utf8::valid_utf8;

verus! {

/// The unsigned number that four bytes stand for, least significant byte first.
pub open spec fn le_u32(b: Seq<u8>) -> int
    recommends
        b.len() == 4,
{
    b[0] + 0x100 * b[1] + 0x1_0000 * b[2] + 0x100_0000 * b[3]
}

/// The signed number that four bytes stand for: `le_u32` read in two's complement.
pub open spec fn le_i32(b: Seq<u8>) -> int
    recommends
        b.len() == 4,
{
    if le_u32(b) >= 0x8000_0000 {
        le_u32(b) - 0x1_0000_0000
    } else {
        le_u32(b)
    }
}

/// The four bytes of `v` in two's complement, least significant byte first.
pub open spec fn i32_le_bytes(v: i32) -> Seq<u8> {
    let u: int = if v < 0 {
        v + 0x1_0000_0000
    } else {
        v as int
    };
    seq![
        (u % 0x100) as u8,
        (u / 0x100 % 0x100) as u8,
        (u / 0x1_0000 % 0x100) as u8,
        (u / 0x100_0000) as u8,
    ]
}

/// Reading back the bytes written for `v` gives `v`.
pub proof fn lemma_i32_le_round_trip(v: i32)
    ensures
        i32_le_bytes(v).len() == 4,
        le_i32(i32_le_bytes(v)) == v,
{
    let u: int = if v < 0 {
        v + 0x1_0000_0000
    } else {
        v as int
    };
    let q1 = u / 0x100;
    let q2 = q1 / 0x100;
    let q3 = q2 / 0x100;
    assert(u == 0x100 * q1 + u % 0x100);
    assert(q1 == 0x100 * q2 + q1 % 0x100);
    assert(q2 == 0x100 * q3 + q2 % 0x100);
    assert(q2 == u / 0x1_0000);
    assert(q3 == u / 0x100_0000);
    assert(0 <= q3 < 0x100);
    assert(le_u32(i32_le_bytes(v)) == u);
}

/// Four bytes are the bytes written for the number they stand for.
pub proof fn lemma_le_bytes_round_trip(b: Seq<u8>)
    requires
        b.len() == 4,
    ensures
        i32::MIN <= le_i32(b) <= i32::MAX,
        i32_le_bytes(le_i32(b) as i32) == b,
{
    let u = le_u32(b);
    let hi = b[1] + 0x100 * b[2] + 0x1_0000 * b[3];
    assert(u == b[0] + 0x100 * hi);
    assert(u % 0x100 == b[0] && u / 0x100 == hi);
    assert(u / 0x100 % 0x100 == b[1]);
    assert(u / 0x1_0000 == b[2] + 0x100 * b[3]);
    assert(u / 0x1_0000 % 0x100 == b[2]);
    assert(u / 0x100_0000 == b[3]);
    assert(i32_le_bytes(le_i32(b) as i32) =~= b);
}

/// Reads the signed 32-bit number stored little-endian at `bytes[at..at + 4]`.
pub(crate) fn read_i32_le(bytes: &[u8], at: usize) -> (v: i32)
    requires
        at + 4 <= bytes.len(),
    ensures
        v == le_i32(bytes@.subrange(at as int, at + 4)),
{
    let b0: u32 = bytes[at] as u32;
    let b1: u32 = bytes[at + 1] as u32;
    let b2: u32 = bytes[at + 2] as u32;
    let b3: u32 = bytes[at + 3] as u32;
    let u: u32 = b0 + 0x100 * b1 + 0x1_0000 * b2 + 0x100_0000 * b3;
    if u >= 0x8000_0000 {
        let low: i32 = (u - 0x8000_0000) as i32;
        low + i32::MIN
    } else {
        u as i32
    }
}

/// The bytes that store a result: one flag byte, `0` for no result and `1`
/// for a result, followed in the second case by the result's four bytes.
pub open spec fn record_bytes(result: Option<i32>) -> Seq<u8> {
    match result {
        None => seq![0u8],
        Some(v) => seq![1u8] + i32_le_bytes(v),
    }
}

/// The result that the first bytes of `bytes` store, if they store one: the
/// flag byte `0`, or the flag byte `1` and four bytes after it. What follows
/// the record is not part of it.
pub open spec fn record_of(bytes: Seq<u8>) -> Option<Option<i32>> {
    if bytes.len() >= 1 && bytes[0] == 0 {
        Some(None)
    } else if bytes.len() >= 5 && bytes[0] == 1 {
        Some(Some(le_i32(bytes.subrange(1, 5)) as i32))
    } else {
        None
    }
}

/// `data` with its first bytes replaced by `bytes`; the length stays.
pub open spec fn overwrite(data: Seq<u8>, bytes: Seq<u8>) -> Seq<u8>
    recommends
        bytes.len() <= data.len(),
{
    bytes + data.subrange(bytes.len() as int, data.len() as int)
}

/// Replaces the first bytes of `data` by `bytes`.
pub(crate) fn write_prefix(data: &mut Vec<u8>, bytes: &Vec<u8>)
    requires
        bytes.len() <= old(data).len(),
    ensures
        final(data)@ == overwrite(old(data)@, bytes@),
{
    let mut i: usize = 0;
    while i < bytes.len()
        invariant
            i <= bytes.len() <= data.len(),
            data.len() == old(data).len(),
            forall|j: int| 0 <= j < i ==> data@[j] == bytes@[j],
            forall|j: int| i <= j < data.len() ==> data@[j] == old(data)@[j],
        decreases bytes.len() - i,
    {
        data[i] = bytes[i];
        i += 1;
    }
    assert(data@ =~= overwrite(old(data)@, bytes@));
}

/// `std::io::Error`, the error of `borsh`; nothing is read from it.
#[verifier::external_type_specification]
#[verifier::external_body]
pub struct ExIoError(std::io::Error);

/// `std::str::Utf8Error`, the error of `std::str::from_utf8`; nothing is
/// read from it.
#[verifier::external_type_specification]
#[verifier::external_body]
pub struct ExUtf8Error(std::str::Utf8Error);

/// `borsh::to_vec` on an `Option<i32>`. Trusted: the call succeeds, since it
/// writes into a vector of its own, and gives the flag byte followed, for
/// `Some`, by the number's little-endian bytes.
#[verifier::external_body]
pub(crate) fn borsh_to_vec(result: &Option<i32>) -> (res: Result<Vec<u8>, std::io::Error>)
    ensures
        res is Ok,
        res->Ok_0@ == record_bytes(*result),
{
    borsh::to_vec(result)
}

/// `borsh::BorshDeserialize::deserialize` for an `Option<i32>`, which reads
/// from the start of the bytes. Trusted: the call gives the result that the
/// first bytes store, and fails where they store none: on no bytes, on a
/// flag other than `0` and `1`, and on fewer than four bytes after the flag
/// `1`.
#[verifier::external_body]
pub(crate) fn borsh_deserialize(bytes: &[u8]) -> (res: Result<Option<i32>, std::io::Error>)
    ensures
        match res {
            Ok(result) => record_of(bytes@) == Some(result),
            Err(_) => record_of(bytes@) is None,
        },
{
    let mut rest: &[u8] = bytes;
    <Option<i32> as borsh::BorshDeserialize>::deserialize(&mut rest)
}

/// `std::str::from_utf8`. Trusted: the call succeeds on well-formed UTF-8 and
/// on nothing else, and the string it gives is made of the bytes it was given.
#[verifier::external_body]
pub(crate) fn str_from_utf8(bytes: &[u8]) -> (res: Result<&str, std::str::Utf8Error>)
    ensures
        res is Ok <==> valid_utf8(bytes@),
        res matches Ok(s) ==> s.spec_bytes() == bytes@,
{
    std::str::from_utf8(bytes)
}

} // verus!
