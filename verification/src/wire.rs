//! Fixed-width fields of the wire format: little-endian integers and raw
//! 32-byte keys, written and read by borsh.

use borsh::{BorshDeserialize, BorshSerialize};
use vstd::prelude::*;

verus! {

/// The error type of borsh's readers. It is carried, never looked into.
#[verifier::external_type_specification]
#[verifier::external_body]
pub struct ExIoError(std::io::Error);

/// The four little-endian bytes of `v`.
pub open spec fn u32_le(v: u32) -> Seq<u8> {
    seq![
        (v % 256) as u8,
        (v / 0x100 % 256) as u8,
        (v / 0x1_0000 % 256) as u8,
        (v / 0x100_0000 % 256) as u8,
    ]
}

/// The integer whose little-endian bytes are the first four of `b`.
pub open spec fn u32_from_le(b: Seq<u8>) -> u32
    recommends
        b.len() >= 4,
{
    (b[0] + b[1] * 0x100 + b[2] * 0x1_0000 + b[3] * 0x100_0000) as u32
}

/// Four bytes come out, and they read back as `v`.
pub proof fn lemma_u32_le_roundtrip(v: u32)
    ensures
        u32_le(v).len() == 4,
        u32_from_le(u32_le(v)) == v,
{
}

/// Any four bytes are the encoding of the integer they read as.
pub proof fn lemma_u32_from_le_roundtrip(b: Seq<u8>)
    requires
        b.len() == 4,
    ensures
        u32_le(u32_from_le(b)) == b,
{
    let b0 = b[0] as int;
    let b1 = b[1] as int;
    let b2 = b[2] as int;
    let b3 = b[3] as int;
    let hi1 = b1 + b2 * 0x100 + b3 * 0x1_0000;
    let hi2 = b2 + b3 * 0x100;
    let x = b0 + hi1 * 0x100;
    assert(x == b0 + b1 * 0x100 + b2 * 0x1_0000 + b3 * 0x100_0000);
    assert(x % 256 == b0 && x / 0x100 == hi1);
    assert(hi1 % 256 == b1 && hi1 / 0x100 == hi2);
    assert(hi2 % 256 == b2 && hi2 / 0x100 == b3);
    assert(x / 0x1_0000 == hi2);
    assert(x / 0x100_0000 == b3);
    assert(u32_le(u32_from_le(b)) =~= b);
}

/// Calls borsh's `BorshSerialize::serialize` for `u32` with `out` as the
/// writer. borsh hands the writer the integer's four little-endian bytes, and
/// a `Vec<u8>` takes every write by appending, so the call cannot fail.
/// Trusted: the bytes appended are `u32_le(v)`.
#[verifier::external_body]
pub(crate) fn write_u32(out: &mut Vec<u8>, v: u32)
    ensures
        final(out)@ == old(out)@ + u32_le(v),
{
    let _ = v.serialize(out);
}

/// Calls borsh's `BorshDeserialize::try_from_slice` for `u32`. borsh reads
/// four bytes as a little-endian integer, fails where fewer are there, and
/// fails where any are left over.
/// Trusted: the result is `Ok` on exactly four bytes, with their value.
#[verifier::external_body]
pub(crate) fn read_u32(bytes: &[u8]) -> (out: Result<u32, std::io::Error>)
    ensures
        out is Ok <==> bytes@.len() == 4,
        out is Ok ==> out->Ok_0 == u32_from_le(bytes@),
{
    u32::try_from_slice(bytes)
}

/// A signed 64-bit integer as the unsigned integer with the same bits.
pub open spec fn i64_bits(v: i64) -> int {
    if v >= 0 {
        v as int
    } else {
        v + 0x1_0000_0000_0000_0000
    }
}

/// The signed 64-bit integer whose bits are those of `x`, for `x` below 2^64.
pub open spec fn i64_of_bits(x: int) -> i64 {
    if x >= 0x8000_0000_0000_0000 {
        (x - 0x1_0000_0000_0000_0000) as i64
    } else {
        x as i64
    }
}

/// The eight little-endian bytes of `v`, in two's complement.
pub open spec fn i64_le(v: i64) -> Seq<u8> {
    let x = i64_bits(v);
    seq![
        (x % 256) as u8,
        (x / 0x100 % 256) as u8,
        (x / 0x1_0000 % 256) as u8,
        (x / 0x100_0000 % 256) as u8,
        (x / 0x1_0000_0000 % 256) as u8,
        (x / 0x100_0000_0000 % 256) as u8,
        (x / 0x1_0000_0000_0000 % 256) as u8,
        (x / 0x100_0000_0000_0000 % 256) as u8,
    ]
}

/// The integer whose two's-complement little-endian bytes are the first
/// eight of `b`.
pub open spec fn i64_from_le(b: Seq<u8>) -> i64
    recommends
        b.len() >= 8,
{
    i64_of_bits(
        b[0] + b[1] * 0x100 + b[2] * 0x1_0000 + b[3] * 0x100_0000 + b[4] * 0x1_0000_0000 + b[5]
            * 0x100_0000_0000 + b[6] * 0x1_0000_0000_0000 + b[7] * 0x100_0000_0000_0000,
    )
}

/// Eight bytes come out, and they read back as `v`.
pub proof fn lemma_i64_le_roundtrip(v: i64)
    ensures
        i64_le(v).len() == 8,
        i64_from_le(i64_le(v)) == v,
{
    let x = i64_bits(v);
    let q1 = x / 0x100;
    let q2 = q1 / 0x100;
    let q3 = q2 / 0x100;
    let q4 = q3 / 0x100;
    let q5 = q4 / 0x100;
    let q6 = q5 / 0x100;
    let q7 = q6 / 0x100;
    assert(0 <= x < 0x1_0000_0000_0000_0000);
    assert(q2 == x / 0x1_0000);
    assert(q3 == x / 0x100_0000);
    assert(q4 == x / 0x1_0000_0000);
    assert(q5 == x / 0x100_0000_0000);
    assert(q6 == x / 0x1_0000_0000_0000);
    assert(q7 == x / 0x100_0000_0000_0000);
    assert(q7 < 256);
    let b = i64_le(v);
    assert(b[0] == x % 256 && b[1] == q1 % 256 && b[2] == q2 % 256 && b[3] == q3 % 256);
    assert(b[4] == q4 % 256 && b[5] == q5 % 256 && b[6] == q6 % 256 && b[7] == q7);
    assert(q6 == b[6] + b[7] * 0x100);
    assert(q5 == b[5] + q6 * 0x100);
    assert(q4 == b[4] + q5 * 0x100);
    assert(q3 == b[3] + q4 * 0x100);
    assert(q2 == b[2] + q3 * 0x100);
    assert(q1 == b[1] + q2 * 0x100);
    assert(x == b[0] + q1 * 0x100);
    assert(i64_of_bits(x) == v);
}

/// Any eight bytes are the encoding of the integer they read as.
pub proof fn lemma_i64_from_le_roundtrip(b: Seq<u8>)
    requires
        b.len() == 8,
    ensures
        i64_le(i64_from_le(b)) == b,
{
    let b0 = b[0] as int;
    let b1 = b[1] as int;
    let b2 = b[2] as int;
    let b3 = b[3] as int;
    let b4 = b[4] as int;
    let b5 = b[5] as int;
    let b6 = b[6] as int;
    let b7 = b[7] as int;
    let h7 = b7;
    let h6 = b6 + h7 * 0x100;
    let h5 = b5 + h6 * 0x100;
    let h4 = b4 + h5 * 0x100;
    let h3 = b3 + h4 * 0x100;
    let h2 = b2 + h3 * 0x100;
    let h1 = b1 + h2 * 0x100;
    let x = b0 + h1 * 0x100;
    assert(x == b0 + b1 * 0x100 + b2 * 0x1_0000 + b3 * 0x100_0000 + b4 * 0x1_0000_0000 + b5
        * 0x100_0000_0000 + b6 * 0x1_0000_0000_0000 + b7 * 0x100_0000_0000_0000);
    assert(0 <= x < 0x1_0000_0000_0000_0000);
    assert(i64_bits(i64_of_bits(x)) == x);
    assert(x % 256 == b0 && x / 0x100 == h1);
    assert(h1 % 256 == b1 && h1 / 0x100 == h2);
    assert(h2 % 256 == b2 && h2 / 0x100 == h3);
    assert(h3 % 256 == b3 && h3 / 0x100 == h4);
    assert(h4 % 256 == b4 && h4 / 0x100 == h5);
    assert(h5 % 256 == b5 && h5 / 0x100 == h6);
    assert(h6 % 256 == b6 && h6 / 0x100 == h7);
    assert(x / 0x1_0000 == h2);
    assert(x / 0x100_0000 == h3);
    assert(x / 0x1_0000_0000 == h4);
    assert(x / 0x100_0000_0000 == h5);
    assert(x / 0x1_0000_0000_0000 == h6);
    assert(x / 0x100_0000_0000_0000 == h7);
    assert(i64_le(i64_from_le(b)) =~= b);
}

/// Calls borsh's `BorshSerialize::serialize` for `i64` with `out` as the
/// writer. borsh hands the writer the integer's eight little-endian bytes,
/// and a `Vec<u8>` takes every write by appending, so the call cannot fail.
/// Trusted: the bytes appended are `i64_le(v)`.
#[verifier::external_body]
pub(crate) fn write_i64(out: &mut Vec<u8>, v: i64)
    ensures
        final(out)@ == old(out)@ + i64_le(v),
{
    let _ = v.serialize(out);
}

/// Calls borsh's `BorshDeserialize::try_from_slice` for `i64`. borsh reads
/// eight bytes as a little-endian two's-complement integer, fails where fewer
/// are there, and fails where any are left over.
/// Trusted: the result is `Ok` on exactly eight bytes, with their value.
#[verifier::external_body]
pub(crate) fn read_i64(bytes: &[u8]) -> (out: Result<i64, std::io::Error>)
    ensures
        out is Ok <==> bytes@.len() == 8,
        out is Ok ==> out->Ok_0 == i64_from_le(bytes@),
{
    i64::try_from_slice(bytes)
}

/// Calls borsh's `BorshSerialize::serialize` for `[u8; 32]` with `out` as the
/// writer. borsh hands the writer the array's bytes as they are, with no
/// length in front, and a `Vec<u8>` takes every write by appending, so the
/// call cannot fail.
/// Trusted: the bytes appended are those of `key`, in order.
#[verifier::external_body]
pub(crate) fn write_key(out: &mut Vec<u8>, key: &[u8; 32])
    ensures
        final(out)@ == old(out)@ + key@,
{
    let _ = key.serialize(out);
}

/// Calls borsh's `BorshDeserialize::try_from_slice` for `[u8; 32]`. borsh
/// fills the array with the next 32 bytes, fails where fewer are there, and
/// fails where any are left over.
/// Trusted: the result is `Ok` on exactly 32 bytes, and holds them in order.
#[verifier::external_body]
pub(crate) fn read_key(bytes: &[u8]) -> (out: Result<[u8; 32], std::io::Error>)
    ensures
        out is Ok <==> bytes@.len() == 32,
        out is Ok ==> out->Ok_0@ == bytes@,
{
    <[u8; 32]>::try_from_slice(bytes)
}

} // verus!
