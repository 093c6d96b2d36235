//! Big-endian integers: what a run of bytes spells, and the bytes that spell
//! a number. The conversions themselves are byteorder's; the functions here
//! that call them are the only ones in the crate whose contracts are taken
//! on trust.

use byteorder::{BigEndian, ByteOrder};
use vstd::prelude::*;

verus! {

/// The number spelled by the first four bytes of `b`, most significant first.
#[verifier::opaque]
pub open spec fn spec_be_u32(b: Seq<u8>) -> nat
    recommends
        b.len() >= 4,
{
    (b[0] as nat) * 0x100_0000 + (b[1] as nat) * 0x1_0000 + (b[2] as nat) * 0x100 + (b[3] as nat)
}

/// The number spelled by the first eight bytes of `b`, most significant first.
pub open spec fn spec_be_u64(b: Seq<u8>) -> nat
    recommends
        b.len() >= 8,
{
    spec_be_u32(b.subrange(0, 4)) * 0x1_0000_0000 + spec_be_u32(b.subrange(4, 8))
}

/// A 32-bit pattern read as a two's complement number.
pub open spec fn spec_signed32(u: nat) -> int {
    if u < 0x8000_0000 {
        u as int
    } else {
        u - 0x1_0000_0000
    }
}

/// The 32-bit pattern of a two's complement number.
pub open spec fn spec_unsigned32(i: int) -> nat {
    if i >= 0 {
        i as nat
    } else {
        (i + 0x1_0000_0000) as nat
    }
}

/// The first four bytes of `b` read as a signed number.
pub open spec fn spec_be_i32(b: Seq<u8>) -> int
    recommends
        b.len() >= 4,
{
    spec_signed32(spec_be_u32(b))
}

/// The four bytes that spell `n`, most significant first.
#[verifier::opaque]
pub open spec fn spec_u32_bytes(n: u32) -> Seq<u8> {
    seq![
        (n / 0x100_0000) as u8,
        ((n / 0x1_0000) % 0x100) as u8,
        ((n / 0x100) % 0x100) as u8,
        (n % 0x100) as u8,
    ]
}

/// The four bytes that spell the two's complement pattern of `n`.
pub open spec fn spec_i32_bytes(n: i32) -> Seq<u8> {
    spec_u32_bytes(spec_unsigned32(n as int) as u32)
}

/// Writing an unsigned number and reading the bytes back gives the number.
pub proof fn lemma_u32_round_trip(n: u32)
    ensures
        spec_u32_bytes(n).len() == 4,
        spec_be_u32(spec_u32_bytes(n)) == n,
{
    reveal(spec_be_u32);
    reveal(spec_u32_bytes);
}

/// Writing a signed number and reading the bytes back gives the number, over
/// the whole range of `i32`: a negative offset does not come back as its bit
/// pattern.
pub proof fn lemma_i32_round_trip(n: i32)
    ensures
        spec_i32_bytes(n).len() == 4,
        spec_be_i32(spec_i32_bytes(n)) == n,
{
    lemma_u32_round_trip(spec_unsigned32(n as int) as u32);
}

/// `byteorder::BigEndian::read_u32`: the first four bytes of `buf` as an
/// unsigned number, most significant byte first. It panics on a shorter
/// buffer, which `requires` rules out.
#[verifier::external_body]
pub(crate) fn be_read_u32(buf: &[u8]) -> (v: u32)
    requires
        buf@.len() >= 4,
    ensures
        v == spec_be_u32(buf@),
{
    BigEndian::read_u32(buf)
}

/// `byteorder::BigEndian::read_i32`: the first four bytes of `buf` as a
/// two's complement number, most significant byte first. It panics on a
/// shorter buffer, which `requires` rules out.
#[verifier::external_body]
pub(crate) fn be_read_i32(buf: &[u8]) -> (v: i32)
    requires
        buf@.len() >= 4,
    ensures
        v == spec_be_i32(buf@),
{
    BigEndian::read_i32(buf)
}

/// `byteorder::BigEndian::read_u64`: the first eight bytes of `buf` as an
/// unsigned number, most significant byte first. It panics on a shorter
/// buffer, which `requires` rules out.
#[verifier::external_body]
pub(crate) fn be_read_u64(buf: &[u8]) -> (v: u64)
    requires
        buf@.len() >= 8,
    ensures
        v == spec_be_u64(buf@),
{
    BigEndian::read_u64(buf)
}

/// `byteorder::BigEndian::write_u32`, on a buffer of exactly four bytes: the
/// buffer then spells `n`, most significant byte first.
#[verifier::external_body]
pub(crate) fn be_write_u32(n: u32) -> (b: [u8; 4])
    ensures
        b@ == spec_u32_bytes(n),
{
    let mut b = [0u8; 4];
    BigEndian::write_u32(&mut b, n);
    b
}

/// `byteorder::BigEndian::write_i32`, on a buffer of exactly four bytes: the
/// buffer then spells the two's complement pattern of `n`, most significant
/// byte first.
#[verifier::external_body]
pub(crate) fn be_write_i32(n: i32) -> (b: [u8; 4])
    ensures
        b@ == spec_i32_bytes(n),
{
    let mut b = [0u8; 4];
    BigEndian::write_i32(&mut b, n);
    b
}

} // verus!
