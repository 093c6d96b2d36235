//! The sink that boxes are written to: a vector of bytes that grows at its
//! end.

use crate::endian::{be_write_i32, be_write_u32, spec_i32_bytes, spec_u32_bytes};
use vstd::prelude::*;

verus! {

/// Appends the four bytes that spell `n`, most significant first.
pub fn write_u32(writer: &mut Vec<u8>, n: u32)
    ensures
        final(writer)@ == old(writer)@ + spec_u32_bytes(n),
{
    let b = be_write_u32(n);
    writer.push(b[0]);
    writer.push(b[1]);
    writer.push(b[2]);
    writer.push(b[3]);
    assert(writer@ =~= old(writer)@ + spec_u32_bytes(n));
}

/// Appends the four bytes that spell the two's complement pattern of `n`,
/// most significant first.
pub fn write_i32(writer: &mut Vec<u8>, n: i32)
    ensures
        final(writer)@ == old(writer)@ + spec_i32_bytes(n),
{
    let b = be_write_i32(n);
    writer.push(b[0]);
    writer.push(b[1]);
    writer.push(b[2]);
    writer.push(b[3]);
    assert(writer@ =~= old(writer)@ + spec_i32_bytes(n));
}

} // verus!
