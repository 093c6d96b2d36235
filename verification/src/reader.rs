//! A cursor over bytes held in memory: the stream that boxes are read from.

use crate::endian::{be_read_i32, be_read_u32, be_read_u64, spec_be_i32, spec_be_u32, spec_be_u64};
use crate::error::Error;
use vstd::prelude::*;

verus! {

/// Whether `n` bytes lie in `data` from `pos` on.
pub open spec fn spec_available(data: Seq<u8>, pos: int, n: int) -> bool {
    0 <= pos && pos + n <= data.len()
}

/// The unsigned 32-bit number that `data` holds at `pos`.
pub open spec fn spec_u32_at(data: Seq<u8>, pos: int) -> nat {
    spec_be_u32(data.subrange(pos, pos + 4))
}

/// The signed 32-bit number that `data` holds at `pos`.
pub open spec fn spec_i32_at(data: Seq<u8>, pos: int) -> int {
    spec_be_i32(data.subrange(pos, pos + 4))
}

/// The unsigned 64-bit number that `data` holds at `pos`.
pub open spec fn spec_u64_at(data: Seq<u8>, pos: int) -> nat {
    spec_be_u64(data.subrange(pos, pos + 8))
}

/// Where a skip to `target` leaves a cursor that stands at `pos` over `len`
/// bytes. The cursor never moves backward: a target behind it means that the
/// fields already read overran the size their box declared. A target past the
/// last byte means that the bytes end before the box does.
pub open spec fn spec_skip(len: nat, pos: nat, target: int) -> Result<nat, Error> {
    if target < pos {
        Err(Error::SizeMismatch)
    } else if target > len {
        Err(Error::TruncatedStream)
    } else {
        Ok(target as nat)
    }
}

/// A read position in a run of bytes. The position never passes the end.
#[derive(Clone, Copy, Debug)]
pub struct ByteReader<'a> {
    data: &'a [u8],
    pos: usize,
}

impl<'a> ByteReader<'a> {
    #[verifier::type_invariant]
    spec fn in_bounds(self) -> bool {
        self.pos <= self.data@.len()
    }

    /// All the bytes under the cursor, those behind it too.
    pub closed spec fn bytes(self) -> Seq<u8> {
        self.data@
    }

    /// How many bytes lie behind the cursor.
    pub closed spec fn offset(self) -> nat {
        self.pos as nat
    }

    /// A cursor at the first byte of `data`.
    pub fn new(data: &'a [u8]) -> (r: Self)
        ensures
            r.bytes() == data@,
            r.offset() == 0,
    {
        ByteReader { data, pos: 0 }
    }

    /// The position of the cursor, counted from the first byte.
    pub fn position(&self) -> (p: u64)
        ensures
            p == self.offset(),
            self.offset() <= self.bytes().len() <= usize::MAX,
    {
        proof {
            use_type_invariant(self);
            assert(self.data@.len() == self.data.len());
        }
        self.pos as u64
    }

    /// How many bytes lie ahead of the cursor.
    pub fn remaining(&self) -> (n: usize)
        ensures
            n == self.bytes().len() - self.offset(),
    {
        proof {
            use_type_invariant(self);
        }
        self.data.len() - self.pos
    }

    /// Reads four bytes as an unsigned number and steps over them. Where
    /// fewer than four are left the cursor stays and the call fails.
    pub fn read_u32(&mut self) -> (r: Result<u32, Error>)
        ensures
            final(self).bytes() == old(self).bytes(),
            match r {
                Ok(v) => {
                    &&& spec_available(old(self).bytes(), old(self).offset() as int, 4)
                    &&& v == spec_u32_at(old(self).bytes(), old(self).offset() as int)
                    &&& final(self).offset() == old(self).offset() + 4
                },
                Err(e) => {
                    &&& !spec_available(old(self).bytes(), old(self).offset() as int, 4)
                    &&& e == Error::TruncatedStream
                    &&& final(self).offset() == old(self).offset()
                },
            },
    {
        proof {
            use_type_invariant(&*self);
        }
        if self.data.len() - self.pos < 4 {
            return Err(Error::TruncatedStream);
        }
        let v = be_read_u32(&self.data[self.pos..self.pos + 4]);
        self.pos = self.pos + 4;
        Ok(v)
    }

    /// Reads four bytes as a signed number and steps over them. Where fewer
    /// than four are left the cursor stays and the call fails.
    pub fn read_i32(&mut self) -> (r: Result<i32, Error>)
        ensures
            final(self).bytes() == old(self).bytes(),
            match r {
                Ok(v) => {
                    &&& spec_available(old(self).bytes(), old(self).offset() as int, 4)
                    &&& v == spec_i32_at(old(self).bytes(), old(self).offset() as int)
                    &&& final(self).offset() == old(self).offset() + 4
                },
                Err(e) => {
                    &&& !spec_available(old(self).bytes(), old(self).offset() as int, 4)
                    &&& e == Error::TruncatedStream
                    &&& final(self).offset() == old(self).offset()
                },
            },
    {
        proof {
            use_type_invariant(&*self);
        }
        if self.data.len() - self.pos < 4 {
            return Err(Error::TruncatedStream);
        }
        let v = be_read_i32(&self.data[self.pos..self.pos + 4]);
        self.pos = self.pos + 4;
        Ok(v)
    }

    /// Reads eight bytes as an unsigned number and steps over them. Where
    /// fewer than eight are left the cursor stays and the call fails.
    pub fn read_u64(&mut self) -> (r: Result<u64, Error>)
        ensures
            final(self).bytes() == old(self).bytes(),
            match r {
                Ok(v) => {
                    &&& spec_available(old(self).bytes(), old(self).offset() as int, 8)
                    &&& v == spec_u64_at(old(self).bytes(), old(self).offset() as int)
                    &&& final(self).offset() == old(self).offset() + 8
                },
                Err(e) => {
                    &&& !spec_available(old(self).bytes(), old(self).offset() as int, 8)
                    &&& e == Error::TruncatedStream
                    &&& final(self).offset() == old(self).offset()
                },
            },
    {
        proof {
            use_type_invariant(&*self);
        }
        if self.data.len() - self.pos < 8 {
            return Err(Error::TruncatedStream);
        }
        let v = be_read_u64(&self.data[self.pos..self.pos + 8]);
        self.pos = self.pos + 8;
        Ok(v)
    }
}

/// Moves the cursor forward to `pos`, over whatever bytes lie between: a box
/// may end in fields that this reader does not know. A cursor that already
/// stands at `pos` stays. One that stands past it is not moved back, and one
/// whose bytes end before `pos` is not moved past them: both calls fail and
/// leave the cursor where it was.
pub fn skip_bytes_to(reader: &mut ByteReader, pos: u64) -> (r: Result<(), Error>)
    ensures
        final(reader).bytes() == old(reader).bytes(),
        match r {
            Ok(_) => spec_skip(old(reader).bytes().len(), old(reader).offset(), pos as int) == Ok::<
                nat,
                Error,
            >(final(reader).offset()),
            Err(e) => {
                &&& spec_skip(old(reader).bytes().len(), old(reader).offset(), pos as int) == Err::<
                    nat,
                    Error,
                >(e)
                &&& final(reader).offset() == old(reader).offset()
            },
        },
{
    proof {
        use_type_invariant(&*reader);
    }
    if pos < reader.pos as u64 {
        return Err(Error::SizeMismatch);
    }
    if pos > reader.data.len() as u64 {
        return Err(Error::TruncatedStream);
    }
    reader.pos = pos as usize;
    Ok(())
}

} // verus!
