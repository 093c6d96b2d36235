//! What every kind of box can do: name its type, tell its size before it is
//! written, describe itself, write itself, and read itself from bytes whose
//! header declared a size.

use crate::error::Error;
use crate::header::{BoxType, HEADER_SIZE};
use crate::reader::ByteReader;
use vstd::prelude::*;

verus! {

/// A box that knows its type and its size on the wire.
pub trait Mp4Box: Sized {
    /// The type that the header of the box names.
    spec fn spec_box_type(&self) -> BoxType;

    /// The number of bytes of the box on the wire, header included.
    spec fn spec_box_size(&self) -> nat;

    /// The bytes of the box on the wire, header included.
    spec fn spec_box_wire(&self) -> Seq<u8>;

    /// The bytes of a box are as many as its size says.
    proof fn lemma_box_wire_len(&self)
        ensures
            self.spec_box_wire().len() == self.spec_box_size(),
    ;

    /// The type of the box.
    fn box_type(&self) -> (t: BoxType)
        ensures
            t == self.spec_box_type(),
    ;

    /// The size is known before a byte is written, so that the header can be
    /// written first and never mended.
    fn box_size(&self) -> (n: u64)
        requires
            self.spec_box_size() <= u64::MAX,
        ensures
            n == self.spec_box_size(),
    ;

    /// A short line for a listing of boxes.
    fn summary(&self) -> (r: Result<String, Error>)
        ensures
            r is Ok,
    ;
}

/// A box that can be read from bytes.
pub trait ReadBox: Sized {
    /// Reads a box whose header has been read and declared `size` bytes: the
    /// cursor stands behind that header. A box that was read leaves the
    /// cursor at the end that its header declared; a failure leaves the
    /// cursor where it was.
    fn read_box(reader: &mut ByteReader, size: u64) -> (r: Result<Self, Error>)
        ensures
            final(reader).bytes() == old(reader).bytes(),
            r is Ok ==> final(reader).offset() == old(reader).offset() - HEADER_SIZE + size,
            r is Err ==> final(reader).offset() == old(reader).offset(),
    ;
}

/// A box that can be written to bytes.
pub trait WriteBox: Mp4Box {
    /// Appends the box to `writer` and returns the number of bytes written:
    /// the bytes of the box, as many as `box_size` told. A box that cannot
    /// be written leaves `writer` as it was.
    fn write_box(&self, writer: &mut Vec<u8>) -> (r: Result<u64, Error>)
        requires
            self.spec_box_size() <= u64::MAX,
        ensures
            match r {
                Ok(n) => {
                    &&& n == self.spec_box_size()
                    &&& final(writer)@ == old(writer)@ + self.spec_box_wire()
                    &&& final(writer)@.len() == old(writer)@.len() + n
                },
                Err(_) => final(writer)@ == old(writer)@,
            },
    ;
}

} // verus!
