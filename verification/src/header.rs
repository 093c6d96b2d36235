//! The framing of a box: the header that declares its size and its type, and
//! the version and flags that open the payload of a full box.

use crate::endian::{lemma_u32_round_trip, spec_u32_bytes};
use crate::error::Error;
use crate::reader::{spec_available, spec_u32_at, spec_u64_at, ByteReader};
use crate::writer::write_u32;
use vstd::prelude::*;

verus! {

/// The bytes of a box header: a 32-bit size and a four-character type.
pub const HEADER_SIZE: u64 = 8;

/// The bytes of the version and flags that open a full box.
pub const HEADER_EXT_SIZE: u64 = 4;

/// The value of the 32-bit size field that announces a 64-bit size after the
/// type.
pub const EXTENDED_SIZE: u32 = 1;

/// The largest value that the 24 bits of the flags hold.
pub const MAX_FLAGS: u32 = 0xFF_FFFF;

/// The four characters `ctts`, read as a big-endian number.
pub const CTTS_CODE: u32 = 0x6374_7473;

/// The type of a box: one that this crate reads and writes, or the four
/// characters of one that it does not.
#[derive(Debug, Clone, Copy, PartialEq, Eq, Structural)]
pub enum BoxType {
    /// The composition-time-to-sample table, `ctts`.
    CttsBox,
    /// Any other four characters, as a big-endian number.
    UnknownBox(u32),
}

impl BoxType {
    /// The type that four characters name.
    pub open spec fn spec_from_code(code: u32) -> BoxType {
        if code == CTTS_CODE {
            BoxType::CttsBox
        } else {
            BoxType::UnknownBox(code)
        }
    }

    /// The four characters of a type, as a big-endian number.
    pub open spec fn spec_code(self) -> u32 {
        match self {
            BoxType::CttsBox => CTTS_CODE,
            BoxType::UnknownBox(code) => code,
        }
    }

    /// Whether this is the value that its own four characters are read as:
    /// every type but an `UnknownBox` that holds the characters of a known one.
    pub open spec fn spec_canonical(self) -> bool {
        BoxType::spec_from_code(self.spec_code()) == self
    }

    /// The type that four characters name. Reading the characters of the
    /// result gives `code` back.
    pub fn from_code(code: u32) -> (t: BoxType)
        ensures
            t == BoxType::spec_from_code(code),
            t.spec_code() == code,
            t.spec_canonical(),
    {
        if code == CTTS_CODE {
            BoxType::CttsBox
        } else {
            BoxType::UnknownBox(code)
        }
    }

    /// The four characters of this type, as a big-endian number.
    pub fn code(&self) -> (code: u32)
        ensures
            code == self.spec_code(),
    {
        match self {
            BoxType::CttsBox => CTTS_CODE,
            BoxType::UnknownBox(code) => *code,
        }
    }
}

/// The header of a box: the size that the box declares for itself, header
/// included, and its type.
#[derive(Debug, Clone, Copy, PartialEq, Eq, Structural)]
pub struct BoxHeader {
    pub name: BoxType,
    pub size: u64,
}

/// What reading a header at `pos` in `data` gives: the header and the position
/// after it. The size is the 32-bit field, or, where that field holds
/// `EXTENDED_SIZE`, the 64-bit field that follows the type.
pub open spec fn spec_read_header(data: Seq<u8>, pos: int) -> Result<(BoxHeader, int), Error> {
    if !spec_available(data, pos, 8) {
        Err(Error::TruncatedStream)
    } else {
        let size = spec_u32_at(data, pos);
        let name = BoxType::spec_from_code(spec_u32_at(data, pos + 4) as u32);
        if size != EXTENDED_SIZE {
            Ok((BoxHeader { name, size: size as u64 }, pos + 8))
        } else if !spec_available(data, pos + 8, 8) {
            Err(Error::TruncatedStream)
        } else {
            Ok((BoxHeader { name, size: spec_u64_at(data, pos + 8) as u64 }, pos + 16))
        }
    }
}

/// A header takes eight bytes on the wire.
pub proof fn lemma_header_wire_len(header: BoxHeader)
    ensures
        header.spec_wire().len() == HEADER_SIZE,
{
    lemma_u32_round_trip((header.size % 0x1_0000_0000) as u32);
    lemma_u32_round_trip(header.name.spec_code());
}

impl BoxHeader {
    /// The eight bytes of this header on the wire. The size field is 32 bits
    /// wide and holds the low 32 bits of the size.
    pub open spec fn spec_wire(self) -> Seq<u8> {
        spec_u32_bytes((self.size % 0x1_0000_0000) as u32) + spec_u32_bytes(self.name.spec_code())
    }

    /// The header of a box of type `name` that takes `size` bytes in all.
    pub fn new(name: BoxType, size: u64) -> (h: BoxHeader)
        ensures
            h == (BoxHeader { name, size }),
    {
        BoxHeader { name, size }
    }

    /// Reads a header and leaves the cursor behind it. Where the bytes end
    /// before the header does, the call fails and the cursor stays.
    pub fn read(reader: &mut ByteReader) -> (r: Result<BoxHeader, Error>)
        ensures
            final(reader).bytes() == old(reader).bytes(),
            match r {
                Ok(h) => spec_read_header(old(reader).bytes(), old(reader).offset() as int) == Ok::<
                    (BoxHeader, int),
                    Error,
                >((h, final(reader).offset() as int)),
                Err(e) => {
                    &&& spec_read_header(old(reader).bytes(), old(reader).offset() as int) == Err::<
                        (BoxHeader, int),
                        Error,
                    >(e)
                    &&& final(reader).offset() == old(reader).offset()
                },
            },
    {
        let mut cursor = *reader;
        let size = cursor.read_u32()?;
        let code = cursor.read_u32()?;
        let name = BoxType::from_code(code);
        if size != EXTENDED_SIZE {
            *reader = cursor;
            return Ok(BoxHeader { name, size: size as u64 });
        }
        let size = cursor.read_u64()?;
        *reader = cursor;
        Ok(BoxHeader { name, size })
    }

    /// Appends the eight bytes of this header to `writer` and returns their
    /// number. A vector takes every byte, so the call does not fail.
    pub fn write(&self, writer: &mut Vec<u8>) -> (r: Result<u64, Error>)
        ensures
            r == Ok::<u64, Error>(HEADER_SIZE),
            final(writer)@ == old(writer)@ + self.spec_wire(),
            self.spec_wire().len() == HEADER_SIZE,
    {
        write_u32(writer, (self.size % 0x1_0000_0000) as u32);
        write_u32(writer, self.name.code());
        proof {
            lemma_header_wire_len(*self);
            assert(writer@ =~= old(writer)@ + self.spec_wire());
        }
        Ok(HEADER_SIZE)
    }
}

/// The 32-bit word that opens a full box: the version in its top byte, the
/// flags in the 24 bits below.
pub open spec fn spec_ext_word(version: u8, flags: u32) -> nat {
    (version as nat) * 0x100_0000 + flags as nat
}

/// The version in a word that opens a full box.
pub open spec fn spec_ext_version(word: nat) -> nat {
    word / 0x100_0000
}

/// The flags in a word that opens a full box.
pub open spec fn spec_ext_flags(word: nat) -> nat {
    word % 0x100_0000
}

/// The version and the flags that a word was packed from are those that it
/// is taken apart into.
pub proof fn lemma_ext_word_round_trip(version: u8, flags: u32)
    requires
        flags <= MAX_FLAGS,
    ensures
        spec_ext_word(version, flags) <= u32::MAX,
        spec_ext_version(spec_ext_word(version, flags)) == version,
        spec_ext_flags(spec_ext_word(version, flags)) == flags,
{
}

/// Reads the version and flags of a full box and leaves the cursor behind
/// them. Where fewer than four bytes are left the call fails and the cursor
/// stays.
pub fn read_box_header_ext(reader: &mut ByteReader) -> (r: Result<(u8, u32), Error>)
    ensures
        final(reader).bytes() == old(reader).bytes(),
        match r {
            Ok((version, flags)) => {
                &&& spec_available(old(reader).bytes(), old(reader).offset() as int, 4)
                &&& version == spec_ext_version(
                    spec_u32_at(old(reader).bytes(), old(reader).offset() as int),
                )
                &&& flags == spec_ext_flags(
                    spec_u32_at(old(reader).bytes(), old(reader).offset() as int),
                )
                &&& flags <= MAX_FLAGS
                &&& final(reader).offset() == old(reader).offset() + 4
            },
            Err(e) => {
                &&& !spec_available(old(reader).bytes(), old(reader).offset() as int, 4)
                &&& e == Error::TruncatedStream
                &&& final(reader).offset() == old(reader).offset()
            },
        },
{
    let word = reader.read_u32()?;
    Ok(((word / 0x100_0000) as u8, word % 0x100_0000))
}

/// Appends the version and flags of a full box to `writer` and returns the
/// number of bytes, four. Flags that do not fit 24 bits are refused, and
/// nothing is written.
pub fn write_box_header_ext(writer: &mut Vec<u8>, version: u8, flags: u32) -> (r: Result<
    u64,
    Error,
>)
    ensures
        match r {
            Ok(n) => {
                &&& flags <= MAX_FLAGS
                &&& n == HEADER_EXT_SIZE
                &&& final(writer)@ == old(writer)@ + spec_u32_bytes(
                    spec_ext_word(version, flags) as u32,
                )
            },
            Err(e) => {
                &&& flags > MAX_FLAGS
                &&& e == Error::FlagsOverflow
                &&& final(writer)@ == old(writer)@
            },
        },
{
    if flags > MAX_FLAGS {
        return Err(Error::FlagsOverflow);
    }
    write_u32(writer, (version as u32) * 0x100_0000 + flags);
    Ok(HEADER_EXT_SIZE)
}

} // verus!
