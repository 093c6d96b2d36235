//! The composition-time-to-sample table: for each run of consecutive samples
//! the offset from decode time to composition time.

use crate::decimal::{push_decimal, spec_decimal};
use crate::endian::{lemma_i32_round_trip, lemma_u32_round_trip, spec_i32_bytes, spec_u32_bytes};
use crate::error::Error;
use crate::header::{
    lemma_header_wire_len, read_box_header_ext, spec_ext_flags, spec_ext_version, spec_ext_word,
    write_box_header_ext, BoxHeader, BoxType, HEADER_EXT_SIZE, HEADER_SIZE, MAX_FLAGS,
};
use crate::reader::{
    skip_bytes_to, spec_available, spec_i32_at, spec_skip, spec_u32_at, ByteReader,
};
use crate::value::{Mp4Box, ReadBox, WriteBox};
use crate::writer::{write_i32, write_u32};
use vstd::prelude::*;

verus! {

/// A run of samples that share one offset.
#[derive(Debug, Clone, Copy, PartialEq, Eq, Structural)]
pub struct CttsEntry {
    /// How many consecutive samples the run holds.
    pub sample_count: u32,
    /// Composition time minus decode time, in units of the track's timescale.
    pub sample_offset: i32,
}

impl Default for CttsEntry {
    fn default() -> (e: Self)
        ensures
            e == (CttsEntry { sample_count: 0, sample_offset: 0 }),
    {
        CttsEntry { sample_count: 0, sample_offset: 0 }
    }
}

/// The table as a box: version and flags, and the runs in sample order.
#[derive(Debug, PartialEq, Eq)]
pub struct CttsBox {
    pub version: u8,
    pub flags: u32,
    pub entries: Vec<CttsEntry>,
}

/// The table as contracts speak of it: what a `CttsBox` stands for, with its
/// runs as a sequence.
pub struct CttsTable {
    pub version: u8,
    pub flags: u32,
    pub entries: Seq<CttsEntry>,
}

impl View for CttsBox {
    type V = CttsTable;

    open spec fn view(&self) -> CttsTable {
        CttsTable { version: self.version, flags: self.flags, entries: self.entries@ }
    }
}

impl Clone for CttsBox {
    fn clone(&self) -> (b: Self)
        ensures
            b@ == self@,
    {
        let entries = self.entries.clone();
        assert(entries@ =~= self.entries@);
        CttsBox { version: self.version, flags: self.flags, entries }
    }
}

impl Default for CttsBox {
    fn default() -> (b: Self)
        ensures
            b@ == (CttsTable { version: 0, flags: 0, entries: Seq::empty() }),
    {
        CttsBox { version: 0, flags: 0, entries: Vec::new() }
    }
}

/// The eight bytes of a run on the wire: its count, then its offset.
pub open spec fn spec_entry_bytes(e: CttsEntry) -> Seq<u8> {
    spec_u32_bytes(e.sample_count) + spec_i32_bytes(e.sample_offset)
}

/// The bytes of the runs on the wire, one after the other.
pub open spec fn spec_entries_bytes(entries: Seq<CttsEntry>) -> Seq<u8>
    decreases entries.len(),
{
    if entries.len() == 0 {
        Seq::empty()
    } else {
        spec_entries_bytes(entries.drop_last()) + spec_entry_bytes(entries.last())
    }
}

impl CttsTable {
    /// The bytes of the whole box: header, version and flags, the number of
    /// runs, and eight bytes for each run.
    pub open spec fn spec_size(self) -> nat {
        (HEADER_SIZE + HEADER_EXT_SIZE + 4 + 8 * self.entries.len()) as nat
    }

    /// The header that the box is written with.
    pub open spec fn spec_header(self) -> BoxHeader {
        BoxHeader { name: BoxType::CttsBox, size: self.spec_size() as u64 }
    }

    /// What follows the header: version and flags, the number of runs in 32
    /// bits, and the runs.
    pub open spec fn spec_payload(self) -> Seq<u8> {
        spec_u32_bytes(spec_ext_word(self.version, self.flags) as u32) + spec_u32_bytes(
            (self.entries.len() % 0x1_0000_0000) as u32,
        ) + spec_entries_bytes(self.entries)
    }

    /// The whole box on the wire.
    pub open spec fn spec_wire(self) -> Seq<u8> {
        self.spec_header().spec_wire() + self.spec_payload()
    }
}

/// The run that `data` holds at `pos`.
pub open spec fn spec_entry_at(data: Seq<u8>, pos: int) -> CttsEntry {
    CttsEntry {
        sample_count: spec_u32_at(data, pos) as u32,
        sample_offset: spec_i32_at(data, pos + 4) as i32,
    }
}

/// What reading a table from `data` gives, where the cursor stands at `pos`,
/// behind the header of a box that declares `size` bytes: the table, and the
/// position of the cursor afterwards, which is the end that the box declares.
///
/// The bytes must hold the version and flags, the number of runs, and that
/// many runs. The declared size, which counts the header, must reach at least
/// to the end of the last run, and the bytes must reach to the declared end;
/// whatever lies between the last run and that end is passed over.
pub open spec fn spec_read_box(data: Seq<u8>, pos: int, size: u64) -> Result<
    (CttsTable, int),
    Error,
> {
    if !spec_available(data, pos, 8) {
        Err(Error::TruncatedStream)
    } else {
        let word = spec_u32_at(data, pos);
        let count = spec_u32_at(data, pos + 4);
        if !spec_available(data, pos + 8, 8 * (count as int)) {
            Err(Error::TruncatedStream)
        } else {
            match spec_skip(data.len(), (pos + 8 + 8 * count) as nat, pos - HEADER_SIZE + size) {
                Err(e) => Err(e),
                Ok(end) => Ok(
                    (
                        CttsTable {
                            version: spec_ext_version(word) as u8,
                            flags: spec_ext_flags(word) as u32,
                            entries: Seq::new(count, |i: int| spec_entry_at(data, pos + 8 + 8 * i)),
                        },
                        end as int,
                    ),
                ),
            }
        }
    }
}

/// The runs on the wire take eight bytes each.
pub proof fn lemma_entries_bytes_len(entries: Seq<CttsEntry>)
    ensures
        spec_entries_bytes(entries).len() == 8 * entries.len(),
    decreases entries.len(),
{
    if entries.len() > 0 {
        lemma_entries_bytes_len(entries.drop_last());
        lemma_u32_round_trip(entries.last().sample_count);
        lemma_i32_round_trip(entries.last().sample_offset);
    }
}

/// The box on the wire is as long as the size it declares.
pub proof fn lemma_wire_len(table: CttsTable)
    ensures
        table.spec_wire().len() == table.spec_size(),
{
    lemma_header_wire_len(table.spec_header());
    lemma_u32_round_trip(spec_ext_word(table.version, table.flags) as u32);
    lemma_u32_round_trip((table.entries.len() % 0x1_0000_0000) as u32);
    lemma_entries_bytes_len(table.entries);
}

impl CttsBox {
    /// The type of the box, which is the same for every table.
    pub fn get_type(&self) -> (t: BoxType)
        ensures
            t == BoxType::CttsBox,
    {
        BoxType::CttsBox
    }

    /// The number of bytes that `write_box` writes for this table, known
    /// before a byte is written.
    pub fn get_size(&self) -> (n: u64)
        requires
            self@.spec_size() <= u64::MAX,
        ensures
            n == self@.spec_size(),
    {
        HEADER_SIZE + HEADER_EXT_SIZE + 4 + (8 * self.entries.len() as u64)
    }
}

/// The line that sums a table of `n` runs up.
pub open spec fn spec_summary(n: nat) -> Seq<char> {
    "entries_count="@ + spec_decimal(n)
}

impl Mp4Box for CttsBox {
    open spec fn spec_box_type(&self) -> BoxType {
        BoxType::CttsBox
    }

    open spec fn spec_box_size(&self) -> nat {
        self@.spec_size()
    }

    open spec fn spec_box_wire(&self) -> Seq<u8> {
        self@.spec_wire()
    }

    proof fn lemma_box_wire_len(&self) {
        lemma_wire_len(self@);
    }

    fn box_type(&self) -> (t: BoxType) {
        self.get_type()
    }

    fn box_size(&self) -> (n: u64) {
        self.get_size()
    }

    /// The number of runs, as `entries_count=` and the number in decimal.
    fn summary(&self) -> (r: Result<String, Error>)
        ensures
            r matches Ok(s) && s@ == spec_summary(self@.entries.len()),
    {
        let mut s = String::from_str("entries_count=");
        push_decimal(&mut s, self.entries.len() as u64);
        Ok(s)
    }
}

impl ReadBox for CttsBox {
    /// Reads a table. The cursor stands behind the header of the box, and
    /// `size` is the size that the header declared, which counts the header:
    /// the box ends `size - HEADER_SIZE` bytes from the cursor. On success the
    /// cursor stands at that end; on failure it stays where it was.
    fn read_box(reader: &mut ByteReader, size: u64) -> (r: Result<CttsBox, Error>)
        ensures
            final(reader).bytes() == old(reader).bytes(),
            match r {
                Ok(b) => spec_read_box(old(reader).bytes(), old(reader).offset() as int, size)
                    == Ok::<(CttsTable, int), Error>((b@, final(reader).offset() as int)),
                Err(e) => {
                    &&& spec_read_box(old(reader).bytes(), old(reader).offset() as int, size)
                        == Err::<(CttsTable, int), Error>(e)
                    &&& final(reader).offset() == old(reader).offset()
                },
            },
    {
        let ghost data = reader.bytes();
        let ghost pos = reader.offset() as int;
        let mut cursor = *reader;
        let start = cursor.position();

        let (version, flags) = read_box_header_ext(&mut cursor)?;

        let entry_count = cursor.read_u32()?;
        // The count is held against the bytes at hand before room is made
        // for that many runs.
        if (cursor.remaining() as u64) / 8 < entry_count as u64 {
            return Err(Error::TruncatedStream);
        }
        let mut entries: Vec<CttsEntry> = Vec::with_capacity(entry_count as usize);
        let mut i: u32 = 0;
        while i < entry_count
            invariant
                i <= entry_count,
                spec_available(data, pos + 8, 8 * entry_count),
                cursor.bytes() == data,
                cursor.offset() == pos + 8 + 8 * i,
                entries@ == Seq::new(i as nat, |j: int| spec_entry_at(data, pos + 8 + 8 * j)),
            decreases entry_count - i,
        {
            let entry = CttsEntry {
                sample_count: cursor.read_u32()?,
                sample_offset: cursor.read_i32()?,
            };
            entries.push(entry);
            i += 1;
            assert(entries@ =~= Seq::new(i as nat, |j: int| spec_entry_at(data, pos + 8 + 8 * j)));
        }

        // The box began one header before `start` and ends `size` bytes on.
        if size < HEADER_SIZE {
            return Err(Error::SizeMismatch);
        }
        let end = match start.checked_add(size - HEADER_SIZE) {
            Some(end) => end,
            None => {
                return Err(Error::TruncatedStream);
            },
        };
        skip_bytes_to(&mut cursor, end)?;

        *reader = cursor;
        Ok(CttsBox { version, flags, entries })
    }
}

impl WriteBox for CttsBox {
    /// Appends the box to `writer` and returns the number of bytes written,
    /// which is the size that the box declares in its header. Flags that do
    /// not fit 24 bits are refused before anything is written.
    fn write_box(&self, writer: &mut Vec<u8>) -> (r: Result<u64, Error>)
        ensures
            match r {
                Ok(n) => {
                    &&& self.flags <= MAX_FLAGS
                    &&& n == self@.spec_size()
                    &&& final(writer)@ == old(writer)@ + self@.spec_wire()
                    &&& final(writer)@.len() == old(writer)@.len() + n
                },
                Err(e) => {
                    &&& self.flags > MAX_FLAGS
                    &&& e == Error::FlagsOverflow
                    &&& final(writer)@ == old(writer)@
                },
            },
    {
        if self.flags > MAX_FLAGS {
            return Err(Error::FlagsOverflow);
        }
        let size = self.box_size();
        BoxHeader::new(self.box_type(), size).write(writer)?;
        write_box_header_ext(writer, self.version, self.flags)?;
        write_u32(writer, (self.entries.len() as u64 % 0x1_0000_0000) as u32);
        let ghost fixed = writer@;
        let mut i: usize = 0;
        while i < self.entries.len()
            invariant
                i <= self.entries.len(),
                writer@ == fixed + spec_entries_bytes(self.entries@.take(i as int)),
            decreases self.entries.len() - i,
        {
            let entry = &self.entries[i];
            write_u32(writer, entry.sample_count);
            write_i32(writer, entry.sample_offset);
            proof {
                let done = self.entries@.take(i as int + 1);
                assert(done.drop_last() =~= self.entries@.take(i as int));
                assert(writer@ =~= fixed + spec_entries_bytes(done));
            }
            i += 1;
        }
        proof {
            assert(self.entries@.take(i as int) =~= self.entries@);
            assert(writer@ =~= old(writer)@ + self@.spec_wire());
            lemma_wire_len(self@);
        }
        Ok(size)
    }
}

} // verus!
