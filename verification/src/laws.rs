//! What holds of reading and writing together.

use crate::ctts::{
    lemma_entries_bytes_len, lemma_wire_len, spec_entries_bytes, spec_entry_at, spec_entry_bytes,
    spec_read_box, CttsEntry, CttsTable,
};
use crate::endian::{lemma_i32_round_trip, lemma_u32_round_trip, spec_i32_bytes, spec_u32_bytes};
use crate::error::Error;
use crate::header::{
    lemma_ext_word_round_trip, lemma_header_wire_len, spec_ext_word, spec_read_header, BoxHeader,
    EXTENDED_SIZE, HEADER_SIZE, MAX_FLAGS,
};
use crate::reader::{spec_i32_at, spec_u32_at};
use vstd::prelude::*;

verus! {

/// A part of a part of `data` is a part of `data`.
proof fn lemma_part(data: Seq<u8>, pos: int, whole: Seq<u8>, at: int, part: Seq<u8>)
    requires
        0 <= pos,
        pos + whole.len() <= data.len(),
        data.subrange(pos, pos + whole.len()) == whole,
        0 <= at,
        at + part.len() <= whole.len(),
        whole.subrange(at, at + part.len()) == part,
    ensures
        data.subrange(pos + at, pos + at + part.len()) == part,
{
    let found = data.subrange(pos + at, pos + at + part.len());
    assert forall|k: int| 0 <= k < part.len() implies found[k] == part[k] by {
        assert(data.subrange(pos, pos + whole.len())[at + k] == data[pos + at + k]);
        assert(whole.subrange(at, at + part.len())[k] == whole[at + k]);
    }
    assert(found =~= part);
}

/// The two halves of a concatenation lie in it one behind the other.
proof fn lemma_halves(a: Seq<u8>, b: Seq<u8>)
    ensures
        (a + b).subrange(0, a.len() as int) == a,
        (a + b).subrange(a.len() as int, (a.len() + b.len()) as int) == b,
{
    assert((a + b).subrange(0, a.len() as int) =~= a);
    assert((a + b).subrange(a.len() as int, (a.len() + b.len()) as int) =~= b);
}

/// Where `data` holds the bytes of `n`, it holds `n`.
proof fn lemma_u32_found(data: Seq<u8>, pos: int, n: u32)
    requires
        0 <= pos,
        pos + 4 <= data.len(),
        data.subrange(pos, pos + 4) == spec_u32_bytes(n),
    ensures
        spec_u32_at(data, pos) == n,
{
    lemma_u32_round_trip(n);
}

/// Where `data` holds the bytes of `n`, it holds `n`.
proof fn lemma_i32_found(data: Seq<u8>, pos: int, n: i32)
    requires
        0 <= pos,
        pos + 4 <= data.len(),
        data.subrange(pos, pos + 4) == spec_i32_bytes(n),
    ensures
        spec_i32_at(data, pos) == n,
{
    lemma_i32_round_trip(n);
}

/// Run `i` stands at byte `8 * i` of the runs on the wire.
proof fn lemma_entry_bytes_found(entries: Seq<CttsEntry>, i: int)
    requires
        0 <= i < entries.len(),
    ensures
        spec_entries_bytes(entries).len() == 8 * entries.len(),
        spec_entries_bytes(entries).subrange(8 * i, 8 * i + 8) == spec_entry_bytes(entries[i]),
    decreases entries.len(),
{
    let all = spec_entries_bytes(entries);
    let front = spec_entries_bytes(entries.drop_last());
    lemma_entries_bytes_len(entries);
    lemma_entries_bytes_len(entries.drop_last());
    assert(all == front + spec_entry_bytes(entries.last()));
    if i == entries.len() - 1 {
        assert(all.subrange(8 * i, 8 * i + 8) =~= spec_entry_bytes(entries[i]));
    } else {
        lemma_entry_bytes_found(entries.drop_last(), i);
        assert(all.subrange(8 * i, 8 * i + 8) =~= front.subrange(8 * i, 8 * i + 8));
    }
}

/// Where `data` holds the runs on the wire, it holds each run.
proof fn lemma_entry_found(data: Seq<u8>, pos: int, entries: Seq<CttsEntry>, i: int)
    requires
        0 <= pos,
        pos + 8 * entries.len() <= data.len(),
        data.subrange(pos, pos + 8 * entries.len()) == spec_entries_bytes(entries),
        0 <= i < entries.len(),
    ensures
        spec_entry_at(data, pos + 8 * i) == entries[i],
{
    let e = entries[i];
    let all = spec_entries_bytes(entries);
    lemma_entry_bytes_found(entries, i);
    lemma_u32_round_trip(e.sample_count);
    lemma_i32_round_trip(e.sample_offset);
    assert(all.subrange(8 * i, 8 * i + 4) =~= spec_u32_bytes(e.sample_count)) by {
        assert(all.subrange(8 * i, 8 * i + 4) =~= all.subrange(8 * i, 8 * i + 8).subrange(0, 4));
    }
    assert(all.subrange(8 * i + 4, 8 * i + 8) =~= spec_i32_bytes(e.sample_offset)) by {
        assert(all.subrange(8 * i + 4, 8 * i + 8) =~= all.subrange(8 * i, 8 * i + 8).subrange(
            4,
            8,
        ));
    }
    lemma_part(data, pos, all, 8 * i, spec_u32_bytes(e.sample_count));
    lemma_part(data, pos, all, 8 * i + 4, spec_i32_bytes(e.sample_offset));
    lemma_u32_found(data, pos + 8 * i, e.sample_count);
    lemma_i32_found(data, pos + 8 * i + 4, e.sample_offset);
}

/// Where `data` holds the payload of `table`, it holds the word of its
/// version and flags, the number of its runs, and behind them the runs.
proof fn lemma_payload_found(table: CttsTable, data: Seq<u8>, pos: int)
    requires
        spec_ext_word(table.version, table.flags) <= u32::MAX,
        table.entries.len() <= u32::MAX,
        0 <= pos,
        pos + table.spec_payload().len() <= data.len(),
        data.subrange(pos, pos + table.spec_payload().len()) == table.spec_payload(),
    ensures
        table.spec_payload().len() == 8 + 8 * table.entries.len(),
        spec_u32_at(data, pos) == spec_ext_word(table.version, table.flags),
        spec_u32_at(data, pos + 4) == table.entries.len(),
        data.subrange(pos + 8, pos + 8 + 8 * table.entries.len()) == spec_entries_bytes(
            table.entries,
        ),
{
    let word = spec_ext_word(table.version, table.flags) as u32;
    let count = table.entries.len() as u32;
    let a = spec_u32_bytes(word);
    let b = spec_u32_bytes(count);
    let runs = spec_entries_bytes(table.entries);
    lemma_entries_bytes_len(table.entries);
    lemma_u32_round_trip(word);
    lemma_u32_round_trip(count);
    assert(table.spec_payload() == a + b + runs);
    lemma_halves(a + b, runs);
    lemma_halves(a, b);
    lemma_part(data, pos, a + b + runs, 0, a + b);
    lemma_part(data, pos, a + b + runs, 8, runs);
    lemma_part(data, pos, a + b, 0, a);
    lemma_part(data, pos, a + b, 4, b);
    lemma_u32_found(data, pos, word);
    lemma_u32_found(data, pos + 4, count);
}

/// Where `data` holds the runs on the wire, reading them one by one gives
/// the runs in their order.
proof fn lemma_entries_found(data: Seq<u8>, pos: int, entries: Seq<CttsEntry>)
    requires
        0 <= pos,
        pos + 8 * entries.len() <= data.len(),
        data.subrange(pos, pos + 8 * entries.len()) == spec_entries_bytes(entries),
    ensures
        Seq::new(entries.len(), |i: int| spec_entry_at(data, pos + 8 * i)) == entries,
{
    let read = Seq::new(entries.len(), |i: int| spec_entry_at(data, pos + 8 * i));
    assert forall|i: int| 0 <= i < entries.len() implies read[i] == entries[i] by {
        lemma_entry_found(data, pos, entries, i);
    }
    assert(read =~= entries);
}

/// A header that was written is the header that is read: wherever `data`
/// holds the eight bytes of `header`, reading there gives `header` and ends
/// behind them.
///
/// This is stated of the headers that eight bytes can hold: the size fits 32
/// bits and is not the value that announces a 64-bit size, and the type is
/// not an `UnknownBox` with the characters of a known one.
pub proof fn lemma_header_round_trip(header: BoxHeader, data: Seq<u8>, pos: int)
    requires
        header.size <= u32::MAX,
        header.size != EXTENDED_SIZE,
        header.name.spec_canonical(),
        0 <= pos,
        pos + 8 <= data.len(),
        data.subrange(pos, pos + 8) == header.spec_wire(),
    ensures
        spec_read_header(data, pos) == Ok::<(BoxHeader, int), Error>((header, pos + HEADER_SIZE)),
{
    let size = header.size as u32;
    let code = header.name.spec_code();
    let a = spec_u32_bytes(size);
    let b = spec_u32_bytes(code);
    lemma_u32_round_trip(size);
    lemma_u32_round_trip(code);
    assert(header.spec_wire() == a + b);
    lemma_halves(a, b);
    lemma_part(data, pos, a + b, 0, a);
    lemma_part(data, pos, a + b, 4, b);
    lemma_u32_found(data, pos, size);
    lemma_u32_found(data, pos + 4, code);
}

/// Bytes that a box does not account for are passed over: where `data` holds
/// the payload of `table` behind a header that declares `size` bytes, and
/// `size` is the size of the table or more, and the bytes reach to the end
/// declared, reading gives `table`, whatever lies between the last run and
/// that end, and leaves the cursor at that end. So a box that declares
/// more than its runs need reads as the box of the same runs that declares
/// no more than they need.
///
/// This is stated of the tables whose payload can be written: the flags fit
/// 24 bits and the number of runs fits 32.
pub proof fn lemma_padding_is_skipped(table: CttsTable, data: Seq<u8>, pos: int, size: u64)
    requires
        table.flags <= MAX_FLAGS,
        table.entries.len() <= u32::MAX,
        0 <= pos,
        pos + table.spec_payload().len() <= data.len(),
        data.subrange(pos, pos + table.spec_payload().len()) == table.spec_payload(),
        table.spec_size() <= size,
        pos - HEADER_SIZE + size <= data.len(),
    ensures
        spec_read_box(data, pos, size) == Ok::<(CttsTable, int), Error>(
            (table, pos - HEADER_SIZE + size),
        ),
{
    lemma_ext_word_round_trip(table.version, table.flags);
    lemma_payload_found(table, data, pos);
    lemma_entries_found(data, pos + 8, table.entries);
}

/// A table that is written and read back is the table that was written, with
/// its version, its flags and its runs in their order: wherever `data` holds
/// the bytes that `table` is written as, reading a header there gives the
/// header of the table, and reading a table behind that header, with the size
/// that the header declares, gives `table` and ends where the box ends.
///
/// This is stated of the tables that can be written and whose size the
/// 32 bits of the header hold.
pub proof fn lemma_round_trip(table: CttsTable, data: Seq<u8>, pos: int)
    requires
        table.flags <= MAX_FLAGS,
        table.spec_size() <= u32::MAX,
        0 <= pos,
        pos + table.spec_wire().len() <= data.len(),
        data.subrange(pos, pos + table.spec_wire().len()) == table.spec_wire(),
    ensures
        spec_read_header(data, pos) == Ok::<(BoxHeader, int), Error>(
            (table.spec_header(), pos + HEADER_SIZE),
        ),
        spec_read_box(data, pos + HEADER_SIZE, table.spec_size() as u64) == Ok::<
            (CttsTable, int),
            Error,
        >((table, pos + table.spec_size())),
{
    let header = table.spec_header();
    let payload = table.spec_payload();
    lemma_header_wire_len(header);
    lemma_wire_len(table);
    lemma_halves(header.spec_wire(), payload);
    lemma_part(data, pos, header.spec_wire() + payload, 0, header.spec_wire());
    lemma_part(data, pos, header.spec_wire() + payload, 8, payload);
    lemma_header_round_trip(header, data, pos);
    lemma_padding_is_skipped(table, data, pos + 8, table.spec_size() as u64);
}

/// Bytes that end before the end that a box declares are refused as
/// truncated, and no table comes out of them, whatever they hold and
/// whatever size is declared.
pub proof fn lemma_truncation_is_detected(data: Seq<u8>, pos: int, size: u64)
    requires
        data.len() < pos - HEADER_SIZE + size,
    ensures
        spec_read_box(data, pos, size) == Err::<(CttsTable, int), Error>(Error::TruncatedStream),
{
}

/// A written table that is cut short anywhere before its end is refused as
/// truncated: of the first `cut` bytes that `table` is written as, either
/// the header cannot be read, or the header is read as it was written and
/// the table behind it cannot.
///
/// This is stated of the tables that can be written and whose size the
/// 32 bits of the header hold.
pub proof fn lemma_cut_box_is_refused(table: CttsTable, cut: int)
    requires
        table.flags <= MAX_FLAGS,
        table.spec_size() <= u32::MAX,
        0 <= cut < table.spec_size(),
    ensures
        ({
            let data = table.spec_wire().take(cut);
            if cut < HEADER_SIZE {
                spec_read_header(data, 0) == Err::<(BoxHeader, int), Error>(Error::TruncatedStream)
            } else {
                &&& spec_read_header(data, 0) == Ok::<(BoxHeader, int), Error>(
                    (table.spec_header(), HEADER_SIZE as int),
                )
                &&& spec_read_box(data, HEADER_SIZE as int, table.spec_size() as u64) == Err::<
                    (CttsTable, int),
                    Error,
                >(Error::TruncatedStream)
            }
        }),
{
    let header = table.spec_header();
    let data = table.spec_wire().take(cut);
    lemma_wire_len(table);
    lemma_header_wire_len(header);
    if cut >= HEADER_SIZE {
        lemma_halves(header.spec_wire(), table.spec_payload());
        assert(data.subrange(0, 8) =~= table.spec_wire().subrange(0, 8));
        lemma_header_round_trip(header, data, 0);
        lemma_truncation_is_detected(data, 8, table.spec_size() as u64);
    }
}

} // verus!
