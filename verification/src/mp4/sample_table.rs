//! Sample tables.

use vstd::prelude::*;

use super::boxes::{
    first_found, first_of, found_boxes, payload_cursor, payload_reader, single, sort_children,
    sorted_children, three_slots, BoxHeader, FileView, Mp4File, Slot,
};
use super::error::{first_error, lemma_first_error, meets_view, Mp4Error, Result};
use super::reader::{reads, reads_view, BoundedReader, ByteCursor};
use crate::input::MediaInput;
use crate::shared::filled;

verus! {

pub const STTS: u32 = 0x7374_7473;

pub const CTTS: u32 = 0x6374_7473;

pub const STSC: u32 = 0x7374_7363;

pub const STSZ: u32 = 0x7374_737a;

pub const STZ2: u32 = 0x7374_7a32;

pub const STCO: u32 = 0x7374_636f;

pub const CO64: u32 = 0x636f_3634;

pub const STSS: u32 = 0x7374_7373;

pub const MAX_SAMPLE_COUNT: usize = 2_000_000;

pub const MAX_TABLE_ENTRY_COUNT: usize = 2_000_000;

/// One compressed sample located and timed by an MP4 sample table.
#[derive(Debug, Clone, Copy, PartialEq, Eq, Structural)]
pub struct Sample {
    pub offset: u64,
    pub size: u32,
    pub decode_time: i64,
    pub presentation_time: i64,
    pub duration: u32,
    pub description_index: usize,
    pub sync: bool,
}

impl Sample {
    #[inline]
    pub fn offset(self) -> (offset: u64)
        ensures
            offset == self.offset,
    {
        self.offset
    }

    #[inline]
    pub fn size(self) -> (size: u32)
        ensures
            size == self.size,
    {
        self.size
    }

    #[inline]
    pub fn decode_time(self) -> (time: i64)
        ensures
            time == self.decode_time,
    {
        self.decode_time
    }

    #[inline]
    pub fn presentation_time(self) -> (time: i64)
        ensures
            time == self.presentation_time,
    {
        self.presentation_time
    }

    #[inline]
    pub fn duration(self) -> (duration: u32)
        ensures
            duration == self.duration,
    {
        self.duration
    }

    /// Zero-based index into the track's sample-description list.
    #[inline]
    pub fn description_index(self) -> (index: usize)
        ensures
            index == self.description_index,
    {
        self.description_index
    }

    #[inline]
    pub fn is_sync(self) -> (sync: bool)
        ensures
            sync == self.sync,
    {
        self.sync
    }
}

/// A number of samples that share a value.
#[derive(Debug, Clone, Copy)]
pub struct Run {
    pub count: u32,
    pub value: i64,
}

/// The chunks from one on that hold as many samples each.
#[derive(Debug, Clone, Copy)]
pub struct SampleToChunkEntry {
    pub first_chunk: u32,
    pub samples_per_chunk: u32,
    pub description_index: u32,
}

/// How wide a number is.
#[derive(Debug, Clone, Copy)]
pub enum Field {
    One,
    Two,
    Four,
    Eight,
}

/// A number of a width.
pub open spec fn number(cursor: ByteCursor, field: Field) -> (u64, ByteCursor) {
    match field {
        Field::One => (cursor.u8().0 as u64, cursor.u8().1),
        Field::Two => (cursor.u16().0 as u64, cursor.u16().1),
        Field::Four => (cursor.u32().0 as u64, cursor.u32().1),
        Field::Eight => cursor.u64(),
    }
}

/// The numbers from the cursor on.
pub open spec fn numbers(
    cursor: ByteCursor,
    field: Field,
    remaining: int,
    values: Seq<u64>,
) -> (Seq<u64>, ByteCursor)
    decreases remaining,
{
    if cursor.error is Some || remaining <= 0 {
        (values, cursor)
    } else {
        let (value, cursor) = number(cursor, field);
        numbers(cursor, field, remaining - 1, values.push(value))
    }
}

/// The 4-bit numbers from the cursor on, two to a byte.
pub open spec fn nibbles(cursor: ByteCursor, remaining: int, values: Seq<u64>) -> (
    Seq<u64>,
    ByteCursor,
)
    decreases remaining,
{
    if cursor.error is Some || remaining <= 0 {
        (values, cursor)
    } else {
        let (packed, cursor) = cursor.u8();
        let high = values.push((packed / 16) as u64);
        if remaining == 1 {
            nibbles(cursor, 0, high)
        } else {
            nibbles(cursor, remaining - 2, high.push((packed % 16) as u64))
        }
    }
}

/// A full box whose version and flags must be zero.
pub open spec fn plain_full_box(cursor: ByteCursor, message: &'static str) -> ByteCursor {
    let ((version, flags), cursor) = cursor.full_box();
    cursor.require(version == 0 && flags == 0, Mp4Error::InvalidData(message))
}

/// A number of entries that has a limit.
pub open spec fn limited_count(cursor: ByteCursor, limit: int, message: &'static str) -> (
    u32,
    ByteCursor,
) {
    let (count, cursor) = cursor.u32();
    (count, cursor.require(count <= limit, Mp4Error::InvalidData(message)))
}

/// The sizes of samples.
pub open spec fn plain_sizes(cursor: ByteCursor) -> (Seq<u64>, ByteCursor) {
    let cursor = plain_full_box(cursor, "unsupported stsz version or flags");
    let (default_size, cursor) = cursor.u32();
    let (count, cursor) = limited_count(
        cursor,
        MAX_SAMPLE_COUNT as int,
        "sample count exceeds its limit",
    );
    let (listed, behind) = numbers(cursor, Field::Four, count as int, Seq::empty());
    if default_size == 0 {
        (listed, behind.finished("stsz has trailing bytes"))
    } else {
        (
            Seq::new(count as nat, |i: int| default_size as u64),
            cursor.finished("stsz has trailing bytes"),
        )
    }
}

/// The sizes of samples in fields of 4, 8 or 16 bits.
pub open spec fn compact_sizes(cursor: ByteCursor) -> (Seq<u64>, ByteCursor) {
    let cursor = plain_full_box(cursor, "unsupported stz2 version or flags");
    let (reserved, cursor) = cursor.u24();
    let cursor = cursor.require(
        reserved == 0,
        Mp4Error::InvalidData("stz2 reserved bits are not zero"),
    );
    let (field_size, cursor) = cursor.u8();
    let cursor = cursor.require(
        field_size == 4 || field_size == 8 || field_size == 16,
        Mp4Error::InvalidData("stz2 field size is not 4, 8, or 16 bits"),
    );
    let (count, cursor) = limited_count(
        cursor,
        MAX_SAMPLE_COUNT as int,
        "sample count exceeds its limit",
    );
    let (sizes, cursor) = if field_size == 4 {
        nibbles(cursor, count as int, Seq::empty())
    } else if field_size == 8 {
        numbers(cursor, Field::One, count as int, Seq::empty())
    } else {
        numbers(cursor, Field::Two, count as int, Seq::empty())
    };
    (sizes, cursor.finished("stz2 has trailing bytes"))
}

/// The sizes of the samples of a size box.
pub open spec fn sizes_of(file: FileView, header: BoxHeader) -> Result<Seq<u64>> {
    let cursor = payload_cursor(file, header);
    let (sizes, cursor) = if header.kind.code == STZ2 {
        compact_sizes(cursor)
    } else {
        plain_sizes(cursor)
    };
    cursor.outcome(sizes)
}

/// Whether the value of a run is a signed number.
pub open spec fn run_syntax(cursor: ByteCursor, signed: bool, empty: &'static str) -> (
    Run,
    ByteCursor,
) {
    let (count, cursor) = cursor.u32();
    let cursor = cursor.require(count != 0, Mp4Error::InvalidData(empty));
    if signed {
        let (value, cursor) = cursor.i32();
        (Run { count, value: value as i64 }, cursor)
    } else {
        let (value, cursor) = cursor.u32();
        (Run { count, value: value as i64 }, cursor)
    }
}

/// The runs from the cursor on.
pub open spec fn runs_syntax(
    cursor: ByteCursor,
    signed: bool,
    empty: &'static str,
    remaining: int,
    runs: Seq<Run>,
) -> (Seq<Run>, ByteCursor)
    decreases remaining,
{
    if cursor.error is Some || remaining <= 0 {
        (runs, cursor)
    } else {
        let (run, cursor) = run_syntax(cursor, signed, empty);
        runs_syntax(cursor, signed, empty, remaining - 1, runs.push(run))
    }
}

/// How many samples runs describe.
pub open spec fn run_total(runs: Seq<Run>) -> int
    decreases runs.len(),
{
    if runs.len() == 0 {
        0
    } else {
        run_total(runs.drop_last()) + runs.last().count
    }
}

/// The value of each sample that runs describe.
pub open spec fn expanded(runs: Seq<Run>) -> Seq<i64>
    decreases runs.len(),
{
    if runs.len() == 0 {
        Seq::empty()
    } else {
        expanded(runs.drop_last()) + Seq::new(
            runs.last().count as nat,
            |i: int| runs.last().value,
        )
    }
}

/// The durations of samples.
pub open spec fn durations_syntax(cursor: ByteCursor, sample_count: int) -> (Seq<Run>, ByteCursor) {
    let cursor = plain_full_box(cursor, "unsupported stts version or flags");
    let (count, cursor) = limited_count(
        cursor,
        MAX_TABLE_ENTRY_COUNT as int,
        "stts entry count exceeds its limit",
    );
    let (runs, cursor) = runs_syntax(
        cursor,
        false,
        "stts entry has zero samples",
        count as int,
        Seq::empty(),
    );
    (
        runs,
        cursor.finished("stts has trailing bytes").require(
            run_total(runs) == sample_count,
            Mp4Error::InvalidData("stts sample count does not match stsz"),
        ),
    )
}

/// The offsets from decode to presentation times of samples.
pub open spec fn compositions_syntax(cursor: ByteCursor, sample_count: int) -> (
    Seq<Run>,
    ByteCursor,
) {
    let ((version, flags), cursor) = cursor.full_box();
    let cursor = cursor.require(
        flags == 0 && version <= 1,
        Mp4Error::InvalidData("unsupported ctts version or flags"),
    );
    let (count, cursor) = limited_count(
        cursor,
        MAX_TABLE_ENTRY_COUNT as int,
        "ctts entry count exceeds its limit",
    );
    let (runs, cursor) = runs_syntax(
        cursor,
        version == 1,
        "ctts entry has zero samples",
        count as int,
        Seq::empty(),
    );
    (
        runs,
        cursor.finished("ctts has trailing bytes").require(
            run_total(runs) == sample_count,
            Mp4Error::InvalidData("ctts sample count does not match stsz"),
        ),
    )
}

/// The duration of each sample.
pub open spec fn durations_of(file: FileView, header: BoxHeader, sample_count: int) -> Result<
    Seq<i64>,
> {
    let (runs, cursor) = durations_syntax(payload_cursor(file, header), sample_count);
    cursor.outcome(expanded(runs))
}

/// The composition offset of each sample, zero where there is no table.
pub open spec fn compositions_of(
    file: FileView,
    header: Option<BoxHeader>,
    sample_count: int,
) -> Result<Seq<i64>> {
    match header {
        None => Ok(Seq::new(sample_count as nat, |i: int| 0i64)),
        Some(header) => {
            let (runs, cursor) = compositions_syntax(payload_cursor(file, header), sample_count);
            cursor.outcome(expanded(runs))
        },
    }
}

/// The chunks from one on.
pub open spec fn chunk_entry_syntax(
    cursor: ByteCursor,
    description_count: int,
    entries: Seq<SampleToChunkEntry>,
) -> (SampleToChunkEntry, ByteCursor) {
    let (first_chunk, cursor) = cursor.u32();
    let (samples_per_chunk, cursor) = cursor.u32();
    let (description_index, cursor) = cursor.u32();
    let cursor = cursor.require(
        if entries.len() == 0 {
            first_chunk == 1
        } else {
            first_chunk > entries.last().first_chunk
        },
        Mp4Error::InvalidData("stsc first_chunk values are not strictly increasing from one"),
    ).require(
        samples_per_chunk != 0,
        Mp4Error::InvalidData("stsc entry has zero samples"),
    ).require(
        1 <= description_index <= description_count,
        Mp4Error::InvalidData("stsc sample-description index is out of range"),
    );
    (SampleToChunkEntry { first_chunk, samples_per_chunk, description_index }, cursor)
}

/// The entries from the cursor on.
pub open spec fn chunk_entries_syntax(
    cursor: ByteCursor,
    description_count: int,
    remaining: int,
    entries: Seq<SampleToChunkEntry>,
) -> (Seq<SampleToChunkEntry>, ByteCursor)
    decreases remaining,
{
    if cursor.error is Some || remaining <= 0 {
        (entries, cursor)
    } else {
        let (entry, cursor) = chunk_entry_syntax(cursor, description_count, entries);
        chunk_entries_syntax(cursor, description_count, remaining - 1, entries.push(entry))
    }
}

/// How samples are spread over chunks.
pub open spec fn chunk_map_syntax(cursor: ByteCursor, description_count: int) -> (
    Seq<SampleToChunkEntry>,
    ByteCursor,
) {
    let cursor = plain_full_box(cursor, "unsupported stsc version or flags");
    let (count, cursor) = limited_count(
        cursor,
        MAX_TABLE_ENTRY_COUNT as int,
        "stsc entry count exceeds its limit",
    );
    let (entries, cursor) = chunk_entries_syntax(
        cursor,
        description_count,
        count as int,
        Seq::empty(),
    );
    (entries, cursor.finished("stsc has trailing bytes"))
}

/// How samples are spread over chunks.
pub open spec fn chunk_map_of(file: FileView, header: BoxHeader, description_count: int) -> Result<
    Seq<SampleToChunkEntry>,
> {
    let (entries, cursor) = chunk_map_syntax(payload_cursor(file, header), description_count);
    cursor.outcome(entries)
}

/// The offsets of chunks.
pub open spec fn chunk_offsets_syntax(cursor: ByteCursor, field: Field) -> (
    Seq<u64>,
    ByteCursor,
) {
    let cursor = plain_full_box(cursor, "unsupported chunk-offset version or flags");
    let (count, cursor) = limited_count(
        cursor,
        MAX_TABLE_ENTRY_COUNT as int,
        "chunk count exceeds its limit",
    );
    let (offsets, cursor) = numbers(cursor, field, count as int, Seq::empty());
    (offsets, cursor.finished("chunk-offset box has trailing bytes"))
}

/// The offsets of chunks.
pub open spec fn chunk_offsets_of(file: FileView, header: BoxHeader) -> Result<Seq<u64>> {
    let (offsets, cursor) = chunk_offsets_syntax(
        payload_cursor(file, header),
        if header.kind.code == STCO {
            Field::Four
        } else {
            Field::Eight
        },
    );
    cursor.outcome(offsets)
}

/// The numbers of sync samples from the cursor on, counted from one.
pub open spec fn sync_numbers_syntax(
    cursor: ByteCursor,
    sample_count: int,
    remaining: int,
    values: Seq<u64>,
) -> (Seq<u64>, ByteCursor)
    decreases remaining,
{
    if cursor.error is Some || remaining <= 0 {
        (values, cursor)
    } else {
        let (value, cursor) = cursor.u32();
        let previous = if values.len() == 0 {
            0
        } else {
            values.last()
        };
        let cursor = cursor.require(
            previous < value <= sample_count,
            Mp4Error::InvalidData("stss sample numbers are not strictly increasing and in range"),
        );
        sync_numbers_syntax(cursor, sample_count, remaining - 1, values.push(value as u64))
    }
}

/// The numbers of sync samples.
pub open spec fn sync_syntax(cursor: ByteCursor, sample_count: int) -> (Seq<u64>, ByteCursor) {
    let cursor = plain_full_box(cursor, "unsupported stss version or flags");
    let (count, cursor) = limited_count(
        cursor,
        sample_count,
        "sync-sample count exceeds the sample count",
    );
    let (values, cursor) = sync_numbers_syntax(cursor, sample_count, count as int, Seq::empty());
    (values, cursor.finished("stss has trailing bytes"))
}

/// Which samples are sync samples: all of them, where there is no table.
pub open spec fn sync_of(file: FileView, header: Option<BoxHeader>, sample_count: int) -> Result<
    Seq<bool>,
> {
    match header {
        None => Ok(Seq::new(sample_count as nat, |i: int| true)),
        Some(header) => {
            let (values, cursor) = sync_syntax(payload_cursor(file, header), sample_count);
            cursor.outcome(
                Seq::new(sample_count as nat, |i: int| values.contains((i + 1) as u64)),
            )
        },
    }
}

/// When a sample is decoded: after all before it.
pub open spec fn decode_time_at(durations: Seq<i64>, index: int) -> int
    decreases index,
{
    if index <= 0 {
        0
    } else {
        decode_time_at(durations, index - 1) + durations[index - 1]
    }
}

/// Why a sample has no times.
pub open spec fn time_error(
    durations: Seq<i64>,
    compositions: Seq<i64>,
    index: int,
) -> Option<Mp4Error> {
    let decode_time = decode_time_at(durations, index);
    if !(i64::MIN <= decode_time <= i64::MAX) {
        Some(Mp4Error::InvalidData("sample DTS exceeds i64"))
    } else if !(i64::MIN <= decode_time + compositions[index] <= i64::MAX) {
        Some(Mp4Error::InvalidData("sample PTS exceeds i64"))
    } else {
        None
    }
}

/// Why one of the samples has no times.
pub open spec fn time_errors(durations: Seq<i64>, compositions: Seq<i64>) -> spec_fn(
    int,
) -> Option<Mp4Error> {
    |index: int| time_error(durations, compositions, index)
}

/// The entry of a chunk: the last one that starts no later.
pub open spec fn entry_for(entries: Seq<SampleToChunkEntry>, chunk: int, count: int) -> int
    decreases count,
{
    if count <= 1 || entries[count - 1].first_chunk <= chunk {
        count - 1
    } else {
        entry_for(entries, chunk, count - 1)
    }
}

/// Where samples lie and which description they have, and the error of one
/// that has no place.
pub struct Placement {
    pub places: Seq<(u64, usize)>,
    pub error: Option<Mp4Error>,
}

/// The places of `remaining` more samples that follow each other from `offset`
/// on.
pub open spec fn placed_in_chunk(
    sizes: Seq<u64>,
    file_length: int,
    description: usize,
    offset: int,
    remaining: int,
    places: Seq<(u64, usize)>,
) -> Placement
    decreases remaining,
{
    let end = offset + sizes[places.len() as int];
    if remaining <= 0 {
        Placement { places, error: None }
    } else if places.len() >= sizes.len() {
        Placement {
            places,
            error: Some(
                Mp4Error::InvalidData("chunk table describes more samples than stsz"),
            ),
        }
    } else if end > u64::MAX {
        Placement { places, error: Some(Mp4Error::IntegerOverflow) }
    } else if end > file_length {
        Placement {
            places,
            error: Some(Mp4Error::InvalidData("sample data exceeds the input")),
        }
    } else {
        placed_in_chunk(
            sizes,
            file_length,
            description,
            end,
            remaining - 1,
            places.push((offset as u64, description)),
        )
    }
}

/// The places of the samples of the chunks from `chunk` on.
pub open spec fn placed_from(
    sizes: Seq<u64>,
    entries: Seq<SampleToChunkEntry>,
    chunks: Seq<u64>,
    file_length: int,
    chunk: int,
    places: Seq<(u64, usize)>,
) -> Placement
    decreases chunks.len() - chunk,
{
    if chunk >= chunks.len() {
        Placement { places, error: None }
    } else if entries.len() == 0 {
        Placement {
            places,
            error: Some(Mp4Error::InvalidData("stsc does not describe a chunk")),
        }
    } else {
        let entry = entries[entry_for(entries, chunk + 1, entries.len() as int)];
        let after = placed_in_chunk(
            sizes,
            file_length,
            (entry.description_index - 1) as usize,
            chunks[chunk] as int,
            entry.samples_per_chunk as int,
            places,
        );
        if after.error is Some {
            after
        } else {
            placed_from(sizes, entries, chunks, file_length, chunk + 1, after.places)
        }
    }
}

/// The places of all samples.
pub open spec fn placed(
    sizes: Seq<u64>,
    entries: Seq<SampleToChunkEntry>,
    chunks: Seq<u64>,
    file_length: int,
) -> Result<Seq<(u64, usize)>> {
    let placement = placed_from(sizes, entries, chunks, file_length, 0, Seq::empty());
    if sizes.len() == 0 {
        if entries.len() == 0 && chunks.len() == 0 {
            Ok(Seq::empty())
        } else {
            Err(Mp4Error::InvalidData("chunk table describes samples absent from stsz"))
        }
    } else if chunks.len() == 0 {
        Err(Mp4Error::InvalidData("non-empty track has no chunks"))
    } else if entries.len() > 0 && entries.last().first_chunk > chunks.len() {
        Err(Mp4Error::InvalidData("stsc first_chunk exceeds the chunk count"))
    } else if let Some(error) = placement.error {
        Err(error)
    } else if placement.places.len() != sizes.len() {
        Err(Mp4Error::InvalidData("chunk table describes fewer samples than stsz"))
    } else {
        Ok(placement.places)
    }
}

/// The samples with their sizes, times and places.
pub open spec fn assembled(
    sizes: Seq<u64>,
    durations: Seq<i64>,
    compositions: Seq<i64>,
    sync: Seq<bool>,
    places: Seq<(u64, usize)>,
) -> Seq<Sample> {
    Seq::new(
        sizes.len(),
        |i: int|
            Sample {
                offset: places[i].0,
                size: sizes[i] as u32,
                decode_time: decode_time_at(durations, i) as i64,
                presentation_time: (decode_time_at(durations, i) + compositions[i]) as i64,
                duration: durations[i] as u32,
                description_index: places[i].1,
                sync: sync[i],
            },
    )
}

/// The places of the boxes of a sample table.
pub open spec fn table_slots() -> Seq<Slot> {
    seq![
        single(STTS, "duplicate stts box"),
        single(CTTS, "duplicate ctts box"),
        single(STSC, "duplicate stsc box"),
        Slot { first: STSZ, second: STZ2, limit: 1, message: "multiple sample-size boxes" },
        Slot { first: STCO, second: CO64, limit: 1, message: "multiple chunk-offset boxes" },
        single(STSS, "duplicate stss box"),
    ]
}

/// The samples of the tables that were found.
#[verifier::opaque]
pub open spec fn samples_from(
    file: FileView,
    found: Seq<Seq<BoxHeader>>,
    description_count: int,
) -> Result<Seq<Sample>> {
    match first_of(found[3]) {
        None => Err(Mp4Error::InvalidData("sample table has no sample-size box")),
        Some(size_box) => match sizes_of(file, size_box) {
            Err(error) => Err(error),
            Ok(sizes) => samples_of_sizes(file, found, description_count, sizes),
        },
    }
}

/// The samples of the other tables, with sizes.
pub open spec fn samples_of_sizes(
    file: FileView,
    found: Seq<Seq<BoxHeader>>,
    description_count: int,
    sizes: Seq<u64>,
) -> Result<Seq<Sample>> {
    let count = sizes.len() as int;
    match first_of(found[0]) {
        None => Err(Mp4Error::InvalidData("sample table has no stts box")),
        Some(time_box) => match durations_of(file, time_box, count) {
            Err(error) => Err(error),
            Ok(durations) => match compositions_of(file, first_of(found[1]), count) {
                Err(error) => Err(error),
                Ok(compositions) => samples_of_times(
                    file,
                    found,
                    description_count,
                    sizes,
                    durations,
                    compositions,
                ),
            },
        },
    }
}

/// The samples of the remaining tables, with sizes and times.
pub open spec fn samples_of_times(
    file: FileView,
    found: Seq<Seq<BoxHeader>>,
    description_count: int,
    sizes: Seq<u64>,
    durations: Seq<i64>,
    compositions: Seq<i64>,
) -> Result<Seq<Sample>> {
    let count = sizes.len() as int;
    match first_of(found[2]) {
        None => Err(Mp4Error::InvalidData("sample table has no stsc box")),
        Some(map_box) => match chunk_map_of(file, map_box, description_count) {
            Err(error) => Err(error),
            Ok(entries) => match first_of(found[4]) {
                None => Err(Mp4Error::InvalidData("sample table has no chunk-offset box")),
                Some(offset_box) => match chunk_offsets_of(file, offset_box) {
                    Err(error) => Err(error),
                    Ok(chunks) => match sync_of(file, first_of(found[5]), count) {
                        Err(error) => Err(error),
                        Ok(sync) => joined(
                            file.length,
                            sizes,
                            durations,
                            compositions,
                            sync,
                            entries,
                            chunks,
                        ),
                    },
                },
            },
        },
    }
}

/// The samples of tables that were read.
pub open spec fn joined(
    file_length: int,
    sizes: Seq<u64>,
    durations: Seq<i64>,
    compositions: Seq<i64>,
    sync: Seq<bool>,
    entries: Seq<SampleToChunkEntry>,
    chunks: Seq<u64>,
) -> Result<Seq<Sample>> {
    match first_error(time_errors(durations, compositions), sizes.len() as int) {
        Some(error) => Err(error),
        None => match placed(sizes, entries, chunks, file_length) {
            Err(error) => Err(error),
            Ok(places) => Ok(assembled(sizes, durations, compositions, sync, places)),
        },
    }
}

/// The samples of a sample table.
pub open spec fn samples_of(
    file: FileView,
    sample_table: BoxHeader,
    description_count: int,
) -> Result<Seq<Sample>> {
    if description_count == 0 {
        Err(Mp4Error::InvalidData("sample table has no sample descriptions"))
    } else {
        match sorted_children(file, sample_table, table_slots()) {
            Err(error) => Err(error),
            Ok(found) => samples_from(file, found, description_count),
        }
    }
}

fn read_number<'input, I: MediaInput>(reader: &mut BoundedReader<'input, I>, field: Field) -> (result:
    Result<u64>)
    requires
        old(reader).well_formed(),
    ensures
        final(reader).well_formed(),
        final(reader).dependable() == old(reader).dependable(),
        reads(result, final(reader)@, number(old(reader)@, field), old(reader).dependable()),
{
    match field {
        Field::One => {
            let value: u8 = reader.read_u8()?;
            Ok(value as u64)
        },
        Field::Two => {
            let value: u16 = reader.read_u16()?;
            Ok(value as u64)
        },
        Field::Four => {
            let value: u32 = reader.read_u32()?;
            Ok(value as u64)
        },
        Field::Eight => reader.read_u64(),
    }
}

fn read_numbers<'input, I: MediaInput>(
    reader: &mut BoundedReader<'input, I>,
    field: Field,
    count: usize,
) -> (result: Result<Vec<u64>>)
    requires
        old(reader).well_formed(),
        old(reader)@.error is None,
    ensures
        final(reader).well_formed(),
        final(reader).dependable() == old(reader).dependable(),
        reads_view(
            result,
            final(reader)@,
            numbers(old(reader)@, field, count as int, Seq::empty()),
            old(reader).dependable(),
        ),
        result matches Ok(values) ==> values@.len() == count,
{
    let mut values: Vec<u64> = Vec::with_capacity(count);
    assert(values@ =~= Seq::<u64>::empty());
    let ghost whole = numbers(reader@, field, count as int, Seq::empty());
    let mut index: usize = 0;
    while index < count
        invariant
            index <= count,
            values@.len() == index,
            reader.well_formed(),
            reader@.error is None,
            reader.dependable() == old(reader).dependable(),
            whole == numbers(old(reader)@, field, count as int, Seq::empty()),
            whole == numbers(reader@, field, count - index, values@),
        decreases count - index,
    {
        proof {
            reveal_with_fuel(numbers, 2);
        }
        let value: u64 = read_number(reader, field)?;
        values.push(value);
        index = index + 1;
    }
    Ok(values)
}

fn read_nibbles<'input, I: MediaInput>(reader: &mut BoundedReader<'input, I>, count: usize) -> (result:
    Result<Vec<u64>>)
    requires
        old(reader).well_formed(),
        old(reader)@.error is None,
        count <= MAX_SAMPLE_COUNT,
    ensures
        final(reader).well_formed(),
        final(reader).dependable() == old(reader).dependable(),
        reads_view(
            result,
            final(reader)@,
            nibbles(old(reader)@, count as int, Seq::empty()),
            old(reader).dependable(),
        ),
        result matches Ok(values) ==> values@.len() == count,
{
    let mut values: Vec<u64> = Vec::with_capacity(count);
    assert(values@ =~= Seq::<u64>::empty());
    let ghost whole = nibbles(reader@, count as int, Seq::empty());
    let mut index: usize = 0;
    while index < count
        invariant
            index <= count <= MAX_SAMPLE_COUNT,
            values@.len() == index,
            reader.well_formed(),
            reader@.error is None,
            reader.dependable() == old(reader).dependable(),
            whole == nibbles(old(reader)@, count as int, Seq::empty()),
            whole == nibbles(reader@, count - index, values@),
        decreases count - index,
    {
        proof {
            reveal_with_fuel(nibbles, 2);
        }
        let packed: u8 = reader.read_u8()?;
        values.push((packed / 16) as u64);
        if index + 1 < count {
            values.push((packed % 16) as u64);
            index = index + 2;
        } else {
            index = index + 1;
        }
    }
    Ok(values)
}

fn read_plain_full_box<'input, I: MediaInput>(
    reader: &mut BoundedReader<'input, I>,
    message: &'static str,
) -> (result: Result<()>)
    requires
        old(reader).well_formed(),
    ensures
        final(reader).well_formed(),
        final(reader).dependable() == old(reader).dependable(),
        reads(
            result,
            final(reader)@,
            ((), plain_full_box(old(reader)@, message)),
            old(reader).dependable(),
        ),
{
    let (version, flags) = reader.read_full_box()?;
    if version != 0 || flags != 0 {
        return Err(Mp4Error::InvalidData(message));
    }
    Ok(())
}

fn read_limited_count<'input, I: MediaInput>(
    reader: &mut BoundedReader<'input, I>,
    limit: usize,
    message: &'static str,
) -> (result: Result<usize>)
    requires
        old(reader).well_formed(),
    ensures
        final(reader).well_formed(),
        final(reader).dependable() == old(reader).dependable(),
        ({
            let (count, cursor) = limited_count(old(reader)@, limit as int, message);
            reads(
                result,
                final(reader)@,
                (count as usize, cursor),
                old(reader).dependable(),
            )
        }),
        result matches Ok(count) ==> count <= limit,
{
    let count: u32 = reader.read_u32()?;
    if count as usize > limit {
        return Err(Mp4Error::InvalidData(message));
    }
    Ok(count as usize)
}

fn parse_plain_sizes<'input, I: MediaInput>(reader: &mut BoundedReader<'input, I>) -> (result: Result<
    Vec<u64>,
>)
    requires
        old(reader).well_formed(),
        old(reader)@.error is None,
    ensures
        reads_view(result, final(reader)@, plain_sizes(old(reader)@), old(reader).dependable()),
        result matches Ok(sizes) ==> sizes@.len() <= MAX_SAMPLE_COUNT,
{
    read_plain_full_box(reader, "unsupported stsz version or flags")?;
    let default_size: u32 = reader.read_u32()?;
    let count: usize = read_limited_count(
        reader,
        MAX_SAMPLE_COUNT,
        "sample count exceeds its limit",
    )?;
    let sizes: Vec<u64> = if default_size == 0 {
        read_numbers(reader, Field::Four, count)?
    } else {
        filled(default_size as u64, count)
    };
    reader.require_finished("stsz has trailing bytes")?;
    Ok(sizes)
}

fn parse_compact_sample_sizes<'input, I: MediaInput>(reader: &mut BoundedReader<'input, I>) -> (result:
    Result<Vec<u64>>)
    requires
        old(reader).well_formed(),
        old(reader)@.error is None,
    ensures
        reads_view(result, final(reader)@, compact_sizes(old(reader)@), old(reader).dependable()),
        result matches Ok(sizes) ==> sizes@.len() <= MAX_SAMPLE_COUNT,
{
    read_plain_full_box(reader, "unsupported stz2 version or flags")?;
    let reserved: u32 = reader.read_u24()?;
    if reserved != 0 {
        return Err(Mp4Error::InvalidData("stz2 reserved bits are not zero"));
    }
    let field_size: u8 = reader.read_u8()?;
    if field_size != 4 && field_size != 8 && field_size != 16 {
        return Err(Mp4Error::InvalidData("stz2 field size is not 4, 8, or 16 bits"));
    }
    let count: usize = read_limited_count(
        reader,
        MAX_SAMPLE_COUNT,
        "sample count exceeds its limit",
    )?;
    let sizes: Vec<u64> = if field_size == 4 {
        read_nibbles(reader, count)?
    } else if field_size == 8 {
        read_numbers(reader, Field::One, count)?
    } else {
        read_numbers(reader, Field::Two, count)?
    };
    reader.require_finished("stz2 has trailing bytes")?;
    Ok(sizes)
}

/// The sizes of the samples, from an `stsz` or `stz2` box.
pub fn parse_sample_sizes<'input, I: MediaInput>(file: &Mp4File<'input, I>, header: BoxHeader) -> (result:
    Result<Vec<u64>>)
    ensures
        meets_view(result, sizes_of(file@, header), file@.dependable),
        result matches Ok(sizes) ==> sizes@.len() <= MAX_SAMPLE_COUNT,
{
    let mut reader = payload_reader(file, header)?;
    if header.kind.code == STZ2 {
        parse_compact_sample_sizes(&mut reader)
    } else {
        parse_plain_sizes(&mut reader)
    }
}

fn read_run<'input, I: MediaInput>(
    reader: &mut BoundedReader<'input, I>,
    signed: bool,
    empty: &'static str,
) -> (result: Result<Run>)
    requires
        old(reader).well_formed(),
    ensures
        final(reader).well_formed(),
        final(reader).dependable() == old(reader).dependable(),
        reads(
            result,
            final(reader)@,
            run_syntax(old(reader)@, signed, empty),
            old(reader).dependable(),
        ),
{
    let count: u32 = reader.read_u32()?;
    if count == 0 {
        return Err(Mp4Error::InvalidData(empty));
    }
    if signed {
        let value: i32 = reader.read_i32()?;
        Ok(Run { count, value: value as i64 })
    } else {
        let value: u32 = reader.read_u32()?;
        Ok(Run { count, value: value as i64 })
    }
}

fn read_runs<'input, I: MediaInput>(
    reader: &mut BoundedReader<'input, I>,
    signed: bool,
    empty: &'static str,
    count: usize,
) -> (result: Result<Vec<Run>>)
    requires
        old(reader).well_formed(),
        old(reader)@.error is None,
    ensures
        final(reader).well_formed(),
        final(reader).dependable() == old(reader).dependable(),
        reads_view(
            result,
            final(reader)@,
            runs_syntax(old(reader)@, signed, empty, count as int, Seq::empty()),
            old(reader).dependable(),
        ),
        result matches Ok(runs) ==> runs@.len() == count,
{
    let mut runs: Vec<Run> = Vec::with_capacity(count);
    assert(runs@ =~= Seq::<Run>::empty());
    let ghost whole = runs_syntax(reader@, signed, empty, count as int, Seq::empty());
    let mut index: usize = 0;
    while index < count
        invariant
            index <= count,
            runs@.len() == index,
            reader.well_formed(),
            reader@.error is None,
            reader.dependable() == old(reader).dependable(),
            whole == runs_syntax(old(reader)@, signed, empty, count as int, Seq::empty()),
            whole == runs_syntax(reader@, signed, empty, count - index, runs@),
        decreases count - index,
    {
        proof {
            reveal_with_fuel(runs_syntax, 2);
        }
        let run = read_run(reader, signed, empty)?;
        runs.push(run);
        index = index + 1;
    }
    Ok(runs)
}

fn total_of_runs(runs: &Vec<Run>) -> (total: u64)
    requires
        runs@.len() <= MAX_TABLE_ENTRY_COUNT,
    ensures
        total == run_total(runs@),
{
    let mut total: u64 = 0;
    let mut index: usize = 0;
    while index < runs.len()
        invariant
            index <= runs@.len() <= MAX_TABLE_ENTRY_COUNT,
            total == run_total(runs@.take(index as int)),
            total <= 0xffff_ffff * index,
        decreases runs@.len() - index,
    {
        assert(runs@.take(index + 1).drop_last() =~= runs@.take(index as int));
        total = total + runs[index].count as u64;
        index = index + 1;
    }
    assert(runs@.take(index as int) =~= runs@);
    total
}

/// As many values as the runs describe.
proof fn lemma_expanded_length(runs: Seq<Run>)
    ensures
        expanded(runs).len() == run_total(runs),
        run_total(runs) >= 0,
    decreases runs.len(),
{
    if runs.len() > 0 {
        lemma_expanded_length(runs.drop_last());
    }
}

fn expand_runs(runs: &Vec<Run>) -> (values: Vec<i64>)
    ensures
        values@ == expanded(runs@),
{
    let mut values: Vec<i64> = Vec::new();
    let mut index: usize = 0;
    assert(values@ =~= expanded(runs@.take(0)));
    while index < runs.len()
        invariant
            index <= runs@.len(),
            values@ == expanded(runs@.take(index as int)),
        decreases runs@.len() - index,
    {
        let run = runs[index];
        let ghost before = values@;
        let mut repeated: u32 = 0;
        while repeated < run.count
            invariant
                repeated <= run.count,
                values@ == before + Seq::new(repeated as nat, |i: int| run.value),
            decreases run.count - repeated,
        {
            values.push(run.value);
            repeated = repeated + 1;
            assert(values@ =~= before + Seq::new(repeated as nat, |i: int| run.value));
        }
        assert(runs@.take(index + 1).drop_last() =~= runs@.take(index as int));
        assert(values@ =~= expanded(runs@.take(index + 1)));
        index = index + 1;
    }
    assert(runs@.take(index as int) =~= runs@);
    values
}

fn parse_time_to_sample<'input, I: MediaInput>(
    file: &Mp4File<'input, I>,
    header: BoxHeader,
    sample_count: usize,
) -> (result: Result<Vec<i64>>)
    ensures
        meets_view(
            result,
            durations_of(file@, header, sample_count as int),
            file@.dependable,
        ),
        result matches Ok(durations) ==> durations@.len() == sample_count,
{
    let mut reader = payload_reader(file, header)?;
    read_plain_full_box(&mut reader, "unsupported stts version or flags")?;
    let count: usize = read_limited_count(
        &mut reader,
        MAX_TABLE_ENTRY_COUNT,
        "stts entry count exceeds its limit",
    )?;
    let runs = read_runs(&mut reader, false, "stts entry has zero samples", count)?;
    reader.require_finished("stts has trailing bytes")?;
    if total_of_runs(&runs) != sample_count as u64 {
        return Err(Mp4Error::InvalidData("stts sample count does not match stsz"));
    }
    proof {
        lemma_expanded_length(runs@);
    }
    Ok(expand_runs(&runs))
}

fn parse_composition_offsets<'input, I: MediaInput>(
    file: &Mp4File<'input, I>,
    header: Option<BoxHeader>,
    sample_count: usize,
) -> (result: Result<Vec<i64>>)
    ensures
        meets_view(
            result,
            compositions_of(file@, header, sample_count as int),
            file@.dependable,
        ),
        result matches Ok(offsets) ==> offsets@.len() == sample_count,
{
    let header = match header {
        Some(header) => header,
        None => return Ok(filled(0i64, sample_count)),
    };
    let mut reader = payload_reader(file, header)?;
    let (version, flags) = reader.read_full_box()?;
    if flags != 0 || version > 1 {
        return Err(Mp4Error::InvalidData("unsupported ctts version or flags"));
    }
    let count: usize = read_limited_count(
        &mut reader,
        MAX_TABLE_ENTRY_COUNT,
        "ctts entry count exceeds its limit",
    )?;
    let runs = read_runs(&mut reader, version == 1, "ctts entry has zero samples", count)?;
    reader.require_finished("ctts has trailing bytes")?;
    if total_of_runs(&runs) != sample_count as u64 {
        return Err(Mp4Error::InvalidData("ctts sample count does not match stsz"));
    }
    proof {
        lemma_expanded_length(runs@);
    }
    Ok(expand_runs(&runs))
}

/// Entries begin at one and at later and later chunks.
pub open spec fn increasing(entries: Seq<SampleToChunkEntry>) -> bool {
    &&& entries.len() > 0 ==> entries[0].first_chunk == 1
    &&& forall|i: int, j: int|
        0 <= i < j < entries.len() ==> #[trigger] entries[i].first_chunk
            < #[trigger] entries[j].first_chunk
    &&& forall|i: int| 0 <= i < entries.len() ==> (#[trigger] entries[i]).description_index >= 1
}

fn read_chunk_entry<'input, I: MediaInput>(
    reader: &mut BoundedReader<'input, I>,
    description_count: usize,
    entries: &Vec<SampleToChunkEntry>,
) -> (result: Result<SampleToChunkEntry>)
    requires
        old(reader).well_formed(),
    ensures
        final(reader).well_formed(),
        final(reader).dependable() == old(reader).dependable(),
        reads(
            result,
            final(reader)@,
            chunk_entry_syntax(old(reader)@, description_count as int, entries@),
            old(reader).dependable(),
        ),
        result matches Ok(entry) ==> entry.description_index >= 1 && if entries@.len() == 0 {
            entry.first_chunk == 1
        } else {
            entry.first_chunk > entries@.last().first_chunk
        },
{
    let first_chunk: u32 = reader.read_u32()?;
    let samples_per_chunk: u32 = reader.read_u32()?;
    let description_index: u32 = reader.read_u32()?;
    let ordered: bool = if entries.len() == 0 {
        first_chunk == 1
    } else {
        first_chunk > entries[entries.len() - 1].first_chunk
    };
    if !ordered {
        return Err(
            Mp4Error::InvalidData("stsc first_chunk values are not strictly increasing from one"),
        );
    }
    if samples_per_chunk == 0 {
        return Err(Mp4Error::InvalidData("stsc entry has zero samples"));
    }
    if description_index == 0 || description_index as usize > description_count {
        return Err(Mp4Error::InvalidData("stsc sample-description index is out of range"));
    }
    Ok(SampleToChunkEntry { first_chunk, samples_per_chunk, description_index })
}

fn read_chunk_entries<'input, I: MediaInput>(
    reader: &mut BoundedReader<'input, I>,
    description_count: usize,
    count: usize,
) -> (result: Result<Vec<SampleToChunkEntry>>)
    requires
        old(reader).well_formed(),
        old(reader)@.error is None,
    ensures
        final(reader).well_formed(),
        final(reader).dependable() == old(reader).dependable(),
        reads_view(
            result,
            final(reader)@,
            chunk_entries_syntax(
                old(reader)@,
                description_count as int,
                count as int,
                Seq::empty(),
            ),
            old(reader).dependable(),
        ),
        result matches Ok(entries) ==> increasing(entries@),
{
    let mut entries: Vec<SampleToChunkEntry> = Vec::with_capacity(count);
    assert(entries@ =~= Seq::<SampleToChunkEntry>::empty());
    let ghost whole = chunk_entries_syntax(
        reader@,
        description_count as int,
        count as int,
        Seq::empty(),
    );
    let mut index: usize = 0;
    while index < count
        invariant
            index <= count,
            reader.well_formed(),
            reader@.error is None,
            reader.dependable() == old(reader).dependable(),
            increasing(entries@),
            whole == chunk_entries_syntax(
                old(reader)@,
                description_count as int,
                count as int,
                Seq::empty(),
            ),
            whole == chunk_entries_syntax(
                reader@,
                description_count as int,
                count - index,
                entries@,
            ),
        decreases count - index,
    {
        proof {
            reveal_with_fuel(chunk_entries_syntax, 2);
        }
        let entry = read_chunk_entry(reader, description_count, &entries)?;
        let ghost before = entries@;
        entries.push(entry);
        assert forall|i: int, j: int| 0 <= i < j < entries@.len() implies #[trigger] entries@[i].first_chunk
            < #[trigger] entries@[j].first_chunk by {
            if j == before.len() && i < before.len() - 1 {
                assert(before[i].first_chunk < before[before.len() - 1].first_chunk);
            }
        }
        index = index + 1;
    }
    Ok(entries)
}

fn parse_sample_to_chunk<'input, I: MediaInput>(
    file: &Mp4File<'input, I>,
    header: BoxHeader,
    description_count: usize,
) -> (result: Result<Vec<SampleToChunkEntry>>)
    ensures
        meets_view(
            result,
            chunk_map_of(file@, header, description_count as int),
            file@.dependable,
        ),
        result matches Ok(entries) ==> increasing(entries@),
{
    let mut reader = payload_reader(file, header)?;
    read_plain_full_box(&mut reader, "unsupported stsc version or flags")?;
    let count: usize = read_limited_count(
        &mut reader,
        MAX_TABLE_ENTRY_COUNT,
        "stsc entry count exceeds its limit",
    )?;
    let entries = read_chunk_entries(&mut reader, description_count, count)?;
    reader.require_finished("stsc has trailing bytes")?;
    Ok(entries)
}

fn parse_chunk_offsets<'input, I: MediaInput>(file: &Mp4File<'input, I>, header: BoxHeader) -> (result:
    Result<Vec<u64>>)
    ensures
        meets_view(result, chunk_offsets_of(file@, header), file@.dependable),
        result matches Ok(offsets) ==> offsets@.len() <= MAX_TABLE_ENTRY_COUNT,
{
    let mut reader = payload_reader(file, header)?;
    read_plain_full_box(&mut reader, "unsupported chunk-offset version or flags")?;
    let count: usize = read_limited_count(
        &mut reader,
        MAX_TABLE_ENTRY_COUNT,
        "chunk count exceeds its limit",
    )?;
    let field = if header.kind.code == STCO {
        Field::Four
    } else {
        Field::Eight
    };
    let offsets = read_numbers(&mut reader, field, count)?;
    reader.require_finished("chunk-offset box has trailing bytes")?;
    Ok(offsets)
}

/// Reads the numbers of sync samples and marks those.
fn read_sync_numbers<'input, I: MediaInput>(
    reader: &mut BoundedReader<'input, I>,
    sample_count: usize,
    count: usize,
) -> (result: Result<Vec<bool>>)
    requires
        old(reader).well_formed(),
        old(reader)@.error is None,
    ensures
        final(reader).well_formed(),
        final(reader).dependable() == old(reader).dependable(),
        ({
            let (values, cursor) = sync_numbers_syntax(
                old(reader)@,
                sample_count as int,
                count as int,
                Seq::empty(),
            );
            reads_view(
                result,
                final(reader)@,
                (
                    Seq::new(sample_count as nat, |i: int| values.contains((i + 1) as u64)),
                    cursor,
                ),
                old(reader).dependable(),
            )
        }),
{
    let mut sync: Vec<bool> = filled(false, sample_count);
    let ghost mut values: Seq<u64> = Seq::empty();
    let ghost whole = sync_numbers_syntax(
        reader@,
        sample_count as int,
        count as int,
        Seq::empty(),
    );
    let mut previous: u32 = 0;
    let mut index: usize = 0;
    while index < count
        invariant
            index <= count,
            reader.well_formed(),
            reader@.error is None,
            reader.dependable() == old(reader).dependable(),
            sync@.len() == sample_count,
            previous == (if values.len() == 0 {
                0
            } else {
                values.last()
            }),
            forall|i: int|
                0 <= i < sample_count ==> #[trigger] sync@[i] == values.contains((i + 1) as u64),
            whole == sync_numbers_syntax(
                old(reader)@,
                sample_count as int,
                count as int,
                Seq::empty(),
            ),
            whole == sync_numbers_syntax(reader@, sample_count as int, count - index, values),
        decreases count - index,
    {
        proof {
            reveal_with_fuel(sync_numbers_syntax, 2);
        }
        let value: u32 = reader.read_u32()?;
        if value <= previous || value as usize > sample_count {
            return Err(
                Mp4Error::InvalidData(
                    "stss sample numbers are not strictly increasing and in range",
                ),
            );
        }
        let ghost before = values;
        let ghost flags = sync@;
        sync[(value - 1) as usize] = true;
        proof {
            values = values.push(value as u64);
            assert forall|i: int| 0 <= i < sample_count implies #[trigger] sync@[i]
                == values.contains((i + 1) as u64) by {
                assert(flags[i] == before.contains((i + 1) as u64));
                assert(values[before.len() as int] == value);
                if before.contains((i + 1) as u64) {
                    let k = choose|k: int| 0 <= k < before.len() && before[k] == (i + 1) as u64;
                    assert(values[k] == (i + 1) as u64);
                }
                if values.contains((i + 1) as u64) && i + 1 != value {
                    let k = choose|k: int| 0 <= k < values.len() && values[k] == (i + 1) as u64;
                    assert(before[k] == (i + 1) as u64);
                }
            }
        }
        previous = value;
        index = index + 1;
    }
    assert(sync@ =~= Seq::new(sample_count as nat, |i: int| values.contains((i + 1) as u64)));
    Ok(sync)
}

fn parse_sync_samples<'input, I: MediaInput>(
    file: &Mp4File<'input, I>,
    header: Option<BoxHeader>,
    sample_count: usize,
) -> (result: Result<Vec<bool>>)
    ensures
        meets_view(result, sync_of(file@, header, sample_count as int), file@.dependable),
        result matches Ok(sync) ==> sync@.len() == sample_count,
{
    let header = match header {
        Some(header) => header,
        None => return Ok(filled(true, sample_count)),
    };
    let mut reader = payload_reader(file, header)?;
    read_plain_full_box(&mut reader, "unsupported stss version or flags")?;
    let count: usize = read_limited_count(
        &mut reader,
        sample_count,
        "sync-sample count exceeds the sample count",
    )?;
    let sync = read_sync_numbers(&mut reader, sample_count, count)?;
    reader.require_finished("stss has trailing bytes")?;
    Ok(sync)
}

/// The decode and presentation times of samples.
fn sample_times(durations: &Vec<i64>, compositions: &Vec<i64>) -> (result: Result<
    Vec<(i64, i64)>,
>)
    requires
        durations@.len() == compositions@.len(),
        durations@.len() <= MAX_SAMPLE_COUNT,
    ensures
        match first_error(time_errors(durations@, compositions@), durations@.len() as int) {
            Some(error) => result matches Err(found) && found == error,
            None => result matches Ok(times) && times@.len() == durations@.len() && forall|i: int|
                #![trigger times@[i]]
                0 <= i < times@.len() ==> times@[i].0 == decode_time_at(durations@, i)
                    && times@[i].1 == decode_time_at(durations@, i) + compositions@[i],
        },
{
    let ghost errors = time_errors(durations@, compositions@);
    let count: usize = durations.len();
    let mut times: Vec<(i64, i64)> = Vec::with_capacity(count);
    let mut decode_time: i128 = 0;
    let mut index: usize = 0;
    while index < count
        invariant
            index <= count == durations@.len() == compositions@.len(),
            count <= MAX_SAMPLE_COUNT,
            errors == time_errors(durations@, compositions@),
            first_error(errors, index as int) is None,
            times@.len() == index,
            decode_time == decode_time_at(durations@, index as int),
            -0x8000_0000_0000_0000 * index <= decode_time <= 0x8000_0000_0000_0000 * index,
            forall|i: int|
                #![trigger times@[i]]
                0 <= i < index ==> times@[i].0 == decode_time_at(durations@, i) && times@[i].1
                    == decode_time_at(durations@, i) + compositions@[i],
        decreases count - index,
    {
        if decode_time < i64::MIN as i128 || decode_time > i64::MAX as i128 {
            proof {
                lemma_first_error(errors, index as int, count as int);
            }
            return Err(Mp4Error::InvalidData("sample DTS exceeds i64"));
        }
        let presentation_time: i128 = decode_time + compositions[index] as i128;
        if presentation_time < i64::MIN as i128 || presentation_time > i64::MAX as i128 {
            proof {
                lemma_first_error(errors, index as int, count as int);
            }
            return Err(Mp4Error::InvalidData("sample PTS exceeds i64"));
        }
        times.push((decode_time as i64, presentation_time as i64));
        decode_time = decode_time + durations[index] as i128;
        index = index + 1;
    }
    Ok(times)
}

/// Samples that follow each other from `offset` on.
fn place_in_chunk(
    sizes: &Vec<u64>,
    file_length: u64,
    description: usize,
    offset: u64,
    count: u32,
    places: &mut Vec<(u64, usize)>,
) -> (result: Result<()>)
    ensures
        ({
            let expected = placed_in_chunk(
                sizes@,
                file_length as int,
                description,
                offset as int,
                count as int,
                old(places)@,
            );
            match expected.error {
                Some(error) => result matches Err(found) && found == error,
                None => result is Ok && final(places)@ == expected.places,
            }
        }),
{
    let ghost expected = placed_in_chunk(
        sizes@,
        file_length as int,
        description,
        offset as int,
        count as int,
        places@,
    );
    let mut position: u64 = offset;
    let mut placed: u32 = 0;
    while placed < count
        invariant
            placed <= count,
            expected == placed_in_chunk(
                sizes@,
                file_length as int,
                description,
                offset as int,
                count as int,
                old(places)@,
            ),
            expected == placed_in_chunk(
                sizes@,
                file_length as int,
                description,
                position as int,
                count - placed,
                places@,
            ),
        decreases count - placed,
    {
        if places.len() >= sizes.len() {
            return Err(Mp4Error::InvalidData("chunk table describes more samples than stsz"));
        }
        let size: u64 = sizes[places.len()];
        if size > u64::MAX - position {
            return Err(Mp4Error::IntegerOverflow);
        }
        if position + size > file_length {
            return Err(Mp4Error::InvalidData("sample data exceeds the input"));
        }
        places.push((position, description));
        position = position + size;
        placed = placed + 1;
    }
    Ok(())
}

/// The entry that was found is the last one that starts no later.
proof fn lemma_entry_for(entries: Seq<SampleToChunkEntry>, chunk: int, entry: int, count: int)
    requires
        increasing(entries),
        chunk >= 1,
        0 <= entry < count <= entries.len(),
        entries[entry].first_chunk <= chunk,
        entry + 1 < entries.len() ==> entries[entry + 1].first_chunk > chunk,
    ensures
        entry_for(entries, chunk, count) == entry,
    decreases count,
{
    if count - 1 > entry {
        if count - 1 > entry + 1 {
            assert(entries[entry + 1].first_chunk < entries[count - 1].first_chunk);
        }
        lemma_entry_for(entries, chunk, entry, count - 1);
    }
}

/// The samples of all chunks.
fn place_chunks(
    sizes: &Vec<u64>,
    entries: &Vec<SampleToChunkEntry>,
    chunks: &Vec<u64>,
    file_length: u64,
) -> (result: Result<Vec<(u64, usize)>>)
    requires
        increasing(entries@),
        chunks@.len() <= MAX_TABLE_ENTRY_COUNT,
    ensures
        ({
            let expected = placed_from(
                sizes@,
                entries@,
                chunks@,
                file_length as int,
                0,
                Seq::empty(),
            );
            match expected.error {
                Some(error) => result matches Err(found) && found == error,
                None => result matches Ok(places) && places@ == expected.places,
            }
        }),
{
    let mut places: Vec<(u64, usize)> = Vec::new();
    let ghost expected = placed_from(
        sizes@,
        entries@,
        chunks@,
        file_length as int,
        0,
        Seq::empty(),
    );
    assert(places@ =~= Seq::<(u64, usize)>::empty());
    let chunk_count: usize = chunks.len();
    let entry_count: usize = entries.len();
    let mut entry: usize = 0;
    let mut chunk: usize = 0;
    while chunk < chunk_count
        invariant
            chunk <= chunk_count == chunks@.len() <= MAX_TABLE_ENTRY_COUNT,
            entry_count == entries@.len(),
            increasing(entries@),
            entry_count > 0 ==> entry < entry_count && entries@[entry as int].first_chunk <= chunk
                + 1,
            expected == placed_from(
                sizes@,
                entries@,
                chunks@,
                file_length as int,
                0,
                Seq::empty(),
            ),
            expected == placed_from(
                sizes@,
                entries@,
                chunks@,
                file_length as int,
                chunk as int,
                places@,
            ),
        decreases chunk_count - chunk,
    {
        proof {
            reveal_with_fuel(placed_from, 2);
        }
        if entry_count == 0 {
            return Err(Mp4Error::InvalidData("stsc does not describe a chunk"));
        }
        let number: u32 = (chunk + 1) as u32;
        while entry + 1 < entry_count && entries[entry + 1].first_chunk <= number
            invariant
                entry < entry_count == entries@.len(),
                entries@[entry as int].first_chunk <= number,
            decreases entry_count - entry,
        {
            entry = entry + 1;
        }
        proof {
            lemma_entry_for(entries@, chunk + 1, entry as int, entry_count as int);
        }
        let found = entries[entry];
        place_in_chunk(
            sizes,
            file_length,
            (found.description_index - 1) as usize,
            chunks[chunk],
            found.samples_per_chunk,
            &mut places,
        )?;
        chunk = chunk + 1;
    }
    Ok(places)
}

fn assign_sample_offsets(
    sizes: &Vec<u64>,
    entries: &Vec<SampleToChunkEntry>,
    chunks: &Vec<u64>,
    file_length: u64,
) -> (result: Result<Vec<(u64, usize)>>)
    requires
        increasing(entries@),
        chunks@.len() <= MAX_TABLE_ENTRY_COUNT,
    ensures
        match placed(sizes@, entries@, chunks@, file_length as int) {
            Err(error) => result matches Err(found) && found == error,
            Ok(expected) => result matches Ok(places) && places@ == expected && places@.len()
                == sizes@.len(),
        },
{
    if sizes.len() == 0 {
        if entries.len() == 0 && chunks.len() == 0 {
            let places: Vec<(u64, usize)> = Vec::new();
            assert(places@ =~= Seq::<(u64, usize)>::empty());
            return Ok(places);
        }
        return Err(Mp4Error::InvalidData("chunk table describes samples absent from stsz"));
    }
    if chunks.len() == 0 {
        return Err(Mp4Error::InvalidData("non-empty track has no chunks"));
    }
    if entries.len() > 0 && entries[entries.len() - 1].first_chunk as usize > chunks.len() {
        return Err(Mp4Error::InvalidData("stsc first_chunk exceeds the chunk count"));
    }
    let places = place_chunks(sizes, entries, chunks, file_length)?;
    if places.len() != sizes.len() {
        return Err(Mp4Error::InvalidData("chunk table describes fewer samples than stsz"));
    }
    Ok(places)
}

fn join_tables(
    file_length: u64,
    sizes: &Vec<u64>,
    durations: &Vec<i64>,
    compositions: &Vec<i64>,
    sync: &Vec<bool>,
    entries: &Vec<SampleToChunkEntry>,
    chunks: &Vec<u64>,
) -> (result: Result<Vec<Sample>>)
    requires
        increasing(entries@),
        chunks@.len() <= MAX_TABLE_ENTRY_COUNT,
        sizes@.len() <= MAX_SAMPLE_COUNT,
        durations@.len() == sizes@.len(),
        compositions@.len() == sizes@.len(),
        sync@.len() == sizes@.len(),
    ensures
        match joined(
            file_length as int,
            sizes@,
            durations@,
            compositions@,
            sync@,
            entries@,
            chunks@,
        ) {
            Err(error) => result matches Err(found) && found == error,
            Ok(expected) => result matches Ok(samples) && samples@ == expected,
        },
{
    let times = sample_times(durations, compositions)?;
    let places = assign_sample_offsets(sizes, entries, chunks, file_length)?;
    let ghost expected = assembled(sizes@, durations@, compositions@, sync@, places@);
    let count: usize = sizes.len();
    let mut samples: Vec<Sample> = Vec::with_capacity(count);
    let mut index: usize = 0;
    while index < count
        invariant
            index <= count == sizes@.len() == durations@.len() == compositions@.len(),
            sync@.len() == count,
            places@.len() == count,
            times@.len() == count,
            forall|i: int|
                #![trigger times@[i]]
                0 <= i < count ==> times@[i].0 == decode_time_at(durations@, i) && times@[i].1
                    == decode_time_at(durations@, i) + compositions@[i],
            expected == assembled(sizes@, durations@, compositions@, sync@, places@),
            samples@ == expected.take(index as int),
        decreases count - index,
    {
        let (offset, description_index) = places[index];
        let (decode_time, presentation_time) = times[index];
        samples.push(
            Sample {
                offset,
                size: sizes[index] as u32,
                decode_time,
                presentation_time,
                duration: durations[index] as u32,
                description_index,
                sync: sync[index],
            },
        );
        index = index + 1;
        assert(samples@ =~= expected.take(index as int));
    }
    assert(samples@ =~= expected);
    Ok(samples)
}

fn find_tables() -> (slots: Vec<Slot>)
    ensures
        slots@ == table_slots(),
{
    let mut slots: Vec<Slot> = three_slots(
        STTS,
        "duplicate stts box",
        CTTS,
        "duplicate ctts box",
        STSC,
        "duplicate stsc box",
    );
    slots.push(
        Slot { first: STSZ, second: STZ2, limit: 1, message: "multiple sample-size boxes" },
    );
    slots.push(
        Slot { first: STCO, second: CO64, limit: 1, message: "multiple chunk-offset boxes" },
    );
    slots.push(Slot { first: STSS, second: STSS, limit: 1, message: "duplicate stss box" });
    assert(slots@ =~= table_slots());
    slots
}

fn parse_remaining_tables<'input, I: MediaInput>(
    file: &Mp4File<'input, I>,
    found: &Vec<Vec<BoxHeader>>,
    description_count: usize,
    sizes: &Vec<u64>,
    durations: &Vec<i64>,
    compositions: &Vec<i64>,
) -> (result: Result<Vec<Sample>>)
    requires
        found@.len() == 6,
        sizes@.len() <= MAX_SAMPLE_COUNT,
        durations@.len() == sizes@.len(),
        compositions@.len() == sizes@.len(),
    ensures
        meets_view(
            result,
            samples_of_times(
                file@,
                found_boxes(*found),
                description_count as int,
                sizes@,
                durations@,
                compositions@,
            ),
            file@.dependable,
        ),
{
    let map_box = match first_found(found, 2) {
        Some(header) => header,
        None => return Err(Mp4Error::InvalidData("sample table has no stsc box")),
    };
    let entries = parse_sample_to_chunk(file, map_box, description_count)?;
    let offset_box = match first_found(found, 4) {
        Some(header) => header,
        None => return Err(Mp4Error::InvalidData("sample table has no chunk-offset box")),
    };
    let chunks = parse_chunk_offsets(file, offset_box)?;
    let sync = parse_sync_samples(file, first_found(found, 5), sizes.len())?;
    join_tables(file.length(), sizes, durations, compositions, &sync, &entries, &chunks)
}

fn parse_timed_tables<'input, I: MediaInput>(
    file: &Mp4File<'input, I>,
    found: &Vec<Vec<BoxHeader>>,
    description_count: usize,
    sizes: &Vec<u64>,
) -> (result: Result<Vec<Sample>>)
    requires
        found@.len() == 6,
        sizes@.len() <= MAX_SAMPLE_COUNT,
    ensures
        meets_view(
            result,
            samples_of_sizes(file@, found_boxes(*found), description_count as int, sizes@),
            file@.dependable,
        ),
{
    let time_box = match first_found(found, 0) {
        Some(header) => header,
        None => return Err(Mp4Error::InvalidData("sample table has no stts box")),
    };
    let durations = parse_time_to_sample(file, time_box, sizes.len())?;
    let compositions = parse_composition_offsets(file, first_found(found, 1), sizes.len())?;
    parse_remaining_tables(file, found, description_count, sizes, &durations, &compositions)
}

fn parse_tables<'input, I: MediaInput>(
    file: &Mp4File<'input, I>,
    found: &Vec<Vec<BoxHeader>>,
    description_count: usize,
) -> (result: Result<Vec<Sample>>)
    requires
        found@.len() == 6,
    ensures
        meets_view(
            result,
            samples_from(file@, found_boxes(*found), description_count as int),
            file@.dependable,
        ),
{
    proof {
        reveal(samples_from);
    }
    let size_box = match first_found(found, 3) {
        Some(header) => header,
        None => return Err(Mp4Error::InvalidData("sample table has no sample-size box")),
    };
    let sizes = parse_sample_sizes(file, size_box)?;
    parse_timed_tables(file, found, description_count, &sizes)
}

/// Reads the samples that a sample table describes.
pub fn parse_sample_table<'input, I: MediaInput>(
    file: &Mp4File<'input, I>,
    sample_table: BoxHeader,
    description_count: usize,
) -> (result: Result<Vec<Sample>>)
    ensures
        meets_view(
            result,
            samples_of(file@, sample_table, description_count as int),
            file@.dependable,
        ),
{
    if description_count == 0 {
        return Err(Mp4Error::InvalidData("sample table has no sample descriptions"));
    }
    let slots = find_tables();
    let found = sort_children(file, sample_table, &slots)?;
    parse_tables(file, &found, description_count)
}

/// Each sample is decoded when the one before it has ended.
pub proof fn law_samples_are_decoded_in_turn(
    file_length: int,
    sizes: Seq<u64>,
    durations: Seq<i64>,
    compositions: Seq<i64>,
    sync: Seq<bool>,
    entries: Seq<SampleToChunkEntry>,
    chunks: Seq<u64>,
    index: int,
)
    requires
        joined(file_length, sizes, durations, compositions, sync, entries, chunks) is Ok,
        0 <= index < sizes.len() - 1,
        forall|i: int| 0 <= i < sizes.len() ==> 0 <= #[trigger] durations[i] <= u32::MAX,
    ensures
        ({
            let samples = joined(
                file_length,
                sizes,
                durations,
                compositions,
                sync,
                entries,
                chunks,
            )->Ok_0;
            samples[index + 1].decode_time == samples[index].decode_time
                + samples[index].duration
        }),
{
    lemma_no_error_before(time_errors(durations, compositions), index, sizes.len() as int);
    lemma_no_error_before(time_errors(durations, compositions), index + 1, sizes.len() as int);
}

/// Where none of some steps has an error, one of them has none.
proof fn lemma_no_error_before(errors: spec_fn(int) -> Option<Mp4Error>, index: int, count: int)
    requires
        first_error(errors, count) is None,
        0 <= index < count,
    ensures
        errors(index) is None,
    decreases count,
{
    if index < count - 1 {
        lemma_no_error_before(errors, index, count - 1);
    }
}

/// The places of a chunk keep those before it, and lie inside the file.
proof fn lemma_placed_in_chunk(
    sizes: Seq<u64>,
    file_length: int,
    description: usize,
    offset: int,
    remaining: int,
    places: Seq<(u64, usize)>,
)
    requires
        0 <= offset <= u64::MAX,
        placed_in_chunk(sizes, file_length, description, offset, remaining, places).error is None,
        places.len() <= sizes.len(),
        inside_file(sizes, file_length, places),
    ensures
        ({
            let after = placed_in_chunk(
                sizes,
                file_length,
                description,
                offset,
                remaining,
                places,
            ).places;
            after.len() <= sizes.len() && inside_file(sizes, file_length, after)
        }),
    decreases remaining,
{
    if remaining > 0 {
        let next = places.push((offset as u64, description));
        lemma_placed_in_chunk(
            sizes,
            file_length,
            description,
            offset + sizes[places.len() as int],
            remaining - 1,
            next,
        );
    }
}

/// Each sample that has a place lies inside the file.
pub open spec fn inside_file(
    sizes: Seq<u64>,
    file_length: int,
    places: Seq<(u64, usize)>,
) -> bool {
    forall|i: int|
        0 <= i < places.len() ==> (#[trigger] places[i]).0 + sizes[i] <= file_length
}

/// As `lemma_placed_in_chunk`, of all chunks from one on.
proof fn lemma_placed_from(
    sizes: Seq<u64>,
    entries: Seq<SampleToChunkEntry>,
    chunks: Seq<u64>,
    file_length: int,
    chunk: int,
    places: Seq<(u64, usize)>,
)
    requires
        0 <= chunk,
        placed_from(sizes, entries, chunks, file_length, chunk, places).error is None,
        places.len() <= sizes.len(),
        inside_file(sizes, file_length, places),
    ensures
        inside_file(
            sizes,
            file_length,
            placed_from(sizes, entries, chunks, file_length, chunk, places).places,
        ),
    decreases chunks.len() - chunk,
{
    if chunk < chunks.len() && entries.len() > 0 {
        let entry = entries[entry_for(entries, chunk + 1, entries.len() as int)];
        let after = placed_in_chunk(
            sizes,
            file_length,
            (entry.description_index - 1) as usize,
            chunks[chunk] as int,
            entry.samples_per_chunk as int,
            places,
        );
        lemma_placed_in_chunk(
            sizes,
            file_length,
            (entry.description_index - 1) as usize,
            chunks[chunk] as int,
            entry.samples_per_chunk as int,
            places,
        );
        lemma_placed_from(sizes, entries, chunks, file_length, chunk + 1, after.places);
    }
}

/// The data of every sample lies inside the file.
pub proof fn law_samples_lie_inside_the_file(
    file_length: int,
    sizes: Seq<u64>,
    durations: Seq<i64>,
    compositions: Seq<i64>,
    sync: Seq<bool>,
    entries: Seq<SampleToChunkEntry>,
    chunks: Seq<u64>,
    index: int,
)
    requires
        joined(file_length, sizes, durations, compositions, sync, entries, chunks) is Ok,
        0 <= index < sizes.len(),
        forall|i: int| 0 <= i < sizes.len() ==> #[trigger] sizes[i] <= u32::MAX,
    ensures
        ({
            let sample = joined(
                file_length,
                sizes,
                durations,
                compositions,
                sync,
                entries,
                chunks,
            )->Ok_0[index];
            sample.offset + sample.size <= file_length
        }),
{
    lemma_placed_from(sizes, entries, chunks, file_length, 0, Seq::empty());
}

} // verus!
