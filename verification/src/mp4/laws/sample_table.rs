//! Laws of sample tables.

use vstd::prelude::*;

use super::bytes::{
    law_long_is_read, law_version_and_flags_are_read, law_word_is_read, long, stands,
    two_complement, word,
};
use crate::mp4::boxes::{payload_cursor, payload_of, BoxHeader, FileView};
use crate::mp4::error::{first_error, Mp4Error};
use crate::mp4::reader::ByteCursor;
use crate::mp4::sample_table::{
    chunk_entries_syntax, chunk_entry_syntax, chunk_map_of, chunk_offsets_of, compositions_of,
    decode_time_at, durations_of, entry_for, expanded, joined, nibbles, number, numbers, placed,
    placed_from, placed_in_chunk, plain_full_box, run_syntax, runs_syntax, sizes_of,
    sync_numbers_syntax, sync_of, sync_syntax, time_errors, Field, Run, SampleToChunkEntry, STCO,
    STZ2,
};

verus! {

/// How many bytes a field has.
pub open spec fn field_length(field: Field) -> int {
    match field {
        Field::One => 1,
        Field::Two => 2,
        Field::Four => 4,
        Field::Eight => 8,
    }
}

/// The number in a field at a place.
pub open spec fn field_at(content: Seq<u8>, field: Field, at: int) -> int {
    match field {
        Field::One => content[at] as int,
        Field::Two => content[at] * 0x100 + content[at + 1],
        Field::Four => word(content, at),
        Field::Eight => long(content, at),
    }
}

/// A number is read.
proof fn lemma_number(cursor: ByteCursor, field: Field)
    requires
        cursor.error is None,
        0 <= cursor.position,
        number(cursor, field).1.error is None,
    ensures
        number(cursor, field).0 == field_at(cursor.content, field, cursor.position),
        stands(
            number(cursor, field).1,
            cursor.content,
            cursor.position + field_length(field),
            cursor.end,
        ),
{
    match field {
        Field::One => {
            assert(cursor.bytes(1).0 == cursor.content.subrange(
                cursor.position,
                cursor.position + 1,
            ));
        },
        Field::Two => {
            assert(cursor.bytes(2).0 == cursor.content.subrange(
                cursor.position,
                cursor.position + 2,
            ));
        },
        Field::Four => law_word_is_read(cursor),
        Field::Eight => law_long_is_read(cursor),
    }
}

/// Numbers are read one after the other.
proof fn lemma_numbers(cursor: ByteCursor, field: Field, remaining: int, values: Seq<u64>)
    requires
        cursor.error is None,
        0 <= cursor.position,
        0 <= remaining,
        numbers(cursor, field, remaining, values).1.error is None,
    ensures
        ({
            let (read, behind) = numbers(cursor, field, remaining, values);
            &&& read.len() == values.len() + remaining
            &&& forall|i: int| 0 <= i < values.len() ==> #[trigger] read[i] == values[i]
            &&& forall|i: int|
                values.len() <= i < read.len() ==> #[trigger] read[i] == field_at(
                    cursor.content,
                    field,
                    cursor.position + (i - values.len()) * field_length(field),
                )
            &&& stands(
                behind,
                cursor.content,
                cursor.position + remaining * field_length(field),
                cursor.end,
            )
        }),
    decreases remaining,
{
    let length = field_length(field);
    if remaining > 0 {
        let (value, next) = number(cursor, field);
        if next.error is Some {
            reveal_with_fuel(numbers, 2);
        }
        lemma_number(cursor, field);
        lemma_numbers(next, field, remaining - 1, values.push(value));
        let read = numbers(cursor, field, remaining, values).0;
        let more = values.push(value);
        assert(remaining * length == length + (remaining - 1) * length) by (nonlinear_arith);
        assert forall|i: int| 0 <= i < values.len() implies #[trigger] read[i] == values[i] by {
            assert(read[i] == more[i]);
        }
        assert forall|i: int| values.len() <= i < read.len() implies #[trigger] read[i] == field_at(
            cursor.content,
            field,
            cursor.position + (i - values.len()) * length,
        ) by {
            if i == values.len() {
                assert(read[i] == more[i]);
                assert((i - values.len()) * length == 0) by (nonlinear_arith)
                    requires
                        i == values.len(),
                ;
            } else {
                assert((i - values.len()) * length == length + (i - (values.len() + 1)) * length)
                    by (nonlinear_arith);
            }
        }
    } else {
        assert(remaining * length == 0) by (nonlinear_arith)
            requires
                remaining == 0,
        ;
    }
}

/// The head of a plain full box and the number of its entries.
proof fn lemma_head(cursor: ByteCursor, message: &'static str)
    requires
        cursor.error is None,
        0 <= cursor.position,
        plain_full_box(cursor, message).error is None,
    ensures
        stands(plain_full_box(cursor, message), cursor.content, cursor.position + 4, cursor.end),
{
    law_version_and_flags_are_read(cursor);
}

/// A table of sizes has one size for all samples, or one number for each of them.
pub proof fn law_sizes_are_listed(file: FileView, header: BoxHeader, sizes: Seq<u64>)
    requires
        payload_of(header) is Ok,
        0 <= payload_of(header)->Ok_0.0,
        header.kind.code != STZ2,
        sizes_of(file, header) == Ok::<Seq<u64>, Mp4Error>(sizes),
    ensures
        ({
            let start = payload_of(header)->Ok_0.0;
            let same = word(file.content, start + 4);
            &&& sizes.len() == word(file.content, start + 8)
            &&& forall|i: int|
                0 <= i < sizes.len() ==> #[trigger] sizes[i] == if same != 0 {
                    same
                } else {
                    word(file.content, start + 12 + 4 * i)
                }
        }),
{
    let cursor = payload_cursor(file, header);
    let message = "unsupported stsz version or flags";
    let first = plain_full_box(cursor, message);
    assert(first.error is None);
    lemma_head(cursor, message);
    law_word_is_read(first);
    let second = first.u32().1;
    law_word_is_read(second);
    let third = second.u32().1;
    let count = second.u32().0;
    if first.u32().0 == 0 {
        lemma_numbers(third, Field::Four, count as int, Seq::empty());
    }
}

/// Nibbles are read two to a byte, the higher one first.
proof fn lemma_nibbles(cursor: ByteCursor, remaining: int, values: Seq<u64>)
    requires
        cursor.error is None,
        0 <= cursor.position,
        0 <= remaining,
        nibbles(cursor, remaining, values).1.error is None,
    ensures
        ({
            let read = nibbles(cursor, remaining, values).0;
            &&& read.len() == values.len() + remaining
            &&& forall|i: int| 0 <= i < values.len() ==> #[trigger] read[i] == values[i]
            &&& forall|i: int|
                values.len() <= i < read.len() ==> #[trigger] read[i] == if (i - values.len()) % 2
                    == 0 {
                    cursor.content[cursor.position + (i - values.len()) / 2] / 16
                } else {
                    cursor.content[cursor.position + (i - values.len()) / 2] % 16
                }
        }),
    decreases remaining,
{
    if remaining > 0 {
        let (packed, next) = cursor.u8();
        assert(cursor.bytes(1).1 == next);
        if next.error is Some {
            reveal_with_fuel(nibbles, 2);
        }
        assert(cursor.bytes(1).0 == cursor.content.subrange(cursor.position, cursor.position + 1));
        assert(stands(next, cursor.content, cursor.position + 1, cursor.end));
        let high = values.push((packed / 16) as u64);
        let both = high.push((packed % 16) as u64);
        let read = nibbles(cursor, remaining, values).0;
        if remaining == 1 {
            lemma_nibbles(next, 0, high);
            assert(read[values.len() as int] == high[values.len() as int]);
            assert forall|i: int| 0 <= i < values.len() implies #[trigger] read[i] == values[i] by {
                assert(read[i] == high[i]);
            }
        } else {
            lemma_nibbles(next, remaining - 2, both);
            assert forall|i: int| 0 <= i < values.len() implies #[trigger] read[i] == values[i] by {
                assert(read[i] == both[i]);
            }
            assert forall|i: int| values.len() <= i < read.len() implies #[trigger] read[i] == if (i
                - values.len()) % 2 == 0 {
                cursor.content[cursor.position + (i - values.len()) / 2] / 16
            } else {
                cursor.content[cursor.position + (i - values.len()) / 2] % 16
            } by {
                if i < both.len() {
                    assert(read[i] == both[i]);
                } else {
                    assert((i - both.len()) / 2 + 1 == (i - values.len()) / 2);
                    assert((i - both.len()) % 2 == (i - values.len()) % 2);
                }
            }
        }
    }
}

/// A compact table of sizes has fields of 4, 8 or 16 bits, the first in the higher half
/// of a byte where they have 4.
pub proof fn law_compact_sizes_are_listed(file: FileView, header: BoxHeader, sizes: Seq<u64>)
    requires
        payload_of(header) is Ok,
        0 <= payload_of(header)->Ok_0.0,
        header.kind.code == STZ2,
        sizes_of(file, header) == Ok::<Seq<u64>, Mp4Error>(sizes),
    ensures
        ({
            let start = payload_of(header)->Ok_0.0;
            let bits = file.content[start + 7];
            let at = start + 12;
            &&& bits == 4 || bits == 8 || bits == 16
            &&& sizes.len() == word(file.content, start + 8)
            &&& forall|i: int|
                0 <= i < sizes.len() ==> #[trigger] sizes[i] == if bits == 4 {
                    if i % 2 == 0 {
                        file.content[at + i / 2] as int / 16
                    } else {
                        file.content[at + i / 2] as int % 16
                    }
                } else if bits == 8 {
                    file.content[at + i] as int
                } else {
                    file.content[at + 2 * i] * 0x100 + file.content[at + 2 * i + 1]
                }
        }),
{
    let cursor = payload_cursor(file, header);
    let start = cursor.position;
    let message = "unsupported stz2 version or flags";
    let first = plain_full_box(cursor, message);
    assert(first.error is None);
    lemma_head(cursor, message);
    let second = first.u24().1;
    assert(second.error is None);
    assert(first.bytes(3).0 == file.content.subrange(start + 4, start + 7));
    assert(stands(second, file.content, start + 7, cursor.end));
    let (bits, third) = second.u8();
    assert(third.error is None);
    assert(second.bytes(1).0 == file.content.subrange(start + 7, start + 8));
    assert(stands(third, file.content, start + 8, cursor.end));
    law_word_is_read(third);
    let fourth = third.u32().1;
    let count = third.u32().0 as int;
    if bits == 4 {
        lemma_nibbles(fourth, count, Seq::empty());
    } else if bits == 8 {
        lemma_numbers(fourth, Field::One, count, Seq::empty());
    } else {
        lemma_numbers(fourth, Field::Two, count, Seq::empty());
    }
}

/// The offsets of chunks are listed, in 4 bytes each or in 8.
pub proof fn law_chunk_offsets_are_listed(file: FileView, header: BoxHeader, offsets: Seq<u64>)
    requires
        payload_of(header) is Ok,
        0 <= payload_of(header)->Ok_0.0,
        chunk_offsets_of(file, header) == Ok::<Seq<u64>, Mp4Error>(offsets),
    ensures
        ({
            let start = payload_of(header)->Ok_0.0;
            &&& offsets.len() == word(file.content, start + 4)
            &&& forall|i: int|
                0 <= i < offsets.len() ==> #[trigger] offsets[i] == if header.kind.code
                    == 0x7374_636f {
                    word(file.content, start + 8 + 4 * i)
                } else {
                    long(file.content, start + 8 + 8 * i)
                }
        }),
{
    let cursor = payload_cursor(file, header);
    let message = "unsupported chunk-offset version or flags";
    let first = plain_full_box(cursor, message);
    assert(first.error is None);
    lemma_head(cursor, message);
    law_word_is_read(first);
    let second = first.u32().1;
    let count = first.u32().0 as int;
    if header.kind.code == STCO {
        lemma_numbers(second, Field::Four, count, Seq::empty());
    } else {
        lemma_numbers(second, Field::Eight, count, Seq::empty());
    }
}

/// The entries of a chunk map are read one after the other.
proof fn lemma_chunk_entries(
    cursor: ByteCursor,
    description_count: int,
    remaining: int,
    entries: Seq<SampleToChunkEntry>,
)
    requires
        cursor.error is None,
        0 <= cursor.position,
        0 <= remaining,
        chunk_entries_syntax(cursor, description_count, remaining, entries).1.error is None,
    ensures
        ({
            let read = chunk_entries_syntax(cursor, description_count, remaining, entries).0;
            &&& read.len() == entries.len() + remaining
            &&& forall|i: int| 0 <= i < entries.len() ==> #[trigger] read[i] == entries[i]
            &&& forall|i: int|
                entries.len() <= i < read.len() ==> {
                    let at = cursor.position + 12 * (i - entries.len());
                    &&& (#[trigger] read[i]).first_chunk == word(cursor.content, at)
                    &&& read[i].samples_per_chunk == word(cursor.content, at + 4)
                    &&& read[i].description_index == word(cursor.content, at + 8)
                    &&& 1 <= read[i].description_index <= description_count
                }
        }),
    decreases remaining,
{
    if remaining > 0 {
        let (entry, next) = chunk_entry_syntax(cursor, description_count, entries);
        if next.error is Some {
            reveal_with_fuel(chunk_entries_syntax, 2);
        }
        assert(next.error is None);
        law_word_is_read(cursor);
        law_word_is_read(cursor.u32().1);
        law_word_is_read(cursor.u32().1.u32().1);
        let more = entries.push(entry);
        lemma_chunk_entries(next, description_count, remaining - 1, more);
        let read = chunk_entries_syntax(cursor, description_count, remaining, entries).0;
        assert(read[entries.len() as int] == more[entries.len() as int]);
        assert forall|i: int| 0 <= i < entries.len() implies #[trigger] read[i] == entries[i] by {
            assert(read[i] == more[i]);
        }
    }
}

/// A chunk map lists from which chunk on how many samples a chunk has, and which
/// description they have.
pub proof fn law_chunk_maps_are_listed(
    file: FileView,
    header: BoxHeader,
    description_count: int,
    entries: Seq<SampleToChunkEntry>,
)
    requires
        payload_of(header) is Ok,
        0 <= payload_of(header)->Ok_0.0,
        chunk_map_of(file, header, description_count) == Ok::<Seq<SampleToChunkEntry>, Mp4Error>(
            entries,
        ),
    ensures
        ({
            let start = payload_of(header)->Ok_0.0;
            &&& entries.len() == word(file.content, start + 4)
            &&& forall|i: int|
                0 <= i < entries.len() ==> {
                    let at = start + 8 + 12 * i;
                    &&& (#[trigger] entries[i]).first_chunk == word(file.content, at)
                    &&& entries[i].samples_per_chunk == word(file.content, at + 4)
                    &&& entries[i].description_index == word(file.content, at + 8)
                    &&& 1 <= entries[i].description_index <= description_count
                }
        }),
{
    let cursor = payload_cursor(file, header);
    let message = "unsupported stsc version or flags";
    let first = plain_full_box(cursor, message);
    assert(first.error is None);
    lemma_head(cursor, message);
    law_word_is_read(first);
    lemma_chunk_entries(first.u32().1, description_count, first.u32().0 as int, Seq::empty());
}

/// The numbers of sync samples are read one after the other.
proof fn lemma_sync_numbers(cursor: ByteCursor, sample_count: int, remaining: int, values: Seq<u64>)
    requires
        cursor.error is None,
        0 <= cursor.position,
        0 <= remaining,
        sync_numbers_syntax(cursor, sample_count, remaining, values).1.error is None,
    ensures
        ({
            let read = sync_numbers_syntax(cursor, sample_count, remaining, values).0;
            &&& read.len() == values.len() + remaining
            &&& forall|i: int| 0 <= i < values.len() ==> #[trigger] read[i] == values[i]
            &&& forall|i: int|
                values.len() <= i < read.len() ==> #[trigger] read[i] == word(
                    cursor.content,
                    cursor.position + 4 * (i - values.len()),
                )
        }),
    decreases remaining,
{
    if remaining > 0 {
        let (value, next) = cursor.u32();
        let previous = if values.len() == 0 {
            0
        } else {
            values.last()
        };
        let checked = next.require(
            previous < value <= sample_count,
            Mp4Error::InvalidData("stss sample numbers are not strictly increasing and in range"),
        );
        if checked.error is Some {
            reveal_with_fuel(sync_numbers_syntax, 2);
        }
        assert(checked.error is None);
        law_word_is_read(cursor);
        let more = values.push(value as u64);
        lemma_sync_numbers(next, sample_count, remaining - 1, more);
        let read = sync_numbers_syntax(cursor, sample_count, remaining, values).0;
        assert(read[values.len() as int] == more[values.len() as int]);
        assert forall|i: int| 0 <= i < values.len() implies #[trigger] read[i] == values[i] by {
            assert(read[i] == more[i]);
        }
    }
}

/// The key frames are the samples whose numbers are listed, counted from one, or all
/// where there is no list.
pub proof fn law_key_frames_are_listed(
    file: FileView,
    header: Option<BoxHeader>,
    sample_count: int,
    sync: Seq<bool>,
    index: int,
)
    requires
        header matches Some(header) ==> payload_of(header) is Ok && 0 <= payload_of(header)->Ok_0.0,
        sync_of(file, header, sample_count) == Ok::<Seq<bool>, Mp4Error>(sync),
        0 <= index < sample_count <= u32::MAX,
    ensures
        sync.len() == sample_count,
        header is None ==> sync[index],
        header matches Some(header) ==> {
            let start = payload_of(header)->Ok_0.0;
            sync[index] <==> exists|i: int|
                0 <= i < word(file.content, start + 4) && #[trigger] word(
                    file.content,
                    start + 8 + 4 * i,
                ) == index + 1
        },
{
    if let Some(header) = header {
        let cursor = payload_cursor(file, header);
        let start = cursor.position;
        let message = "unsupported stss version or flags";
        let first = plain_full_box(cursor, message);
        assert(first.error is None);
        lemma_head(cursor, message);
        law_word_is_read(first);
        let second = first.u32().1;
        let count = first.u32().0 as int;
        lemma_sync_numbers(second, sample_count, count, Seq::empty());
        let read = sync_syntax(cursor, sample_count).0;
        if sync[index] {
            let i = choose|i: int| 0 <= i < read.len() && read[i] == (index + 1) as u64;
            assert(word(file.content, start + 8 + 4 * i) == index + 1);
        }
        if exists|i: int|
            0 <= i < word(file.content, start + 4) && #[trigger] word(
                file.content,
                start + 8 + 4 * i,
            ) == index + 1 {
            let i = choose|i: int|
                0 <= i < word(file.content, start + 4) && #[trigger] word(
                    file.content,
                    start + 8 + 4 * i,
                ) == index + 1;
            assert(read[i] == (index + 1) as u64);
            assert(read.contains((index + 1) as u64));
        }
    }
}

/// How many samples the first runs of a table have, each with its number of samples
/// followed by their value.
pub open spec fn samples_before(content: Seq<u8>, at: int, run: int) -> int
    decreases run,
{
    if run <= 0 {
        0
    } else {
        samples_before(content, at, run - 1) + word(content, at + 8 * (run - 1))
    }
}

/// Runs are read one after the other.
proof fn lemma_runs(
    cursor: ByteCursor,
    signed: bool,
    empty: &'static str,
    remaining: int,
    runs: Seq<Run>,
)
    requires
        cursor.error is None,
        0 <= cursor.position,
        0 <= remaining,
        runs_syntax(cursor, signed, empty, remaining, runs).1.error is None,
    ensures
        ({
            let read = runs_syntax(cursor, signed, empty, remaining, runs).0;
            &&& read.len() == runs.len() + remaining
            &&& forall|i: int| 0 <= i < runs.len() ==> #[trigger] read[i] == runs[i]
            &&& forall|i: int|
                runs.len() <= i < read.len() ==> {
                    let at = cursor.position + 8 * (i - runs.len());
                    &&& (#[trigger] read[i]).count == word(cursor.content, at)
                    &&& read[i].value == if signed {
                        two_complement(word(cursor.content, at + 4))
                    } else {
                        word(cursor.content, at + 4)
                    }
                }
        }),
    decreases remaining,
{
    if remaining > 0 {
        let (run, next) = run_syntax(cursor, signed, empty);
        if next.error is Some {
            reveal_with_fuel(runs_syntax, 2);
        }
        assert(next.error is None);
        law_word_is_read(cursor);
        law_word_is_read(cursor.u32().1);
        let more = runs.push(run);
        lemma_runs(next, signed, empty, remaining - 1, more);
        let read = runs_syntax(cursor, signed, empty, remaining, runs).0;
        assert(read[runs.len() as int] == more[runs.len() as int]);
        assert forall|i: int| 0 <= i < runs.len() implies #[trigger] read[i] == runs[i] by {
            assert(read[i] == more[i]);
        }
    }
}

/// Each sample of a run has the value of the run.
proof fn lemma_expanded(runs: Seq<Run>, content: Seq<u8>, at: int)
    requires
        forall|i: int| 0 <= i < runs.len() ==> (#[trigger] runs[i]).count == word(content, at + 8 * i),
    ensures
        expanded(runs).len() == samples_before(content, at, runs.len() as int),
        forall|run: int, i: int|
            #![trigger expanded(runs)[samples_before(content, at, run) + i], runs[run]]
            0 <= run < runs.len() && 0 <= i < runs[run].count ==> expanded(
                runs,
            )[samples_before(content, at, run) + i] == runs[run].value && samples_before(
                content,
                at,
                run,
            ) + i < expanded(runs).len() && 0 <= samples_before(content, at, run),
    decreases runs.len(),
{
    if runs.len() > 0 {
        let fewer = runs.drop_last();
        assert forall|i: int| 0 <= i < fewer.len() implies (#[trigger] fewer[i]).count == word(
            content,
            at + 8 * i,
        ) by {
            assert(fewer[i] == runs[i]);
        }
        lemma_expanded(fewer, content, at);
        let last = runs.len() - 1;
        assert(runs[last].count == word(content, at + 8 * last));
        assert forall|run: int, i: int|
            #![trigger expanded(runs)[samples_before(content, at, run) + i], runs[run]]
            0 <= run < runs.len() && 0 <= i < runs[run].count implies expanded(
            runs,
        )[samples_before(content, at, run) + i] == runs[run].value && samples_before(
            content,
            at,
            run,
        ) + i < expanded(runs).len() && 0 <= samples_before(content, at, run) by {
            if run < last {
                assert(fewer[run] == runs[run]);
                assert(expanded(fewer)[samples_before(content, at, run) + i] == fewer[run].value);
            }
        }
    }
}

/// A table of durations gives the samples of its first run the first duration, those of
/// the second run the second, and so on.
pub proof fn law_durations_are_listed_in_runs(
    file: FileView,
    header: BoxHeader,
    sample_count: int,
    durations: Seq<i64>,
    run: int,
    i: int,
)
    requires
        payload_of(header) is Ok,
        0 <= payload_of(header)->Ok_0.0,
        durations_of(file, header, sample_count) == Ok::<Seq<i64>, Mp4Error>(durations),
        0 <= run < word(file.content, payload_of(header)->Ok_0.0 + 4),
        0 <= i < word(file.content, payload_of(header)->Ok_0.0 + 8 + 8 * run),
    ensures
        ({
            let at = payload_of(header)->Ok_0.0 + 8;
            let index = samples_before(file.content, at, run) + i;
            &&& durations.len() == samples_before(file.content, at, word(file.content, at - 4))
            &&& 0 <= index < durations.len()
            &&& durations[index] == word(file.content, at + 8 * run + 4)
        }),
{
    let cursor = payload_cursor(file, header);
    let message = "unsupported stts version or flags";
    let first = plain_full_box(cursor, message);
    assert(first.error is None);
    lemma_head(cursor, message);
    law_word_is_read(first);
    let second = first.u32().1;
    let count = first.u32().0 as int;
    let empty = "stts entry has zero samples";
    lemma_runs(second, false, empty, count, Seq::empty());
    let runs = runs_syntax(second, false, empty, count, Seq::empty()).0;
    lemma_expanded(runs, file.content, second.position);
    assert(runs[run].count == word(file.content, second.position + 8 * run));
    assert(expanded(runs)[samples_before(file.content, second.position, run) + i]
        == runs[run].value);
}

/// A table of composition offsets gives the samples of its first run the first offset,
/// and so on, as unsigned numbers in version 0 and signed ones in version 1.
pub proof fn law_composition_offsets_are_listed_in_runs(
    file: FileView,
    header: BoxHeader,
    sample_count: int,
    offsets: Seq<i64>,
    run: int,
    i: int,
)
    requires
        payload_of(header) is Ok,
        0 <= payload_of(header)->Ok_0.0,
        compositions_of(file, Some(header), sample_count) == Ok::<Seq<i64>, Mp4Error>(offsets),
        0 <= run < word(file.content, payload_of(header)->Ok_0.0 + 4),
        0 <= i < word(file.content, payload_of(header)->Ok_0.0 + 8 + 8 * run),
    ensures
        ({
            let at = payload_of(header)->Ok_0.0 + 8;
            let index = samples_before(file.content, at, run) + i;
            let value = word(file.content, at + 8 * run + 4);
            &&& offsets.len() == samples_before(file.content, at, word(file.content, at - 4))
            &&& 0 <= index < offsets.len()
            &&& offsets[index] == if file.content[at - 8] == 0 {
                value
            } else {
                two_complement(value)
            }
        }),
{
    let cursor = payload_cursor(file, header);
    let first = cursor.full_box().1;
    assert(first.error is None);
    law_version_and_flags_are_read(cursor);
    law_word_is_read(first);
    let second = first.u32().1;
    let count = first.u32().0 as int;
    let empty = "ctts entry has zero samples";
    let signed = cursor.full_box().0.0 == 1;
    lemma_runs(second, signed, empty, count, Seq::empty());
    let runs = runs_syntax(second, signed, empty, count, Seq::empty()).0;
    lemma_expanded(runs, file.content, second.position);
    assert(runs[run].count == word(file.content, second.position + 8 * run));
    assert(expanded(runs)[samples_before(file.content, second.position, run) + i]
        == runs[run].value);
}

/// Without a table of composition offsets, samples are presented when they are decoded.
pub proof fn law_no_composition_offsets(file: FileView, sample_count: nat, index: int)
    requires
        0 <= index < sample_count,
    ensures
        compositions_of(file, None, sample_count as int) matches Ok(offsets) && offsets.len()
            == sample_count && offsets[index] == 0,
{
}

/// The entry of a chunk is the last one that begins no later.
proof fn lemma_entry_for(entries: Seq<SampleToChunkEntry>, chunk: int, count: int)
    requires
        1 <= count <= entries.len(),
    ensures
        0 <= entry_for(entries, chunk, count) < count,
        forall|i: int|
            entry_for(entries, chunk, count) < i < count ==> (#[trigger] entries[i]).first_chunk
                > chunk,
        entry_for(entries, chunk, count) == 0 || entries[entry_for(
            entries,
            chunk,
            count,
        )].first_chunk <= chunk,
    decreases count,
{
    if !(count <= 1 || entries[count - 1].first_chunk <= chunk) {
        lemma_entry_for(entries, chunk, count - 1);
    }
}

/// The samples of a chunk follow each other from its offset on.
proof fn lemma_placed_in_chunk(
    sizes: Seq<u64>,
    file_length: int,
    description: usize,
    offset: int,
    remaining: int,
    places: Seq<(u64, usize)>,
)
    requires
        0 <= remaining,
        0 <= offset,
        places.len() <= sizes.len(),
        placed_in_chunk(sizes, file_length, description, offset, remaining, places).error is None,
    ensures
        ({
            let after = placed_in_chunk(
                sizes,
                file_length,
                description,
                offset,
                remaining,
                places,
            ).places;
            let before = places.len() as int;
            &&& after.len() == before + remaining
            &&& after.len() <= sizes.len()
            &&& forall|i: int| 0 <= i < before ==> #[trigger] after[i] == places[i]
            &&& remaining > 0 ==> after[before].0 == offset
            &&& forall|i: int| before <= i < after.len() ==> (#[trigger] after[i]).1 == description
            &&& forall|i: int|
                before <= i < after.len() - 1 ==> after[i + 1].0 == (#[trigger] after[i]).0
                    + sizes[i]
        }),
    decreases remaining,
{
    if remaining > 0 {
        let next = places.push((offset as u64, description));
        let end = offset + sizes[places.len() as int];
        lemma_placed_in_chunk(sizes, file_length, description, end, remaining - 1, next);
        let after = placed_in_chunk(
            sizes,
            file_length,
            description,
            offset,
            remaining,
            places,
        ).places;
        let before = places.len() as int;
        assert(after[before] == next[before]);
        assert forall|i: int| 0 <= i < before implies #[trigger] after[i] == places[i] by {
            assert(after[i] == next[i]);
        }
        assert forall|i: int| before <= i < after.len() - 1 implies after[i + 1].0 == (
        #[trigger] after[i]).0 + sizes[i] by {
            if i == before {
                assert(after[before + 1].0 == end);
            }
        }
    }
}

/// How many samples the first chunks have, each as many as its entry says.
pub open spec fn samples_in_chunks(entries: Seq<SampleToChunkEntry>, chunk: int) -> int
    decreases chunk,
{
    if chunk <= 0 {
        0
    } else {
        samples_in_chunks(entries, chunk - 1) + entries[entry_for(
            entries,
            chunk,
            entries.len() as int,
        )].samples_per_chunk
    }
}

/// A chunk has its samples: the first at its offset, each of the others behind the one
/// before, and all with the description of its entry.
pub open spec fn holds_chunk(
    places: Seq<(u64, usize)>,
    sizes: Seq<u64>,
    entries: Seq<SampleToChunkEntry>,
    chunks: Seq<u64>,
    chunk: int,
) -> bool {
    let entry = entries[entry_for(entries, chunk + 1, entries.len() as int)];
    let first = samples_in_chunks(entries, chunk);
    let next = first + entry.samples_per_chunk;
    &&& 0 <= first
    &&& next <= places.len()
    &&& entry.samples_per_chunk > 0 ==> places[first].0 == chunks[chunk]
    &&& forall|i: int|
        first <= i < next ==> (#[trigger] places[i]).1 == (entry.description_index - 1) as usize
    &&& forall|i: int|
        first <= i < next - 1 ==> places[i + 1].0 == (#[trigger] places[i]).0 + sizes[i]
}

/// The chunks from one on have their samples.
proof fn lemma_placed_from(
    sizes: Seq<u64>,
    entries: Seq<SampleToChunkEntry>,
    chunks: Seq<u64>,
    file_length: int,
    chunk: int,
    places: Seq<(u64, usize)>,
)
    requires
        0 <= chunk <= chunks.len(),
        places.len() <= sizes.len(),
        places.len() == samples_in_chunks(entries, chunk),
        forall|c: int| 0 <= c < chunk ==> #[trigger] holds_chunk(places, sizes, entries, chunks, c),
        placed_from(sizes, entries, chunks, file_length, chunk, places).error is None,
    ensures
        ({
            let after = placed_from(sizes, entries, chunks, file_length, chunk, places).places;
            &&& after.len() == samples_in_chunks(entries, chunks.len() as int)
            &&& forall|c: int|
                0 <= c < chunks.len() ==> #[trigger] holds_chunk(after, sizes, entries, chunks, c)
        }),
    decreases chunks.len() - chunk,
{
    if chunk < chunks.len() {
        let entry = entries[entry_for(entries, chunk + 1, entries.len() as int)];
        let description = (entry.description_index - 1) as usize;
        let after = placed_in_chunk(
            sizes,
            file_length,
            description,
            chunks[chunk] as int,
            entry.samples_per_chunk as int,
            places,
        );
        lemma_placed_in_chunk(
            sizes,
            file_length,
            description,
            chunks[chunk] as int,
            entry.samples_per_chunk as int,
            places,
        );
        assert forall|c: int| 0 <= c < chunk + 1 implies #[trigger] holds_chunk(
            after.places,
            sizes,
            entries,
            chunks,
            c,
        ) by {
            if c < chunk {
                assert(holds_chunk(places, sizes, entries, chunks, c));
                let other = entries[entry_for(entries, c + 1, entries.len() as int)];
                let first = samples_in_chunks(entries, c);
                let next = first + other.samples_per_chunk;
                assert(forall|i: int|
                    first <= i < next ==> #[trigger] after.places[i] == places[i]);
                assert forall|i: int| first <= i < next - 1 implies after.places[i + 1].0 == (
                #[trigger] after.places[i]).0 + sizes[i] by {
                    assert(places[i + 1].0 == places[i].0 + sizes[i]);
                    assert(after.places[i + 1] == places[i + 1]);
                }
            }
        }
        lemma_placed_from(sizes, entries, chunks, file_length, chunk + 1, after.places);
    }
}

/// The samples of a track fill its chunks one after the other: a chunk has as many as the
/// last entry of the chunk map says that begins no later, the first of them lies at the
/// offset of the chunk, and each of the others behind the one before.
pub proof fn law_samples_fill_their_chunks(
    sizes: Seq<u64>,
    entries: Seq<SampleToChunkEntry>,
    chunks: Seq<u64>,
    file_length: int,
    places: Seq<(u64, usize)>,
    chunk: int,
)
    requires
        placed(sizes, entries, chunks, file_length) == Ok::<Seq<(u64, usize)>, Mp4Error>(places),
        entries.len() > 0,
        0 <= chunk < chunks.len(),
    ensures
        holds_chunk(places, sizes, entries, chunks, chunk),
        places.len() == sizes.len(),
        ({
            let entry = entry_for(entries, chunk + 1, entries.len() as int);
            &&& 0 <= entry < entries.len()
            &&& entry == 0 || entries[entry].first_chunk <= chunk + 1
            &&& forall|i: int|
                entry < i < entries.len() ==> (#[trigger] entries[i]).first_chunk > chunk + 1
        }),
{
    lemma_placed_from(sizes, entries, chunks, file_length, 0, Seq::empty());
    lemma_entry_for(entries, chunk + 1, entries.len() as int);
}

/// A sample has the size, duration, key-frame mark, place and description of its tables.
/// The first is decoded at zero, each of the others when the one before has ended, and it
/// is presented later by its composition offset.
pub proof fn law_samples_join_their_tables(
    file_length: int,
    sizes: Seq<u64>,
    durations: Seq<i64>,
    compositions: Seq<i64>,
    sync: Seq<bool>,
    entries: Seq<SampleToChunkEntry>,
    chunks: Seq<u64>,
    index: int,
)
    requires
        joined(file_length, sizes, durations, compositions, sync, entries, chunks) is Ok,
        0 <= index < sizes.len(),
        forall|i: int| 0 <= i < sizes.len() ==> 0 <= #[trigger] durations[i] <= u32::MAX,
        forall|i: int| 0 <= i < sizes.len() ==> #[trigger] sizes[i] <= u32::MAX,
    ensures
        ({
            let samples = joined(
                file_length,
                sizes,
                durations,
                compositions,
                sync,
                entries,
                chunks,
            )->Ok_0;
            let places = placed(sizes, entries, chunks, file_length)->Ok_0;
            let sample = samples[index];
            &&& samples.len() == sizes.len()
            &&& sample.size == sizes[index]
            &&& sample.duration == durations[index]
            &&& sample.sync == sync[index]
            &&& sample.offset == places[index].0
            &&& sample.description_index == places[index].1
            &&& sample.presentation_time - sample.decode_time == compositions[index]
            &&& index == 0 ==> sample.decode_time == 0
            &&& index > 0 ==> sample.decode_time == samples[index - 1].decode_time + samples[index
                - 1].duration
        }),
{
    lemma_no_time_error(durations, compositions, index, sizes.len() as int);
    if index > 0 {
        lemma_no_time_error(durations, compositions, index - 1, sizes.len() as int);
    }
}

/// Where no sample lacks times, one of them has its times.
proof fn lemma_no_time_error(durations: Seq<i64>, compositions: Seq<i64>, index: int, count: int)
    requires
        first_error(time_errors(durations, compositions), count) is None,
        0 <= index < count,
    ensures
        i64::MIN <= decode_time_at(durations, index) <= i64::MAX,
        i64::MIN <= decode_time_at(durations, index) + compositions[index] <= i64::MAX,
    decreases count,
{
    let errors = time_errors(durations, compositions);
    if index < count - 1 {
        lemma_no_time_error(durations, compositions, index, count - 1);
    } else {
        assert(errors(index) is None);
    }
}

} // verus!
