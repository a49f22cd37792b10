//! Laws of movie fragments.

use vstd::prelude::*;

use super::bytes::{
    flagged, flags_at, four_if, law_long_is_read, law_version_and_flags_are_read, law_word_is_read,
    long, stands, two_complement, word,
};
use crate::mp4::boxes::{
    children_of, first_of, header_at, payload_cursor, payload_of, BoxHeader, FileView,
};
use crate::mp4::error::Mp4Error;
use crate::mp4::fragment::{
    end_of, ends_of, extends_for, extends_from, fragment_context, fragment_from, movie_fragment_of,
    movie_fragments_scan, number_or, optional_i32, optional_u32, optional_u64, run_fields,
    run_header, run_of, run_sample, run_samples, run_start, runs_of, set_in, tfdt_of, tfhd_of,
    track_fragment_of, track_fragments_scan, track_from_id, trex_of, FragmentState, ProgressView,
    RunContext, RunHeader, RunsView, TrackExtends, TrackFragmentHeader,
};
use crate::mp4::reader::ByteCursor;
use crate::mp4::sample_table::Sample;
use crate::mp4::track::TrackView;

verus! {

/// How long what a run says before its samples is.
pub open spec fn run_head_length(flags: int) -> int {
    8 + four_if(flags, 0x1) + four_if(flags, 0x4)
}

/// How long what a run says of one sample is.
pub open spec fn run_entry_length(flags: int) -> int {
    four_if(flags, 0x100) + four_if(flags, 0x200) + four_if(flags, 0x400) + four_if(flags, 0x800)
}

/// A sample is what its entry in a run says, or the defaults where that says nothing:
/// its duration, its size, whether it is a key frame, and how much later than it is
/// decoded it is presented. `first_flags` stands in for the flags of the first sample.
pub open spec fn is_entry(
    sample: Sample,
    content: Seq<u8>,
    entry: int,
    version: int,
    flags: int,
    first_flags: Option<int>,
    context: RunContext,
) -> bool {
    let size_at = entry + four_if(flags, 0x100);
    let flags_at = size_at + four_if(flags, 0x200);
    let offset_at = flags_at + four_if(flags, 0x400);
    &&& if flagged(flags, 0x100) {
        sample.duration == word(content, entry)
    } else {
        context.default_duration == Some(sample.duration)
    }
    &&& if flagged(flags, 0x200) {
        sample.size == word(content, size_at)
    } else {
        context.default_size == Some(sample.size)
    }
    &&& if flagged(flags, 0x400) {
        sample.sync == !flagged(word(content, flags_at), 0x1_0000)
    } else if first_flags is Some {
        sample.sync == !flagged(first_flags->0, 0x1_0000)
    } else {
        context.default_flags is Some && sample.sync == !flagged(
            context.default_flags->0 as int,
            0x1_0000,
        )
    }
    &&& sample.presentation_time - sample.decode_time == if !flagged(flags, 0x800) {
        0
    } else if version == 0 {
        word(content, offset_at)
    } else {
        two_complement(word(content, offset_at))
    }
    &&& sample.description_index == context.description_index
    &&& sample.duration > 0
    &&& sample.size > 0
}

/// Masks pick flags out by their values.
proof fn lemma_masks(flags: u32)
    by (bit_vector)
    ensures
        (flags & 0x1u32 != 0) == (flags / 0x1u32 % 2 == 1),
        (flags & 0x2u32 != 0) == (flags / 0x2u32 % 2 == 1),
        (flags & 0x4u32 != 0) == (flags / 0x4u32 % 2 == 1),
        (flags & 0x8u32 != 0) == (flags / 0x8u32 % 2 == 1),
        (flags & 0x10u32 != 0) == (flags / 0x10u32 % 2 == 1),
        (flags & 0x20u32 != 0) == (flags / 0x20u32 % 2 == 1),
        (flags & 0x100u32 != 0) == (flags / 0x100u32 % 2 == 1),
        (flags & 0x200u32 != 0) == (flags / 0x200u32 % 2 == 1),
        (flags & 0x400u32 != 0) == (flags / 0x400u32 % 2 == 1),
        (flags & 0x800u32 != 0) == (flags / 0x800u32 % 2 == 1),
        (flags & 0x1_0000u32 != 0) == (flags / 0x1_0000u32 % 2 == 1),
        (flags & 0x2_0000u32 != 0) == (flags / 0x2_0000u32 % 2 == 1),
{
}

/// Flags are set as masks pick them out.
proof fn lemma_flags(flags: u32)
    ensures
        set_in(flags, 0x1) == flagged(flags as int, 0x1),
        set_in(flags, 0x2) == flagged(flags as int, 0x2),
        set_in(flags, 0x4) == flagged(flags as int, 0x4),
        set_in(flags, 0x8) == flagged(flags as int, 0x8),
        set_in(flags, 0x10) == flagged(flags as int, 0x10),
        set_in(flags, 0x20) == flagged(flags as int, 0x20),
        set_in(flags, 0x100) == flagged(flags as int, 0x100),
        set_in(flags, 0x200) == flagged(flags as int, 0x200),
        set_in(flags, 0x400) == flagged(flags as int, 0x400),
        set_in(flags, 0x800) == flagged(flags as int, 0x800),
        set_in(flags, 0x1_0000) == flagged(flags as int, 0x1_0000),
        set_in(flags, 0x2_0000) == flagged(flags as int, 0x2_0000),
{
    lemma_masks(flags);
    reveal(flagged);
}

/// One sample of a run is what its entry says, and stands where the samples before it
/// end, in the file and in time.
proof fn lemma_run_sample(
    cursor: ByteCursor,
    file_length: int,
    header: RunHeader,
    context: RunContext,
    index: int,
    progress: ProgressView,
)
    requires
        cursor.error is None,
        0 <= cursor.position,
        run_sample(cursor, file_length, header, context, index, progress).1.error is None,
    ensures
        ({
            let (next, behind) = run_sample(cursor, file_length, header, context, index, progress);
            let sample = next.samples.last();
            let flags = header.flags as int;
            &&& next.samples == progress.samples.push(sample)
            &&& is_entry(
                sample,
                cursor.content,
                cursor.position,
                header.version as int,
                flags,
                if index == 0 && header.first_sample_flags is Some {
                    Some(header.first_sample_flags->0 as int)
                } else {
                    None
                },
                context,
            )
            &&& sample.offset == progress.offset
            &&& sample.decode_time == progress.decode_time
            &&& next.offset == sample.offset + sample.size
            &&& next.decode_time == sample.decode_time + sample.duration
            &&& stands(
                behind,
                cursor.content,
                cursor.position + run_entry_length(flags),
                cursor.end,
            )
            &&& next.offset <= file_length
        }),
{
    lemma_flags(header.flags);
    let first = cursor;
    if set_in(header.flags, 0x100) {
        law_word_is_read(first);
    }
    let second = number_or(
        first,
        set_in(header.flags, 0x100),
        context.default_duration,
        "fragment sample has no duration",
    ).1;
    assert(second.error is None);
    if set_in(header.flags, 0x200) {
        law_word_is_read(second);
    }
    let third = number_or(
        second,
        set_in(header.flags, 0x200),
        context.default_size,
        "fragment sample has no size",
    ).1;
    assert(third.error is None);
    if set_in(header.flags, 0x400) {
        law_word_is_read(third);
    }
    let fields = run_fields(cursor, header, context, index).0;
    lemma_flags(fields.flags);
    let fourth = number_or(
        third,
        set_in(header.flags, 0x400),
        if index == 0 && header.first_sample_flags is Some {
            header.first_sample_flags
        } else {
            context.default_flags
        },
        "fragment sample has no dependency flags",
    ).1;
    assert(fourth.error is None);
    if set_in(header.flags, 0x800) {
        law_word_is_read(fourth);
    }
}

/// The samples of a run from one on are what their entries say.
proof fn lemma_run_samples(
    cursor: ByteCursor,
    file_length: int,
    header: RunHeader,
    context: RunContext,
    index: int,
    progress: ProgressView,
)
    requires
        cursor.error is None,
        0 <= cursor.position,
        0 <= index <= header.count,
        run_samples(cursor, file_length, header, context, index, progress).1.error is None,
    ensures
        ({
            let (after, behind) = run_samples(
                cursor,
                file_length,
                header,
                context,
                index,
                progress,
            );
            let before = progress.samples.len();
            let flags = header.flags as int;
            let length = run_entry_length(flags);
            &&& after.samples.len() == before + header.count - index
            &&& forall|i: int|
                0 <= i < before ==> #[trigger] after.samples[i] == progress.samples[i]
            &&& forall|i: int|
                index <= i < header.count ==> is_entry(
                    #[trigger] after.samples[before + i - index],
                    cursor.content,
                    cursor.position + (i - index) * length,
                    header.version as int,
                    flags,
                    if i == 0 && header.first_sample_flags is Some {
                        Some(header.first_sample_flags->0 as int)
                    } else {
                        None
                    },
                    context,
                )
            &&& index < header.count ==> after.samples[before as int].offset == progress.offset
                && after.samples[before as int].decode_time == progress.decode_time
            &&& forall|i: int|
                before <= i < after.samples.len() - 1 ==> {
                    let sample = #[trigger] after.samples[i];
                    let next = after.samples[i + 1];
                    next.offset == sample.offset + sample.size && next.decode_time
                        == sample.decode_time + sample.duration
                }
            &&& if index < header.count {
                let last = after.samples.last();
                after.offset == last.offset + last.size && after.decode_time == last.decode_time
                    + last.duration
            } else {
                after.offset == progress.offset && after.decode_time == progress.decode_time
            }
            &&& stands(
                behind,
                cursor.content,
                cursor.position + (header.count - index) * length,
                cursor.end,
            )
        }),
    decreases header.count - index,
{
    let flags = header.flags as int;
    let length = run_entry_length(flags);
    if index < header.count {
        let (next, behind) = run_sample(cursor, file_length, header, context, index, progress);
        if behind.error is Some {
            reveal_with_fuel(run_samples, 2);
        }
        assert(behind.error is None);
        lemma_run_sample(cursor, file_length, header, context, index, progress);
        lemma_run_samples(behind, file_length, header, context, index + 1, next);
        let after = run_samples(cursor, file_length, header, context, index, progress).0;
        let before = progress.samples.len() as int;
        assert(after.samples[before] == next.samples[before]);
        assert forall|i: int| 0 <= i < before implies #[trigger] after.samples[i]
            == progress.samples[i] by {
            assert(after.samples[i] == next.samples[i]);
        }
        assert forall|i: int| index <= i < header.count implies is_entry(
            #[trigger] after.samples[before + i - index],
            cursor.content,
            cursor.position + (i - index) * length,
            header.version as int,
            flags,
            if i == 0 && header.first_sample_flags is Some {
                Some(header.first_sample_flags->0 as int)
            } else {
                None
            },
            context,
        ) by {
            if i == index {
                assert((i - index) * length == 0) by (nonlinear_arith)
                    requires
                        i == index,
                ;
            } else {
                assert((i - index) * length == length + (i - (index + 1)) * length)
                    by (nonlinear_arith);
                assert(after.samples[before + i - index] == after.samples[(before + 1) + i - (index
                    + 1)]);
            }
        }
        assert((header.count - index) * length == length + (header.count - (index + 1)) * length)
            by (nonlinear_arith);
        if index + 1 < header.count {
            assert(after.samples[before + 1].offset == next.offset);
        }
    } else {
        assert((header.count - index) * length == 0) by (nonlinear_arith)
            requires
                header.count == index,
        ;
    }
}

/// What a run says before its samples.
proof fn lemma_run_head(cursor: ByteCursor, sample_count: int)
    requires
        0 <= cursor.position,
        run_header(cursor, sample_count).1.error is None,
    ensures
        ({
            let (run, behind) = run_header(cursor, sample_count);
            let flags = run.flags as int;
            let start = cursor.position;
            &&& run.version == cursor.content[start]
            &&& flags == flags_at(cursor.content, start + 1)
            &&& run.count == word(cursor.content, start + 4)
            &&& run.data_offset is Some == flagged(flags, 0x1)
            &&& flagged(flags, 0x1) ==> run.data_offset->0 == two_complement(
                word(cursor.content, start + 8),
            )
            &&& run.first_sample_flags is Some == flagged(flags, 0x4)
            &&& flagged(flags, 0x4) ==> run.first_sample_flags->0 == word(
                cursor.content,
                start + 8 + four_if(flags, 0x1),
            )
            &&& stands(behind, cursor.content, start + run_head_length(flags), cursor.end)
        }),
{
    assert(cursor.error is None);
    assert(cursor.full_box().1.error is None);
    law_version_and_flags_are_read(cursor);
    let flags = cursor.full_box().0.1;
    lemma_flags(flags);
    let first = cursor.full_box().1;
    law_word_is_read(first);
    let second = first.u32().1;
    if set_in(flags, 0x1) {
        law_word_is_read(second);
    }
    let third = optional_i32(second, set_in(flags, 0x1)).1;
    if set_in(flags, 0x4) {
        law_word_is_read(third);
    }
}

/// The samples of a run are what the entries of its box say, one for each that the box
/// counts: durations, sizes and key frames, defaults where the box has none, and
/// composition offsets, which are unsigned in version 0 and signed in version 1. The
/// first of them lies at the data offset of the run, or behind the run before, and is
/// decoded when the samples before end, and each of the others follows the one before.
pub proof fn law_runs_hold_what_their_bytes_say(
    file: FileView,
    header: BoxHeader,
    context: RunContext,
    runs: RunsView,
    after: RunsView,
)
    requires
        payload_of(header) is Ok,
        0 <= payload_of(header)->Ok_0.0,
        run_of(file, header, context, runs) == Ok::<RunsView, Mp4Error>(after),
    ensures
        ({
            let start = payload_of(header)->Ok_0.0;
            let end = payload_of(header)->Ok_0.1;
            let version = file.content[start] as int;
            let flags = flags_at(file.content, start + 1);
            let count = word(file.content, start + 4);
            let before = runs.samples.len() as int;
            let entries = start + run_head_length(flags);
            &&& after.samples.len() == before + count
            &&& forall|i: int| 0 <= i < before ==> #[trigger] after.samples[i] == runs.samples[i]
            &&& forall|i: int|
                0 <= i < count ==> is_entry(
                    #[trigger] after.samples[before + i],
                    file.content,
                    entries + i * run_entry_length(flags),
                    version,
                    flags,
                    if i == 0 && flagged(flags, 0x4) {
                        Some(word(file.content, start + 8 + four_if(flags, 0x1)))
                    } else {
                        None
                    },
                    context,
                )
            &&& count > 0 ==> after.samples[before].decode_time == runs.decode_time
            &&& count > 0 && flagged(flags, 0x1) ==> after.samples[before].offset
                == context.base_data_offset + two_complement(word(file.content, start + 8))
            &&& count > 0 && !flagged(flags, 0x1) ==> runs.data_end == Some(
                after.samples[before].offset,
            )
            &&& forall|i: int|
                before <= i < after.samples.len() - 1 ==> {
                    let sample = #[trigger] after.samples[i];
                    let next = after.samples[i + 1];
                    next.offset == sample.offset + sample.size && next.decode_time
                        == sample.decode_time + sample.duration
                }
            &&& count > 0 ==> {
                let last = after.samples.last();
                after.data_end == Some((last.offset + last.size) as u64) && after.decode_time
                    == last.decode_time + last.duration
            }
            &&& count == 0 ==> after.decode_time == runs.decode_time
            &&& end == entries + count * run_entry_length(flags)
        }),
{
    let start = payload_of(header)->Ok_0.0;
    let cursor = payload_cursor(file, header);
    let count_before = runs.samples.len() as int;
    let (run, behind) = run_header(cursor, count_before);
    assert(behind.error is None);
    lemma_run_head(cursor, count_before);
    let flags = run.flags;
    let offset = run_start(run, context.base_data_offset, runs.data_end)->Ok_0;
    let progress = ProgressView { offset, decode_time: runs.decode_time, samples: runs.samples };
    lemma_run_samples(behind, file.length, run, context, 0, progress);
    let read = run_samples(behind, file.length, run, context, 0, progress).0;
    assert(after.samples == read.samples);
    assert forall|i: int| 0 <= i < run.count implies is_entry(
        #[trigger] after.samples[count_before + i],
        file.content,
        start + run_head_length(flags as int) + i * run_entry_length(flags as int),
        run.version as int,
        flags as int,
        if i == 0 && flagged(flags as int, 0x4) {
            Some(word(file.content, start + 8 + four_if(flags as int, 0x1)))
        } else {
            None
        },
        context,
    ) by {
        assert(after.samples[count_before + i] == read.samples[count_before + i - 0]);
        assert((i - 0) * run_entry_length(flags as int) == i * run_entry_length(flags as int));
    }
}

/// The defaults of a track are five numbers, one after the other.
pub proof fn law_track_defaults_are_listed(file: FileView, header: BoxHeader, entry: TrackExtends)
    requires
        payload_of(header) is Ok,
        0 <= payload_of(header)->Ok_0.0,
        trex_of(file, header) == Ok::<TrackExtends, Mp4Error>(entry),
    ensures
        ({
            let start = payload_of(header)->Ok_0.0;
            &&& entry.track_id == word(file.content, start + 4)
            &&& entry.description_index == word(file.content, start + 8)
            &&& entry.duration == word(file.content, start + 12)
            &&& entry.size == word(file.content, start + 16)
            &&& entry.flags == word(file.content, start + 20)
            &&& payload_of(header)->Ok_0.1 == start + 24
        }),
{
    let cursor = payload_cursor(file, header);
    law_version_and_flags_are_read(cursor);
    let first = cursor.full_box().1;
    law_word_is_read(first);
    let second = first.u32().1;
    law_word_is_read(second);
    let third = second.u32().1;
    law_word_is_read(third);
    let fourth = third.u32().1;
    law_word_is_read(fourth);
    let fifth = fourth.u32().1;
    law_word_is_read(fifth);
}

/// Eight bytes where a flag is set.
pub open spec fn eight_if(flags: int, flag: int) -> int {
    if flagged(flags, flag) {
        8
    } else {
        0
    }
}

/// The header of a track fragment has its track, and behind that each field that its
/// flags announce: the data base, the description, and the default duration, size and
/// flags of samples.
pub proof fn law_fragment_headers_list_what_they_announce(
    file: FileView,
    header: BoxHeader,
    fragment: TrackFragmentHeader,
)
    requires
        payload_of(header) is Ok,
        0 <= payload_of(header)->Ok_0.0,
        tfhd_of(file, header) == Ok::<TrackFragmentHeader, Mp4Error>(fragment),
    ensures
        ({
            let start = payload_of(header)->Ok_0.0;
            let flags = flags_at(file.content, start + 1);
            let described = start + 8 + eight_if(flags, 0x1);
            let lasting = described + four_if(flags, 0x2);
            let sized = lasting + four_if(flags, 0x8);
            let marked = sized + four_if(flags, 0x10);
            &&& fragment.track_id == word(file.content, start + 4)
            &&& fragment.base_data_offset is Some <==> flagged(flags, 0x1)
            &&& flagged(flags, 0x1) ==> fragment.base_data_offset->0 == long(
                file.content,
                start + 8,
            )
            &&& fragment.description_index is Some <==> flagged(flags, 0x2)
            &&& flagged(flags, 0x2) ==> fragment.description_index->0 == word(
                file.content,
                described,
            )
            &&& fragment.default_duration is Some <==> flagged(flags, 0x8)
            &&& flagged(flags, 0x8) ==> fragment.default_duration->0 == word(file.content, lasting)
            &&& fragment.default_size is Some <==> flagged(flags, 0x10)
            &&& flagged(flags, 0x10) ==> fragment.default_size->0 == word(file.content, sized)
            &&& fragment.default_flags is Some <==> flagged(flags, 0x20)
            &&& flagged(flags, 0x20) ==> fragment.default_flags->0 == word(file.content, marked)
            &&& fragment.duration_is_empty == flagged(flags, 0x1_0000)
            &&& fragment.default_base_is_moof == flagged(flags, 0x2_0000)
            &&& payload_of(header)->Ok_0.1 == marked + four_if(flags, 0x20)
        }),
{
    let cursor = payload_cursor(file, header);
    law_version_and_flags_are_read(cursor);
    let flags = cursor.full_box().0.1;
    lemma_flags(flags);
    let first = cursor.full_box().1;
    law_word_is_read(first);
    let second = first.u32().1;
    if set_in(flags, 0x1) {
        law_long_is_read(second);
    }
    let third = optional_u64(second, set_in(flags, 0x1)).1;
    if set_in(flags, 0x2) {
        law_word_is_read(third);
    }
    let fourth = optional_u32(third, set_in(flags, 0x2)).1;
    if set_in(flags, 0x8) {
        law_word_is_read(fourth);
    }
    let fifth = optional_u32(fourth, set_in(flags, 0x8)).1;
    if set_in(flags, 0x10) {
        law_word_is_read(fifth);
    }
    let sixth = optional_u32(fifth, set_in(flags, 0x10)).1;
    if set_in(flags, 0x20) {
        law_word_is_read(sixth);
    }
}

/// The decode time of a fragment is a 32-bit number in version 0 and a 64-bit one in
/// version 1.
pub proof fn law_fragment_times_are_read(file: FileView, header: BoxHeader, time: i64)
    requires
        payload_of(header) is Ok,
        0 <= payload_of(header)->Ok_0.0,
        tfdt_of(file, header) == Ok::<i64, Mp4Error>(time),
    ensures
        ({
            let start = payload_of(header)->Ok_0.0;
            time == if file.content[start] == 0 {
                word(file.content, start + 4)
            } else {
                long(file.content, start + 4)
            }
        }),
{
    let cursor = payload_cursor(file, header);
    law_version_and_flags_are_read(cursor);
    let first = cursor.full_box().1;
    if cursor.full_box().0.0 == 0 {
        law_word_is_read(first);
    } else {
        law_long_is_read(first);
    }
}

/// What a fragment says of its samples comes before what the track says of all
/// fragments. Data offsets count from the place that the fragment names, or from the
/// beginning of the movie fragment, and decoding goes on at the time that the fragment
/// names, or where the fragment before has ended.
pub proof fn law_fragments_override_the_defaults_of_their_track(
    file: FileView,
    movie_fragment: BoxHeader,
    header: TrackFragmentHeader,
    time_box: Option<BoxHeader>,
    defaults: Option<TrackExtends>,
    description_count: int,
    next: i64,
    context: RunContext,
    time: i64,
)
    requires
        header.description_index != Some(0u32),
        defaults matches Some(entry) ==> entry.description_index != 0,
        fragment_context(
            file,
            movie_fragment,
            header,
            time_box,
            defaults,
            description_count,
            next,
        ) == Ok::<(RunContext, i64), Mp4Error>((context, time)),
    ensures
        header.base_data_offset is Some ==> context.base_data_offset == header.base_data_offset->0,
        header.base_data_offset is None ==> context.base_data_offset == movie_fragment.offset
            && header.default_base_is_moof,
        header.description_index is Some ==> context.description_index + 1
            == header.description_index->0,
        header.description_index is None ==> defaults is Some && context.description_index + 1
            == defaults->0.description_index,
        context.description_index < description_count,
        header.default_duration is Some ==> context.default_duration == header.default_duration,
        header.default_duration is None && defaults is Some ==> context.default_duration == Some(
            defaults->0.duration,
        ),
        header.default_size is Some ==> context.default_size == header.default_size,
        header.default_size is None && defaults is Some ==> context.default_size == Some(
            defaults->0.size,
        ),
        header.default_flags is Some ==> context.default_flags == header.default_flags,
        header.default_flags is None && defaults is Some ==> context.default_flags == Some(
            defaults->0.flags,
        ),
        time_box is None ==> time == next,
        time_box matches Some(time_box) ==> tfdt_of(file, time_box) == Ok::<i64, Mp4Error>(time),
{
}

/// A fragment adds its samples behind those of the first track with its number, and
/// changes no other track.
pub proof fn law_fragments_extend_their_track(
    file: FileView,
    movie_fragment: BoxHeader,
    found: Seq<Seq<BoxHeader>>,
    defaults: Seq<TrackExtends>,
    state: FragmentState,
    after: FragmentState,
    track: int,
)
    requires
        fragment_from(file, movie_fragment, found, defaults, state) == Ok::<
            FragmentState,
            Mp4Error,
        >(after),
        0 <= track < state.tracks.len(),
        state.next.len() == state.tracks.len(),
    ensures
        found[0].len() > 0,
        tfhd_of(file, found[0][0]) is Ok,
        after.tracks.len() == state.tracks.len(),
        after.next.len() == state.next.len(),
        after.tracks[track].id == state.tracks[track].id,
        after.tracks[track].samples.len() >= state.tracks[track].samples.len(),
        after.tracks[track].samples.take(state.tracks[track].samples.len() as int)
            == state.tracks[track].samples,
        tfhd_of(file, found[0][0])->Ok_0.track_id != state.tracks[track].id ==> after.tracks[track]
            == state.tracks[track] && after.next[track] == state.next[track],
        found[2].len() == 0 ==> after == state,
{
    let header = tfhd_of(file, found[0][0])->Ok_0;
    lemma_track_from_id(state.tracks, header.track_id, 0);
    assert(after.tracks[track].samples.take(state.tracks[track].samples.len() as int)
        =~= state.tracks[track].samples);
}

/// The first track with a number has that number.
proof fn lemma_track_from_id(tracks: Seq<TrackView>, id: u32, index: int)
    requires
        0 <= index,
    ensures
        ({
            let found = track_from_id(tracks, id, index);
            index <= tracks.len() ==> index <= found <= tracks.len() && (found < tracks.len()
                ==> tracks[found].id == id)
        }),
    decreases tracks.len() - index,
{
    if index < tracks.len() && tracks[index].id != id {
        lemma_track_from_id(tracks, id, index + 1);
    }
}

/// Runs follow each other in time.
proof fn lemma_runs(
    file: FileView,
    boxes: Seq<BoxHeader>,
    context: RunContext,
    start: RunsView,
    count: int,
)
    requires
        runs_of(file, boxes, context, start, count) is Ok,
    ensures
        ({
            let after = runs_of(file, boxes, context, start, count)->Ok_0;
            let before = start.samples.len();
            &&& after.samples.len() >= before
            &&& after.samples.len() == before ==> after.decode_time == start.decode_time
            &&& after.samples.len() > before ==> {
                let last = after.samples.last();
                &&& after.decode_time == last.decode_time + last.duration
                &&& after.samples[before as int].decode_time == start.decode_time
            }
        }),
    decreases count,
{
    if count > 0 {
        lemma_runs(file, boxes, context, start, count - 1);
        let runs = runs_of(file, boxes, context, start, count - 1)->Ok_0;
        let after = run_of(file, boxes[count - 1], context, runs)->Ok_0;
        law_runs_hold_what_their_bytes_say(file, boxes[count - 1], context, runs, after);
        let before = start.samples.len() as int;
        if runs.samples.len() > before {
            assert(after.samples[before] == runs.samples[before]);
            if after.samples.len() == runs.samples.len() {
                assert(after.samples.last() == runs.samples.last());
            }
        }
    }
}

/// The next fragment of a track continues where its samples end.
pub proof fn law_fragments_continue_where_samples_end(
    file: FileView,
    movie_fragment: BoxHeader,
    found: Seq<Seq<BoxHeader>>,
    defaults: Seq<TrackExtends>,
    state: FragmentState,
    after: FragmentState,
    track: int,
)
    requires
        fragment_from(file, movie_fragment, found, defaults, state) == Ok::<
            FragmentState,
            Mp4Error,
        >(after),
        0 <= track < state.tracks.len(),
        state.next.len() == state.tracks.len(),
    ensures
        after.tracks[track].samples.len() > state.tracks[track].samples.len() ==> {
            let last = after.tracks[track].samples.last();
            let first = after.tracks[track].samples[state.tracks[track].samples.len() as int];
            &&& after.next[track] == last.decode_time + last.duration
            &&& found[1].len() == 0 ==> first.decode_time == state.next[track]
        },
{
    let header = tfhd_of(file, found[0][0])->Ok_0;
    lemma_track_from_id(state.tracks, header.track_id, 0);
    let index = track_from_id(state.tracks, header.track_id, 0);
    if after.tracks[track].samples.len() > state.tracks[track].samples.len() {
        assert(index == track);
        let entry = extends_for(defaults, header.track_id);
        let (context, decode_time) = fragment_context(
            file,
            movie_fragment,
            header,
            first_of(found[1]),
            entry,
            state.tracks[track].descriptions.len() as int,
            state.next[track],
        )->Ok_0;
        let start = RunsView { data_end: None, decode_time, samples: Seq::empty() };
        lemma_runs(file, found[2], context, start, found[2].len() as int);
    }
}

/// The first fragment of a track continues where the samples of its table end, and at
/// zero where there are none.
pub proof fn law_first_fragments_continue_the_table(tracks: Seq<TrackView>, track: int)
    requires
        0 <= track < tracks.len(),
        ends_of(tracks) is Ok,
    ensures
        ends_of(tracks)->Ok_0.len() == tracks.len(),
        tracks[track].samples.len() == 0 ==> ends_of(tracks)->Ok_0[track] == 0,
        tracks[track].samples.len() > 0 ==> ends_of(tracks)->Ok_0[track]
            == tracks[track].samples.last().decode_time + tracks[track].samples.last().duration,
{
    assert(end_of(tracks[track]) <= i64::MAX);
}

proof fn lemma_extends_from(defaults: Seq<TrackExtends>, track: u32, index: int)
    requires
        0 <= index <= defaults.len(),
    ensures
        ({
            let found = extends_from(defaults, track, index);
            &&& index <= found <= defaults.len()
            &&& found < defaults.len() ==> defaults[found].track_id == track
            &&& forall|i: int| index <= i < found ==> (#[trigger] defaults[i]).track_id != track
        }),
    decreases defaults.len() - index,
{
    if index < defaults.len() && defaults[index].track_id != track {
        lemma_extends_from(defaults, track, index + 1);
    }
}

/// The defaults of a track are the first with its number.
pub proof fn law_defaults_are_found_by_their_track(defaults: Seq<TrackExtends>, track: u32)
    ensures
        match extends_for(defaults, track) {
            Some(entry) => entry.track_id == track && defaults.contains(entry),
            None => forall|i: int|
                0 <= i < defaults.len() ==> (#[trigger] defaults[i]).track_id != track,
        },
{
    lemma_extends_from(defaults, track, 0);
}

/// A box of the kind that its four letters name stands at a place.
pub open spec fn box_stands(
    content: Seq<u8>,
    at: int,
    end: int,
    header: BoxHeader,
    next: int,
) -> bool {
    &&& header_at(content, at, end) == Ok::<BoxHeader, Mp4Error>(header)
    &&& at != end
    &&& 0 < header.size <= end - at
    &&& next == at + header.size
}

proof fn lemma_track_fragments(
    file: FileView,
    movie_fragment: BoxHeader,
    defaults: Seq<TrackExtends>,
    places: Seq<int>,
    headers: Seq<BoxHeader>,
    states: Seq<FragmentState>,
    done: int,
)
    requires
        0 <= done <= headers.len(),
        places.len() == headers.len() + 1,
        states.len() == headers.len() + 1,
        forall|i: int|
            0 <= i < headers.len() ==> box_stands(
                file.content,
                places[i],
                places.last(),
                #[trigger] headers[i],
                places[i + 1],
            ),
        forall|i: int|
            0 <= i < headers.len() ==> if (#[trigger] headers[i]).kind.code == 0x7472_6166 {
                track_fragment_of(file, movie_fragment, headers[i], defaults, states[i]) == Ok::<
                    FragmentState,
                    Mp4Error,
                >(states[i + 1])
            } else {
                states[i + 1] == states[i]
            },
    ensures
        track_fragments_scan(
            file,
            movie_fragment,
            places[done],
            places.last(),
            defaults,
            states[done],
        ) == Ok::<FragmentState, Mp4Error>(states.last()),
    decreases headers.len() - done,
{
    if done < headers.len() {
        let header = headers[done];
        lemma_track_fragments(
            file,
            movie_fragment,
            defaults,
            places,
            headers,
            states,
            done + 1,
        );
    }
}

/// The track fragments of a movie fragment are taken one after the other, in the order
/// of the file, and other boxes are passed over.
pub proof fn law_track_fragments_are_taken_in_turn(
    file: FileView,
    movie_fragment: BoxHeader,
    defaults: Seq<TrackExtends>,
    places: Seq<int>,
    headers: Seq<BoxHeader>,
    states: Seq<FragmentState>,
)
    requires
        places.len() == headers.len() + 1,
        states.len() == headers.len() + 1,
        children_of(file, movie_fragment) == Ok::<(int, int), Mp4Error>(
            (places[0], places.last()),
        ),
        forall|i: int|
            0 <= i < headers.len() ==> box_stands(
                file.content,
                places[i],
                places.last(),
                #[trigger] headers[i],
                places[i + 1],
            ),
        forall|i: int|
            0 <= i < headers.len() ==> if (#[trigger] headers[i]).kind.code == 0x7472_6166 {
                track_fragment_of(file, movie_fragment, headers[i], defaults, states[i]) == Ok::<
                    FragmentState,
                    Mp4Error,
                >(states[i + 1])
            } else {
                states[i + 1] == states[i]
            },
    ensures
        movie_fragment_of(file, movie_fragment, defaults, states[0]) == Ok::<
            FragmentState,
            Mp4Error,
        >(states.last()),
{
    lemma_track_fragments(file, movie_fragment, defaults, places, headers, states, 0);
}

/// The movie fragments of a file are taken one after the other, in the order of the
/// file, and other boxes are passed over.
pub proof fn law_movie_fragments_are_taken_in_turn(
    file: FileView,
    defaults: Seq<TrackExtends>,
    places: Seq<int>,
    headers: Seq<BoxHeader>,
    states: Seq<FragmentState>,
    done: int,
)
    requires
        0 <= done <= headers.len(),
        places.len() == headers.len() + 1,
        states.len() == headers.len() + 1,
        places.last() == file.length,
        forall|i: int|
            0 <= i < headers.len() ==> box_stands(
                file.content,
                places[i],
                places.last(),
                #[trigger] headers[i],
                places[i + 1],
            ),
        forall|i: int|
            0 <= i < headers.len() ==> if (#[trigger] headers[i]).kind.code == 0x6d6f_6f66 {
                movie_fragment_of(file, headers[i], defaults, states[i]) == Ok::<
                    FragmentState,
                    Mp4Error,
                >(states[i + 1])
            } else {
                states[i + 1] == states[i]
            },
    ensures
        movie_fragments_scan(file, places[done], defaults, states[done]) == Ok::<
            FragmentState,
            Mp4Error,
        >(states.last()),
    decreases headers.len() - done,
{
    if done < headers.len() {
        let header = headers[done];
        law_movie_fragments_are_taken_in_turn(
            file,
            defaults,
            places,
            headers,
            states,
            done + 1,
        );
    }
}

} // verus!
