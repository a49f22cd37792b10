//! Edit lists.

use vstd::prelude::*;

use super::boxes::{
    first_found, first_of, one_slot, payload_of, single, sort_children, sorted_children, BoxHeader,
    FileView, Mp4File, Slot,
};
use super::error::{meets_view, Mp4Error, Result};
use super::reader::{reads, reads_view, BoundedReader, ByteCursor};
use crate::input::MediaInput;
use crate::media::Timescale;

verus! {

pub const EDTS: u32 = 0x6564_7473;

pub const ELST: u32 = 0x656c_7374;

pub const MAX_EDIT_COUNT: u32 = 1024;

/// One mapping from a movie-timeline segment to media time.
#[derive(Debug, Clone, Copy, PartialEq, Eq)]
pub struct Edit {
    pub segment_duration: u64,
    pub media_time: Option<i64>,
    pub media_rate_integer: i16,
    pub media_rate_fraction: i16,
}

impl Edit {
    /// Duration in the movie's time scale.
    #[inline]
    pub fn segment_duration(self) -> (duration: u64)
        ensures
            duration == self.segment_duration,
    {
        self.segment_duration
    }

    /// Start time in the media time scale, or `None` for an empty edit.
    #[inline]
    pub fn media_time(self) -> (time: Option<i64>)
        ensures
            time == self.media_time,
    {
        self.media_time
    }

    /// Integer half of the signed 16.16 playback rate.
    #[inline]
    pub fn media_rate_integer(self) -> (rate: i16)
        ensures
            rate == self.media_rate_integer,
    {
        self.media_rate_integer
    }

    /// Fractional half of the signed 16.16 playback rate.
    #[inline]
    pub fn media_rate_fraction(self) -> (rate: i16)
        ensures
            rate == self.media_rate_fraction,
    {
        self.media_rate_fraction
    }
}

/// One edit.
pub open spec fn edit_syntax(cursor: ByteCursor, version: u8) -> (Edit, ByteCursor) {
    let (short_duration, short) = cursor.u32();
    let (short_time, short) = short.i32();
    let (long_duration, long) = cursor.u64();
    let (long_time, long) = long.i64();
    let (duration, time, cursor) = if version == 0 {
        (short_duration as u64, short_time as i64, short)
    } else {
        (long_duration, long_time, long)
    };
    let cursor = cursor.require(
        time >= -1,
        Mp4Error::InvalidData("edit-list media time is less than negative one"),
    );
    let (integer, cursor) = cursor.i16();
    let (fraction, cursor) = cursor.i16();
    (
        Edit {
            segment_duration: duration,
            media_time: if time == -1 {
                None
            } else {
                Some(time)
            },
            media_rate_integer: integer,
            media_rate_fraction: fraction,
        },
        cursor,
    )
}

/// The edits from the cursor on.
pub open spec fn edits_syntax(
    cursor: ByteCursor,
    version: u8,
    remaining: int,
    edits: Seq<Edit>,
) -> (Seq<Edit>, ByteCursor)
    decreases remaining,
{
    if cursor.error is Some || remaining <= 0 {
        (edits, cursor)
    } else {
        let (edit, cursor) = edit_syntax(cursor, version);
        edits_syntax(cursor, version, remaining - 1, edits.push(edit))
    }
}

/// The content of an edit list.
pub open spec fn edit_list_syntax(cursor: ByteCursor) -> (Seq<Edit>, ByteCursor) {
    let ((version, flags), cursor) = cursor.full_box();
    let cursor = cursor.require(
        flags == 0 && version <= 1,
        Mp4Error::InvalidData("unsupported elst version or flags"),
    );
    let (count, cursor) = cursor.u32();
    let cursor = cursor.require(
        count <= MAX_EDIT_COUNT,
        Mp4Error::InvalidData("edit-list count exceeds its limit"),
    );
    let (edits, cursor) = edits_syntax(cursor, version, count as int, Seq::empty());
    (edits, cursor.finished("elst has trailing bytes"))
}

/// The edits of an edit-list box.
pub open spec fn edit_list(file: FileView, header: BoxHeader) -> Result<Seq<Edit>> {
    match payload_of(header) {
        Err(error) => Err(error),
        Ok((start, end)) => {
            let (edits, cursor) = edit_list_syntax(ByteCursor::at(file.content, start, end));
            cursor.outcome(edits)
        },
    }
}

/// The places of the boxes of an edit container.
pub open spec fn edit_slots() -> Seq<Slot> {
    seq![single(ELST, "edts has multiple elst boxes")]
}

/// The edits of an edit container.
pub open spec fn edits_of(file: FileView, edit_box: BoxHeader) -> Result<Seq<Edit>> {
    match sorted_children(file, edit_box, edit_slots()) {
        Err(error) => Err(error),
        Ok(found) => match first_of(found[0]) {
            Some(header) => edit_list(file, header),
            None => Ok(Seq::empty()),
        },
    }
}

pub fn parse_edit_container<'input, I: MediaInput>(
    file: &Mp4File<'input, I>,
    edit_box: BoxHeader,
) -> (result: Result<Vec<Edit>>)
    ensures
        meets_view(result, edits_of(file@, edit_box), file@.dependable),
{
    let slots = one_slot(ELST, "edts has multiple elst boxes");
    let found = sort_children(file, edit_box, &slots)?;
    match first_found(&found, 0) {
        Some(header) => parse_edit_list(file, header),
        None => {
            let edits: Vec<Edit> = Vec::new();
            assert(edits@ =~= Seq::<Edit>::empty());
            Ok(edits)
        },
    }
}

fn parse_edit<'input, I: MediaInput>(reader: &mut BoundedReader<'input, I>, version: u8) -> (result:
    Result<Edit>)
    requires
        old(reader).well_formed(),
    ensures
        final(reader).well_formed(),
        final(reader).dependable() == old(reader).dependable(),
        reads(
            result,
            final(reader)@,
            edit_syntax(old(reader)@, version),
            old(reader).dependable(),
        ),
{
    let (segment_duration, time): (u64, i64) = if version == 0 {
        let duration: u32 = reader.read_u32()?;
        let time: i32 = reader.read_i32()?;
        (duration as u64, time as i64)
    } else {
        let duration: u64 = reader.read_u64()?;
        let time: i64 = reader.read_i64()?;
        (duration, time)
    };
    if time < -1 {
        return Err(Mp4Error::InvalidData("edit-list media time is less than negative one"));
    }
    let media_time: Option<i64> = if time == -1 {
        None
    } else {
        Some(time)
    };
    let media_rate_integer: i16 = reader.read_i16()?;
    let media_rate_fraction: i16 = reader.read_i16()?;
    Ok(Edit { segment_duration, media_time, media_rate_integer, media_rate_fraction })
}

fn parse_edit_list<'input, I: MediaInput>(file: &Mp4File<'input, I>, header: BoxHeader) -> (result:
    Result<Vec<Edit>>)
    ensures
        meets_view(result, edit_list(file@, header), file@.dependable),
{
    let range = header.payload_range()?;
    let mut reader = BoundedReader::new(file.input(), range.start, range.end)?;
    let (version, flags) = reader.read_full_box()?;
    if flags != 0 || version > 1 {
        return Err(Mp4Error::InvalidData("unsupported elst version or flags"));
    }
    let count: u32 = reader.read_u32()?;
    if count > MAX_EDIT_COUNT {
        return Err(Mp4Error::InvalidData("edit-list count exceeds its limit"));
    }
    let edits = parse_edits(&mut reader, version, count)?;
    reader.require_finished("elst has trailing bytes")?;
    Ok(edits)
}

fn parse_edits<'input, I: MediaInput>(
    reader: &mut BoundedReader<'input, I>,
    version: u8,
    count: u32,
) -> (result: Result<Vec<Edit>>)
    requires
        old(reader).well_formed(),
        old(reader)@.error is None,
    ensures
        final(reader).well_formed(),
        final(reader).dependable() == old(reader).dependable(),
        reads_view(
            result,
            final(reader)@,
            edits_syntax(old(reader)@, version, count as int, Seq::empty()),
            old(reader).dependable(),
        ),
{
    let mut edits: Vec<Edit> = Vec::with_capacity(count as usize);
    assert(edits@ =~= Seq::<Edit>::empty());
    let ghost whole = edits_syntax(reader@, version, count as int, Seq::empty());
    let mut index: u32 = 0;
    while index < count
        invariant
            index <= count,
            reader.well_formed(),
            reader@.error is None,
            reader.dependable() == old(reader).dependable(),
            whole == edits_syntax(old(reader)@, version, count as int, Seq::empty()),
            whole == edits_syntax(reader@, version, count - index, edits@),
        decreases count - index,
    {
        proof {
            reveal_with_fuel(edits_syntax, 2);
        }
        let edit = parse_edit(reader, version)?;
        edits.push(edit);
        index = index + 1;
    }
    Ok(edits)
}

/// What the edits up to one say about the timeline.
pub struct TimelineScan {
    /// How long nothing is shown at first.
    pub empty: int,
    /// Where the media starts.
    pub start: Option<i64>,
    pub error: Option<Mp4Error>,
}

/// What the first `count` edits say about the timeline.
pub open spec fn timeline_scan(edits: Seq<Edit>, count: int) -> TimelineScan
    decreases count,
{
    if count <= 0 {
        TimelineScan { empty: 0, start: None, error: None }
    } else {
        let before = timeline_scan(edits, count - 1);
        let edit = edits[count - 1];
        if before.error is Some {
            before
        } else {
            match edit.media_time {
                None => if before.start is Some {
                    TimelineScan {
                        error: Some(
                            Mp4Error::InvalidData("non-linear edit lists are not supported"),
                        ),
                        ..before
                    }
                } else if before.empty + edit.segment_duration > u64::MAX {
                    TimelineScan { error: Some(Mp4Error::IntegerOverflow), ..before }
                } else {
                    TimelineScan { empty: before.empty + edit.segment_duration, ..before }
                },
                Some(start) => if before.start is Some {
                    TimelineScan {
                        error: Some(
                            Mp4Error::InvalidData("repeated media edits are not supported"),
                        ),
                        ..before
                    }
                } else if edit.media_rate_integer != 1 || edit.media_rate_fraction != 0 {
                    TimelineScan {
                        error: Some(
                            Mp4Error::InvalidData("non-unit edit-list rates are not supported"),
                        ),
                        ..before
                    }
                } else {
                    TimelineScan { start: Some(start), ..before }
                },
            }
        }
    }
}

/// The offset from media times to presentation times, in the media time scale.
pub open spec fn timeline_offset(edits: Seq<Edit>, movie: nat, media: nat) -> Result<i64> {
    let scan = timeline_scan(edits, edits.len() as int);
    let scaled = scan.empty * media;
    if edits.len() == 0 {
        Ok(0)
    } else {
        match (scan.error, scan.start) {
            (Some(error), _) => Err(error),
            (None, None) => Err(
                Mp4Error::InvalidData("an all-empty edit list has no media timeline"),
            ),
            (None, Some(start)) => if scaled % movie as int != 0 {
                Err(
                    Mp4Error::InvalidData(
                        "edit-list offset is not exact in the media time scale",
                    ),
                )
            } else if scaled / movie as int > i64::MAX || !(i64::MIN <= scaled / movie as int
                - start <= i64::MAX) {
                Err(Mp4Error::IntegerOverflow)
            } else {
                Ok((scaled / movie as int - start) as i64)
            },
        }
    }
}

/// An error of the first edits is the error of all.
proof fn lemma_scan_error(edits: Seq<Edit>, part: int, count: int)
    requires
        part <= count,
        timeline_scan(edits, part).error is Some,
    ensures
        timeline_scan(edits, count).error == timeline_scan(edits, part).error,
    decreases count - part,
{
    if part < count {
        lemma_scan_error(edits, part, count - 1);
    }
}

/// Returns the media-timescale offset for a single linear media edit,
/// optionally preceded by one or more empty edits.
pub fn linear_timeline_offset(
    edits: &[Edit],
    movie_timescale: Timescale,
    media_timescale: Timescale,
) -> (result: Result<i64>)
    ensures
        result == timeline_offset(edits@, movie_timescale@, media_timescale@),
{
    if edits.len() == 0 {
        return Ok(0);
    }
    let mut empty_duration: u64 = 0;
    let mut media_start: Option<i64> = None;
    let mut index: usize = 0;
    while index < edits.len()
        invariant
            index <= edits@.len(),
            edits@.len() > 0,
            timeline_scan(edits@, index as int) == (TimelineScan {
                empty: empty_duration as int,
                start: media_start,
                error: None,
            }),
        decreases edits@.len() - index,
    {
        let edit = edits[index];
        proof {
            if timeline_scan(edits@, index + 1).error is Some {
                lemma_scan_error(edits@, index + 1, edits@.len() as int);
            }
        }
        match edit.media_time {
            None => {
                if media_start.is_some() {
                    return Err(Mp4Error::InvalidData("non-linear edit lists are not supported"));
                }
                empty_duration = match empty_duration.checked_add(edit.segment_duration) {
                    Some(duration) => duration,
                    None => return Err(Mp4Error::IntegerOverflow),
                };
            },
            Some(start) => {
                if media_start.is_some() {
                    return Err(Mp4Error::InvalidData("repeated media edits are not supported"));
                }
                if edit.media_rate_integer != 1 || edit.media_rate_fraction != 0 {
                    return Err(
                        Mp4Error::InvalidData("non-unit edit-list rates are not supported"),
                    );
                }
                media_start = Some(start);
            },
        }
        index = index + 1;
    }
    let start: i64 = match media_start {
        Some(start) => start,
        None => return Err(
            Mp4Error::InvalidData("an all-empty edit list has no media timeline"),
        ),
    };
    let media: u128 = media_timescale.get() as u128;
    let movie: u128 = movie_timescale.get() as u128;
    assert(0 <= empty_duration * media <= 0xffff_ffff_ffff_ffff * 0xffff_ffff) by (nonlinear_arith)
        requires
            0 <= empty_duration <= 0xffff_ffff_ffff_ffff,
            0 <= media <= 0xffff_ffff,
    ;
    let scaled: u128 = empty_duration as u128 * media;
    if scaled % movie != 0 {
        return Err(
            Mp4Error::InvalidData("edit-list offset is not exact in the media time scale"),
        );
    }
    let presentation_start: u128 = scaled / movie;
    if presentation_start > 0x7fff_ffff_ffff_ffff {
        return Err(Mp4Error::IntegerOverflow);
    }
    match (presentation_start as i64).checked_sub(start) {
        Some(offset) => Ok(offset),
        None => Err(Mp4Error::IntegerOverflow),
    }
}

/// Without edits media times are presentation times.
pub proof fn law_no_edits_no_offset(movie: nat, media: nat)
    ensures
        timeline_offset(Seq::empty(), movie, media) == Ok::<i64, Mp4Error>(0),
{
}

/// One edit at the normal rate presents the media from its start on at zero.
pub proof fn law_one_edit_presents_its_start_at_zero(
    segment_duration: u64,
    start: i64,
    movie: nat,
    media: nat,
)
    requires
        movie > 0,
        start > i64::MIN,
    ensures
        timeline_offset(
            seq![
                Edit {
                    segment_duration,
                    media_time: Some(start),
                    media_rate_integer: 1,
                    media_rate_fraction: 0,
                },
            ],
            movie,
            media,
        ) == Ok::<i64, Mp4Error>((-start) as i64),
{
    let edits = seq![
        Edit {
            segment_duration,
            media_time: Some(start),
            media_rate_integer: 1,
            media_rate_fraction: 0,
        },
    ];
    reveal_with_fuel(timeline_scan, 2);
    let scan = timeline_scan(edits, 1);
    assert(scan.empty * media == 0) by (nonlinear_arith)
        requires
            scan.empty == 0,
    ;
    vstd::arithmetic::div_mod::lemma_small_mod(0, movie);
    assert(0int / movie as int == 0) by (nonlinear_arith)
        requires
            movie > 0,
    ;
}

} // verus!
