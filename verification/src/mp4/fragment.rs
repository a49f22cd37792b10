//! Movie fragments.

use vstd::prelude::*;

use super::boxes::{
    children_of, first_found, first_of, found_boxes, header_at, lemma_header_at, one_slot,
    payload_cursor, payload_reader, single, sort_children, sorted_children, BoxHeader, FileView,
    Mp4File, Slot,
};
use super::error::{is_fault, meets, meets_view, Mp4Error, Result};
use super::reader::{reads, reads_view, BoundedReader, ByteCursor};
use super::sample_table::{Sample, MAX_SAMPLE_COUNT};
use super::track::{TrackData, TrackView};
use crate::input::MediaInput;

verus! {

pub const MVEX: u32 = 0x6d76_6578;

pub const TREX: u32 = 0x7472_6578;

pub const MOOF: u32 = 0x6d6f_6f66;

pub const TRAF: u32 = 0x7472_6166;

pub const TFHD: u32 = 0x7466_6864;

pub const TFDT: u32 = 0x7466_6474;

pub const TRUN: u32 = 0x7472_756e;

pub const TFHD_BASE_DATA_OFFSET_PRESENT: u32 = 0x00_0001;

pub const TFHD_SAMPLE_DESCRIPTION_INDEX_PRESENT: u32 = 0x00_0002;

pub const TFHD_DEFAULT_SAMPLE_DURATION_PRESENT: u32 = 0x00_0008;

pub const TFHD_DEFAULT_SAMPLE_SIZE_PRESENT: u32 = 0x00_0010;

pub const TFHD_DEFAULT_SAMPLE_FLAGS_PRESENT: u32 = 0x00_0020;

pub const TFHD_DURATION_IS_EMPTY: u32 = 0x01_0000;

pub const TFHD_DEFAULT_BASE_IS_MOOF: u32 = 0x02_0000;

pub const TFHD_UNKNOWN_FLAGS: u32 = 0xfffc_ffc4;

pub const TRUN_DATA_OFFSET_PRESENT: u32 = 0x00_0001;

pub const TRUN_FIRST_SAMPLE_FLAGS_PRESENT: u32 = 0x00_0004;

pub const TRUN_SAMPLE_DURATION_PRESENT: u32 = 0x00_0100;

pub const TRUN_SAMPLE_SIZE_PRESENT: u32 = 0x00_0200;

pub const TRUN_SAMPLE_FLAGS_PRESENT: u32 = 0x00_0400;

pub const TRUN_SAMPLE_COMPOSITION_TIME_OFFSET_PRESENT: u32 = 0x00_0800;

pub const TRUN_UNKNOWN_FLAGS: u32 = 0xffff_f0fa;

pub const SAMPLE_IS_NON_SYNC: u32 = 0x0001_0000;

/// Some of the flags of a mask are set.
pub open spec fn set_in(flags: u32, mask: u32) -> bool {
    flags & mask != 0
}

fn is_set(flags: u32, mask: u32) -> (set: bool)
    ensures
        set == set_in(flags, mask),
{
    flags & mask != 0
}

/// What holds of the samples of a track where its fragments say nothing.
#[derive(Debug, Clone, Copy)]
pub struct TrackExtends {
    pub track_id: u32,
    pub description_index: u32,
    pub duration: u32,
    pub size: u32,
    pub flags: u32,
}

/// What a fragment says of its samples.
#[derive(Debug, Clone, Copy)]
pub struct TrackFragmentHeader {
    pub track_id: u32,
    pub base_data_offset: Option<u64>,
    pub description_index: Option<u32>,
    pub default_duration: Option<u32>,
    pub default_size: Option<u32>,
    pub default_flags: Option<u32>,
    pub duration_is_empty: bool,
    pub default_base_is_moof: bool,
}

/// The box that announces fragments.
pub open spec fn movie_extends_of(file: FileView, movie_box: BoxHeader) -> Result<
    Option<BoxHeader>,
> {
    match sorted_children(file, movie_box, seq![single(MVEX, "duplicate mvex box")]) {
        Err(error) => Err(error),
        Ok(found) => Ok(first_of(found[0])),
    }
}

/// Finds the box that announces fragments.
pub fn find_movie_extends<'input, I: MediaInput>(
    file: &Mp4File<'input, I>,
    movie_box: BoxHeader,
) -> (result: Result<Option<BoxHeader>>)
    ensures
        meets(result, movie_extends_of(file@, movie_box), file@.dependable),
{
    let slots = one_slot(MVEX, "duplicate mvex box");
    let found = sort_children(file, movie_box, &slots)?;
    Ok(first_found(&found, 0))
}

/// The fields of a trex box.
pub open spec fn trex_syntax(cursor: ByteCursor) -> (TrackExtends, ByteCursor) {
    let ((version, flags), cursor) = cursor.full_box();
    let cursor = cursor.require(
        version == 0 && flags == 0,
        Mp4Error::InvalidData("unsupported trex version or flags"),
    );
    let (track_id, cursor) = cursor.u32();
    let (description_index, cursor) = cursor.u32();
    let (duration, cursor) = cursor.u32();
    let (size, cursor) = cursor.u32();
    let (sample_flags, cursor) = cursor.u32();
    (
        TrackExtends { track_id, description_index, duration, size, flags: sample_flags },
        cursor.finished("trex has trailing bytes").require(
            track_id != 0,
            Mp4Error::InvalidData("trex track id is zero"),
        ).require(
            description_index != 0,
            Mp4Error::InvalidData("trex sample-description index is zero"),
        ),
    )
}

/// The defaults of a trex box.
pub open spec fn trex_of(file: FileView, header: BoxHeader) -> Result<TrackExtends> {
    let (entry, cursor) = trex_syntax(payload_cursor(file, header));
    cursor.outcome(entry)
}

/// The place of the defaults of a track from `index` on, or their number.
pub open spec fn extends_from(defaults: Seq<TrackExtends>, track_id: u32, index: int) -> int
    decreases defaults.len() - index,
{
    if index >= defaults.len() {
        defaults.len() as int
    } else if defaults[index].track_id == track_id {
        index
    } else {
        extends_from(defaults, track_id, index + 1)
    }
}

/// The defaults of a track.
pub open spec fn extends_for(defaults: Seq<TrackExtends>, track_id: u32) -> Option<TrackExtends> {
    let index = extends_from(defaults, track_id, 0);
    if index < defaults.len() {
        Some(defaults[index])
    } else {
        None
    }
}

/// The defaults with those of one more box.
pub open spec fn extends_step(
    file: FileView,
    header: BoxHeader,
    defaults: Seq<TrackExtends>,
) -> Result<Seq<TrackExtends>> {
    if header.kind.code != TREX {
        Ok(defaults)
    } else {
        match trex_of(file, header) {
            Err(error) => Err(error),
            Ok(entry) => if extends_for(defaults, entry.track_id) is Some {
                Err(Mp4Error::InvalidData("duplicate trex track id"))
            } else {
                Ok(defaults.push(entry))
            },
        }
    }
}

/// The defaults of the boxes from `offset` on.
pub open spec fn extends_scan(
    file: FileView,
    offset: int,
    end: int,
    defaults: Seq<TrackExtends>,
) -> Result<Seq<TrackExtends>>
    decreases end - offset,
{
    if offset == end {
        Ok(defaults)
    } else {
        match header_at(file.content, offset, end) {
            Err(error) => Err(error),
            Ok(header) => match extends_step(file, header, defaults) {
                Err(error) => Err(error),
                Ok(defaults) => if 0 < header.size <= end - offset {
                    extends_scan(file, offset + header.size, end, defaults)
                } else {
                    Ok(defaults)
                },
            },
        }
    }
}

/// The defaults of all tracks.
pub open spec fn extends_of(file: FileView, movie_extends: BoxHeader) -> Result<Seq<TrackExtends>> {
    match children_of(file, movie_extends) {
        Err(error) => Err(error),
        Ok((start, end)) => extends_scan(file, start, end, Seq::empty()),
    }
}

fn parse_trex<'input, I: MediaInput>(file: &Mp4File<'input, I>, header: BoxHeader) -> (result: Result<
    TrackExtends,
>)
    ensures
        meets(result, trex_of(file@, header), file@.dependable),
        result matches Ok(entry) ==> entry.description_index != 0,
{
    let mut reader = payload_reader(file, header)?;
    let (version, flags) = reader.read_full_box()?;
    if version != 0 || flags != 0 {
        return Err(Mp4Error::InvalidData("unsupported trex version or flags"));
    }
    let track_id: u32 = reader.read_u32()?;
    let description_index: u32 = reader.read_u32()?;
    let duration: u32 = reader.read_u32()?;
    let size: u32 = reader.read_u32()?;
    let sample_flags: u32 = reader.read_u32()?;
    reader.require_finished("trex has trailing bytes")?;
    if track_id == 0 {
        return Err(Mp4Error::InvalidData("trex track id is zero"));
    }
    if description_index == 0 {
        return Err(Mp4Error::InvalidData("trex sample-description index is zero"));
    }
    Ok(TrackExtends { track_id, description_index, duration, size, flags: sample_flags })
}

/// Every default names a description.
pub open spec fn all_described(defaults: Seq<TrackExtends>) -> bool {
    forall|i: int| 0 <= i < defaults.len() ==> (#[trigger] defaults[i]).description_index != 0
}

fn find_extends(defaults: &Vec<TrackExtends>, track_id: u32) -> (found: Option<TrackExtends>)
    ensures
        found == extends_for(defaults@, track_id),
        all_described(defaults@) ==> (found matches Some(entry) ==> entry.description_index != 0),
{
    let mut index: usize = 0;
    while index < defaults.len()
        invariant
            index <= defaults@.len(),
            extends_from(defaults@, track_id, 0) == extends_from(
                defaults@,
                track_id,
                index as int,
            ),
        decreases defaults@.len() - index,
    {
        if defaults[index].track_id == track_id {
            return Some(defaults[index]);
        }
        index = index + 1;
    }
    None
}

fn parse_track_extends<'input, I: MediaInput>(
    file: &Mp4File<'input, I>,
    movie_extends: BoxHeader,
) -> (result: Result<Vec<TrackExtends>>)
    ensures
        meets_view(result, extends_of(file@, movie_extends), file@.dependable),
        result matches Ok(defaults) ==> all_described(defaults@),
{
    let mut iter = file.children(movie_extends)?;
    let mut defaults: Vec<TrackExtends> = Vec::new();
    assert(defaults@ =~= Seq::<TrackExtends>::empty());
    let ghost view = file@;
    let ghost end = iter@.end;
    let ghost whole = extends_of(view, movie_extends);
    loop
        invariant
            view == file@,
            iter@.file == view,
            iter@.end == end,
            !iter@.failed,
            0 <= iter@.next_offset,
            0 <= end <= u64::MAX,
            all_described(defaults@),
            whole == extends_of(view, movie_extends),
            whole == extends_scan(view, iter@.next_offset, end, defaults@),
        decreases
            if iter@.next_offset <= end {
                end - iter@.next_offset
            } else {
                0
            },
    {
        proof {
            reveal_with_fuel(extends_scan, 2);
            lemma_header_at(view.content, iter@.next_offset, end);
        }
        let child = match iter.next() {
            None => return Ok(defaults),
            Some(child) => child?,
        };
        if child.kind.code == TREX {
            let entry = parse_trex(file, child)?;
            if find_extends(&defaults, entry.track_id).is_some() {
                return Err(Mp4Error::InvalidData("duplicate trex track id"));
            }
            defaults.push(entry);
        }
    }
}

/// A number that may be there.
pub open spec fn optional_u32(cursor: ByteCursor, present: bool) -> (Option<u32>, ByteCursor) {
    if present {
        (Some(cursor.u32().0), cursor.u32().1)
    } else {
        (None, cursor)
    }
}

/// A large number that may be there.
pub open spec fn optional_u64(cursor: ByteCursor, present: bool) -> (Option<u64>, ByteCursor) {
    if present {
        (Some(cursor.u64().0), cursor.u64().1)
    } else {
        (None, cursor)
    }
}

/// A signed number that may be there.
pub open spec fn optional_i32(cursor: ByteCursor, present: bool) -> (Option<i32>, ByteCursor) {
    if present {
        (Some(cursor.i32().0), cursor.i32().1)
    } else {
        (None, cursor)
    }
}

/// The flags and the track of a tfhd box.
pub open spec fn tfhd_start(cursor: ByteCursor) -> ((u32, u32), ByteCursor) {
    let ((version, flags), cursor) = cursor.full_box();
    let cursor = cursor.require(
        version == 0 && !set_in(flags, TFHD_UNKNOWN_FLAGS),
        Mp4Error::InvalidData("unsupported tfhd version or flags"),
    ).require(
        !(set_in(flags, TFHD_BASE_DATA_OFFSET_PRESENT) && set_in(
            flags,
            TFHD_DEFAULT_BASE_IS_MOOF,
        )),
        Mp4Error::InvalidData("tfhd declares two data-base modes"),
    );
    let (track_id, cursor) = cursor.u32();
    (
        (flags, track_id),
        cursor.require(track_id != 0, Mp4Error::InvalidData("tfhd track id is zero")),
    )
}

/// What a tfhd box says of its samples, as far as its flags announce it.
pub open spec fn tfhd_fields(cursor: ByteCursor, flags: u32, track_id: u32) -> (
    TrackFragmentHeader,
    ByteCursor,
) {
    let (base_data_offset, cursor) = optional_u64(
        cursor,
        set_in(flags, TFHD_BASE_DATA_OFFSET_PRESENT),
    );
    let (description_index, cursor) = optional_u32(
        cursor,
        set_in(flags, TFHD_SAMPLE_DESCRIPTION_INDEX_PRESENT),
    );
    let (default_duration, cursor) = optional_u32(
        cursor,
        set_in(flags, TFHD_DEFAULT_SAMPLE_DURATION_PRESENT),
    );
    let (default_size, cursor) = optional_u32(
        cursor,
        set_in(flags, TFHD_DEFAULT_SAMPLE_SIZE_PRESENT),
    );
    let (default_flags, cursor) = optional_u32(
        cursor,
        set_in(flags, TFHD_DEFAULT_SAMPLE_FLAGS_PRESENT),
    );
    (
        TrackFragmentHeader {
            track_id,
            base_data_offset,
            description_index,
            default_duration,
            default_size,
            default_flags,
            duration_is_empty: set_in(flags, TFHD_DURATION_IS_EMPTY),
            default_base_is_moof: set_in(flags, TFHD_DEFAULT_BASE_IS_MOOF),
        },
        cursor,
    )
}

/// The fields of a tfhd box.
pub open spec fn tfhd_syntax(cursor: ByteCursor) -> (TrackFragmentHeader, ByteCursor) {
    let ((flags, track_id), cursor) = tfhd_start(cursor);
    let (header, cursor) = tfhd_fields(cursor, flags, track_id);
    (
        header,
        cursor.finished("tfhd has trailing bytes").require(
            header.description_index != Some(0u32),
            Mp4Error::InvalidData("tfhd sample-description index is zero"),
        ),
    )
}

/// What a tfhd box says.
pub open spec fn tfhd_of(file: FileView, header: BoxHeader) -> Result<TrackFragmentHeader> {
    let (value, cursor) = tfhd_syntax(payload_cursor(file, header));
    cursor.outcome(value)
}

/// The decode time of a tfdt box.
pub open spec fn tfdt_syntax(cursor: ByteCursor) -> (i64, ByteCursor) {
    let ((version, flags), cursor) = cursor.full_box();
    let cursor = cursor.require(
        flags == 0 && version <= 1,
        Mp4Error::InvalidData("unsupported tfdt version or flags"),
    );
    let (time, cursor) = if version == 0 {
        (cursor.u32().0 as u64, cursor.u32().1)
    } else {
        cursor.u64()
    };
    (
        time as i64,
        cursor.finished("tfdt has trailing bytes").require(
            time <= i64::MAX,
            Mp4Error::InvalidData("tfdt exceeds i64"),
        ),
    )
}

/// The decode time of a tfdt box.
pub open spec fn tfdt_of(file: FileView, header: BoxHeader) -> Result<i64> {
    let (time, cursor) = tfdt_syntax(payload_cursor(file, header));
    cursor.outcome(time)
}

fn read_optional_u32<'input, I: MediaInput>(
    reader: &mut BoundedReader<'input, I>,
    present: bool,
) -> (result: Result<Option<u32>>)
    requires
        old(reader).well_formed(),
    ensures
        final(reader).well_formed(),
        final(reader).dependable() == old(reader).dependable(),
        old(reader)@.error is None ==> reads(
            result,
            final(reader)@,
            optional_u32(old(reader)@, present),
            old(reader).dependable(),
        ),
{
    if present {
        Ok(Some(reader.read_u32()?))
    } else {
        Ok(None)
    }
}

fn read_optional_u64<'input, I: MediaInput>(
    reader: &mut BoundedReader<'input, I>,
    present: bool,
) -> (result: Result<Option<u64>>)
    requires
        old(reader).well_formed(),
    ensures
        final(reader).well_formed(),
        final(reader).dependable() == old(reader).dependable(),
        old(reader)@.error is None ==> reads(
            result,
            final(reader)@,
            optional_u64(old(reader)@, present),
            old(reader).dependable(),
        ),
{
    if present {
        Ok(Some(reader.read_u64()?))
    } else {
        Ok(None)
    }
}

fn read_tfhd_start<'input, I: MediaInput>(reader: &mut BoundedReader<'input, I>) -> (result: Result<
    (u32, u32),
>)
    requires
        old(reader).well_formed(),
        old(reader)@.error is None,
    ensures
        final(reader).well_formed(),
        final(reader).dependable() == old(reader).dependable(),
        reads(result, final(reader)@, tfhd_start(old(reader)@), old(reader).dependable()),
{
    let (version, flags) = reader.read_full_box()?;
    if version != 0 || is_set(flags, TFHD_UNKNOWN_FLAGS) {
        return Err(Mp4Error::InvalidData("unsupported tfhd version or flags"));
    }
    if is_set(flags, TFHD_BASE_DATA_OFFSET_PRESENT) && is_set(flags, TFHD_DEFAULT_BASE_IS_MOOF) {
        return Err(Mp4Error::InvalidData("tfhd declares two data-base modes"));
    }
    let track_id: u32 = reader.read_u32()?;
    if track_id == 0 {
        return Err(Mp4Error::InvalidData("tfhd track id is zero"));
    }
    Ok((flags, track_id))
}

fn read_tfhd_fields<'input, I: MediaInput>(
    reader: &mut BoundedReader<'input, I>,
    flags: u32,
    track_id: u32,
) -> (result: Result<TrackFragmentHeader>)
    requires
        old(reader).well_formed(),
        old(reader)@.error is None,
    ensures
        final(reader).well_formed(),
        final(reader).dependable() == old(reader).dependable(),
        reads(
            result,
            final(reader)@,
            tfhd_fields(old(reader)@, flags, track_id),
            old(reader).dependable(),
        ),
{
    let base_data_offset = read_optional_u64(
        reader,
        is_set(flags, TFHD_BASE_DATA_OFFSET_PRESENT),
    )?;
    let description_index = read_optional_u32(
        reader,
        is_set(flags, TFHD_SAMPLE_DESCRIPTION_INDEX_PRESENT),
    )?;
    let default_duration = read_optional_u32(
        reader,
        is_set(flags, TFHD_DEFAULT_SAMPLE_DURATION_PRESENT),
    )?;
    let default_size = read_optional_u32(reader, is_set(flags, TFHD_DEFAULT_SAMPLE_SIZE_PRESENT))?;
    let default_flags = read_optional_u32(
        reader,
        is_set(flags, TFHD_DEFAULT_SAMPLE_FLAGS_PRESENT),
    )?;
    Ok(
        TrackFragmentHeader {
            track_id,
            base_data_offset,
            description_index,
            default_duration,
            default_size,
            default_flags,
            duration_is_empty: is_set(flags, TFHD_DURATION_IS_EMPTY),
            default_base_is_moof: is_set(flags, TFHD_DEFAULT_BASE_IS_MOOF),
        },
    )
}

fn parse_track_fragment_header<'input, I: MediaInput>(
    file: &Mp4File<'input, I>,
    header: BoxHeader,
) -> (result: Result<TrackFragmentHeader>)
    ensures
        meets(result, tfhd_of(file@, header), file@.dependable),
        result matches Ok(header) ==> header.description_index != Some(0u32),
{
    let mut reader = payload_reader(file, header)?;
    let (flags, track_id) = read_tfhd_start(&mut reader)?;
    let value = read_tfhd_fields(&mut reader, flags, track_id)?;
    reader.require_finished("tfhd has trailing bytes")?;
    if let Some(index) = value.description_index {
        if index == 0 {
            return Err(Mp4Error::InvalidData("tfhd sample-description index is zero"));
        }
    }
    Ok(value)
}

fn parse_track_fragment_decode_time<'input, I: MediaInput>(
    file: &Mp4File<'input, I>,
    header: BoxHeader,
) -> (result: Result<i64>)
    ensures
        meets(result, tfdt_of(file@, header), file@.dependable),
{
    let mut reader = payload_reader(file, header)?;
    let (version, flags) = reader.read_full_box()?;
    if flags != 0 || version > 1 {
        return Err(Mp4Error::InvalidData("unsupported tfdt version or flags"));
    }
    let time: u64 = if version == 0 {
        let short: u32 = reader.read_u32()?;
        short as u64
    } else {
        reader.read_u64()?
    };
    reader.require_finished("tfdt has trailing bytes")?;
    if time > 0x7fff_ffff_ffff_ffff {
        return Err(Mp4Error::InvalidData("tfdt exceeds i64"));
    }
    Ok(time as i64)
}

/// What holds of all runs of a fragment.
#[derive(Debug, Clone, Copy)]
pub struct RunContext {
    pub base_data_offset: u64,
    pub description_index: usize,
    pub default_duration: Option<u32>,
    pub default_size: Option<u32>,
    pub default_flags: Option<u32>,
}

/// What a run says before its samples.
#[derive(Debug, Clone, Copy)]
pub struct RunHeader {
    pub version: u8,
    pub flags: u32,
    pub count: usize,
    pub data_offset: Option<i32>,
    pub first_sample_flags: Option<u32>,
}

/// Where the next sample of a run lies and when it is decoded, and the samples
/// so far.
pub struct ProgressView {
    pub offset: u64,
    pub decode_time: i64,
    pub samples: Seq<Sample>,
}

/// What a run says before its samples. `sample_count` samples of the fragment
/// came before.
pub open spec fn run_header(cursor: ByteCursor, sample_count: int) -> (RunHeader, ByteCursor) {
    let ((version, flags), cursor) = cursor.full_box();
    let cursor = cursor.require(
        version <= 1 && !set_in(flags, TRUN_UNKNOWN_FLAGS),
        Mp4Error::InvalidData("unsupported trun version or flags"),
    ).require(
        !(set_in(flags, TRUN_FIRST_SAMPLE_FLAGS_PRESENT) && set_in(
            flags,
            TRUN_SAMPLE_FLAGS_PRESENT,
        )),
        Mp4Error::InvalidData("trun has both first-sample and per-sample flags"),
    );
    let (count, cursor) = cursor.u32();
    let cursor = cursor.require(
        sample_count + count <= MAX_SAMPLE_COUNT,
        Mp4Error::InvalidData("fragment sample count exceeds its limit"),
    );
    let (data_offset, cursor) = optional_i32(cursor, set_in(flags, TRUN_DATA_OFFSET_PRESENT));
    let (first_sample_flags, cursor) = optional_u32(
        cursor,
        set_in(flags, TRUN_FIRST_SAMPLE_FLAGS_PRESENT),
    );
    (
        RunHeader { version, flags, count: count as usize, data_offset, first_sample_flags },
        cursor,
    )
}

/// Where the samples of a run start: at an offset from the base, or behind the
/// run before.
pub open spec fn run_start(header: RunHeader, base: u64, data_end: Option<u64>) -> Result<u64> {
    match (header.data_offset, data_end) {
        (Some(offset), _) => if 0 <= base + offset <= u64::MAX {
            Ok((base + offset) as u64)
        } else {
            Err(Mp4Error::InvalidData("fragment data offset exceeds the input"))
        },
        (None, Some(end)) => Ok(end),
        (None, None) => Err(Mp4Error::UnsupportedFeature("first trun has no data offset")),
    }
}

/// A number that is there, or its default.
pub open spec fn number_or(
    cursor: ByteCursor,
    present: bool,
    default: Option<u32>,
    message: &'static str,
) -> (u32, ByteCursor) {
    if present {
        cursor.u32()
    } else {
        match default {
            Some(value) => (value, cursor),
            None => (0, cursor.fail(Mp4Error::InvalidData(message))),
        }
    }
}

/// The fields of a sample.
pub struct RunFields {
    pub duration: u32,
    pub size: u32,
    pub flags: u32,
    pub composition_offset: i64,
}

/// The fields of a sample.
pub open spec fn run_fields(
    cursor: ByteCursor,
    header: RunHeader,
    context: RunContext,
    index: int,
) -> (RunFields, ByteCursor) {
    let (duration, cursor) = number_or(
        cursor,
        set_in(header.flags, TRUN_SAMPLE_DURATION_PRESENT),
        context.default_duration,
        "fragment sample has no duration",
    );
    let (size, cursor) = number_or(
        cursor,
        set_in(header.flags, TRUN_SAMPLE_SIZE_PRESENT),
        context.default_size,
        "fragment sample has no size",
    );
    let (flags, cursor) = number_or(
        cursor,
        set_in(header.flags, TRUN_SAMPLE_FLAGS_PRESENT),
        if index == 0 && header.first_sample_flags is Some {
            header.first_sample_flags
        } else {
            context.default_flags
        },
        "fragment sample has no dependency flags",
    );
    let (composition_offset, cursor) = if !set_in(
        header.flags,
        TRUN_SAMPLE_COMPOSITION_TIME_OFFSET_PRESENT,
    ) {
        (0i64, cursor)
    } else if header.version == 0 {
        (cursor.u32().0 as i64, cursor.u32().1)
    } else {
        (cursor.i32().0 as i64, cursor.i32().1)
    };
    (RunFields { duration, size, flags, composition_offset }, cursor)
}

/// One sample of a run.
pub open spec fn run_sample(
    cursor: ByteCursor,
    file_length: int,
    header: RunHeader,
    context: RunContext,
    index: int,
    progress: ProgressView,
) -> (ProgressView, ByteCursor) {
    let (fields, cursor) = run_fields(cursor, header, context, index);
    let end = progress.offset + fields.size;
    let presentation_time = progress.decode_time + fields.composition_offset;
    let next = progress.decode_time + fields.duration;
    let sample = Sample {
        offset: progress.offset,
        size: fields.size,
        decode_time: progress.decode_time,
        presentation_time: presentation_time as i64,
        duration: fields.duration,
        description_index: context.description_index,
        sync: !set_in(fields.flags, SAMPLE_IS_NON_SYNC),
    };
    (
        ProgressView {
            offset: end as u64,
            decode_time: next as i64,
            samples: progress.samples.push(sample),
        },
        cursor.require(
            fields.duration != 0,
            Mp4Error::InvalidData("fragment sample duration is zero"),
        ).require(
            fields.size != 0,
            Mp4Error::InvalidData("fragment sample size is zero"),
        ).require(end <= u64::MAX, Mp4Error::IntegerOverflow).require(
            end <= file_length,
            Mp4Error::InvalidData("fragment sample data exceeds the input"),
        ).require(
            i64::MIN <= presentation_time <= i64::MAX,
            Mp4Error::IntegerOverflow,
        ).require(next <= i64::MAX, Mp4Error::IntegerOverflow),
    )
}

/// The samples of a run from one on.
pub open spec fn run_samples(
    cursor: ByteCursor,
    file_length: int,
    header: RunHeader,
    context: RunContext,
    index: int,
    progress: ProgressView,
) -> (ProgressView, ByteCursor)
    decreases header.count - index,
{
    if cursor.error is Some || index >= header.count {
        (progress, cursor)
    } else {
        let (progress, cursor) = run_sample(cursor, file_length, header, context, index, progress);
        run_samples(cursor, file_length, header, context, index + 1, progress)
    }
}

/// Where the data of the runs so far ends, when the next sample is decoded, and
/// the samples so far.
pub struct RunsView {
    pub data_end: Option<u64>,
    pub decode_time: i64,
    pub samples: Seq<Sample>,
}

/// One more run.
pub open spec fn run_of(file: FileView, header: BoxHeader, context: RunContext, runs: RunsView) -> Result<
    RunsView,
> {
    let (run, cursor) = run_header(payload_cursor(file, header), runs.samples.len() as int);
    match cursor.error {
        Some(error) => Err(error),
        None => match run_start(run, context.base_data_offset, runs.data_end) {
            Err(error) => Err(error),
            Ok(offset) => {
                let start = ProgressView {
                    offset,
                    decode_time: runs.decode_time,
                    samples: runs.samples,
                };
                let (progress, cursor) = run_samples(cursor, file.length, run, context, 0, start);
                cursor.finished("trun has trailing bytes").outcome(
                    RunsView {
                        data_end: Some(progress.offset),
                        decode_time: progress.decode_time,
                        samples: progress.samples,
                    },
                )
            },
        },
    }
}

/// The first `count` runs.
pub open spec fn runs_of(
    file: FileView,
    boxes: Seq<BoxHeader>,
    context: RunContext,
    start: RunsView,
    count: int,
) -> Result<RunsView>
    decreases count,
{
    if count <= 0 {
        Ok(start)
    } else {
        match runs_of(file, boxes, context, start, count - 1) {
            Err(error) => Err(error),
            Ok(runs) => run_of(file, boxes[count - 1], context, runs),
        }
    }
}

fn read_run_header<'input, I: MediaInput>(
    reader: &mut BoundedReader<'input, I>,
    sample_count: usize,
) -> (result: Result<RunHeader>)
    requires
        old(reader).well_formed(),
        old(reader)@.error is None,
        sample_count <= MAX_SAMPLE_COUNT,
    ensures
        final(reader).well_formed(),
        final(reader).dependable() == old(reader).dependable(),
        reads(
            result,
            final(reader)@,
            run_header(old(reader)@, sample_count as int),
            old(reader).dependable(),
        ),
        result matches Ok(header) ==> sample_count + header.count <= MAX_SAMPLE_COUNT,
{
    let (version, flags) = reader.read_full_box()?;
    if version > 1 || is_set(flags, TRUN_UNKNOWN_FLAGS) {
        return Err(Mp4Error::InvalidData("unsupported trun version or flags"));
    }
    if is_set(flags, TRUN_FIRST_SAMPLE_FLAGS_PRESENT) && is_set(flags, TRUN_SAMPLE_FLAGS_PRESENT) {
        return Err(Mp4Error::InvalidData("trun has both first-sample and per-sample flags"));
    }
    let count: u32 = reader.read_u32()?;
    if count as usize > MAX_SAMPLE_COUNT - sample_count {
        return Err(Mp4Error::InvalidData("fragment sample count exceeds its limit"));
    }
    let data_offset: Option<i32> = if is_set(flags, TRUN_DATA_OFFSET_PRESENT) {
        Some(reader.read_i32()?)
    } else {
        None
    };
    let first_sample_flags = read_optional_u32(
        reader,
        is_set(flags, TRUN_FIRST_SAMPLE_FLAGS_PRESENT),
    )?;
    Ok(RunHeader { version, flags, count: count as usize, data_offset, first_sample_flags })
}

fn add_signed(base: u64, offset: i32) -> (result: Result<u64>)
    ensures
        if 0 <= base + offset <= u64::MAX {
            result == Ok::<u64, Mp4Error>((base + offset) as u64)
        } else {
            result == Err::<u64, Mp4Error>(
                Mp4Error::InvalidData("fragment data offset exceeds the input"),
            )
        },
{
    let sum: i128 = base as i128 + offset as i128;
    if sum < 0 || sum > u64::MAX as i128 {
        Err(Mp4Error::InvalidData("fragment data offset exceeds the input"))
    } else {
        Ok(sum as u64)
    }
}

fn find_run_start(header: RunHeader, base: u64, data_end: Option<u64>) -> (result: Result<u64>)
    ensures
        result == run_start(header, base, data_end),
{
    match header.data_offset {
        Some(offset) => add_signed(base, offset),
        None => match data_end {
            Some(end) => Ok(end),
            None => Err(Mp4Error::UnsupportedFeature("first trun has no data offset")),
        },
    }
}

fn read_number_or<'input, I: MediaInput>(
    reader: &mut BoundedReader<'input, I>,
    present: bool,
    default: Option<u32>,
    message: &'static str,
) -> (result: Result<u32>)
    requires
        old(reader).well_formed(),
        old(reader)@.error is None,
    ensures
        final(reader).well_formed(),
        final(reader).dependable() == old(reader).dependable(),
        reads(
            result,
            final(reader)@,
            number_or(old(reader)@, present, default, message),
            old(reader).dependable(),
        ),
{
    if present {
        reader.read_u32()
    } else {
        match default {
            Some(value) => Ok(value),
            None => Err(Mp4Error::InvalidData(message)),
        }
    }
}

fn read_run_fields<'input, I: MediaInput>(
    reader: &mut BoundedReader<'input, I>,
    header: RunHeader,
    context: RunContext,
    index: usize,
) -> (result: Result<RunFields>)
    requires
        old(reader).well_formed(),
        old(reader)@.error is None,
    ensures
        final(reader).well_formed(),
        final(reader).dependable() == old(reader).dependable(),
        reads(
            result,
            final(reader)@,
            run_fields(old(reader)@, header, context, index as int),
            old(reader).dependable(),
        ),
{
    let duration: u32 = read_number_or(
        reader,
        is_set(header.flags, TRUN_SAMPLE_DURATION_PRESENT),
        context.default_duration,
        "fragment sample has no duration",
    )?;
    let size: u32 = read_number_or(
        reader,
        is_set(header.flags, TRUN_SAMPLE_SIZE_PRESENT),
        context.default_size,
        "fragment sample has no size",
    )?;
    let default_flags = if index == 0 && header.first_sample_flags.is_some() {
        header.first_sample_flags
    } else {
        context.default_flags
    };
    let flags: u32 = read_number_or(
        reader,
        is_set(header.flags, TRUN_SAMPLE_FLAGS_PRESENT),
        default_flags,
        "fragment sample has no dependency flags",
    )?;
    let composition_offset: i64 = if !is_set(
        header.flags,
        TRUN_SAMPLE_COMPOSITION_TIME_OFFSET_PRESENT,
    ) {
        0
    } else if header.version == 0 {
        let offset: u32 = reader.read_u32()?;
        offset as i64
    } else {
        let offset: i32 = reader.read_i32()?;
        offset as i64
    };
    Ok(RunFields { duration, size, flags, composition_offset })
}

/// Where the next sample of a run lies and when it is decoded, and the samples
/// so far.
struct Progress {
    offset: u64,
    decode_time: i64,
    samples: Vec<Sample>,
}

impl View for Progress {
    type V = ProgressView;

    closed spec fn view(&self) -> ProgressView {
        ProgressView {
            offset: self.offset,
            decode_time: self.decode_time,
            samples: self.samples@,
        }
    }
}

fn read_run_sample<'input, I: MediaInput>(
    reader: &mut BoundedReader<'input, I>,
    file_length: u64,
    header: RunHeader,
    context: RunContext,
    index: usize,
    progress: Progress,
) -> (result: Result<Progress>)
    requires
        old(reader).well_formed(),
        old(reader)@.error is None,
    ensures
        final(reader).well_formed(),
        final(reader).dependable() == old(reader).dependable(),
        reads_view(
            result,
            final(reader)@,
            run_sample(
                old(reader)@,
                file_length as int,
                header,
                context,
                index as int,
                progress@,
            ),
            old(reader).dependable(),
        ),
{
    let fields = read_run_fields(reader, header, context, index)?;
    if fields.duration == 0 {
        return Err(Mp4Error::InvalidData("fragment sample duration is zero"));
    }
    if fields.size == 0 {
        return Err(Mp4Error::InvalidData("fragment sample size is zero"));
    }
    let end: u64 = match progress.offset.checked_add(fields.size as u64) {
        Some(end) => end,
        None => return Err(Mp4Error::IntegerOverflow),
    };
    if end > file_length {
        return Err(Mp4Error::InvalidData("fragment sample data exceeds the input"));
    }
    let decode_time: i64 = progress.decode_time;
    let presentation_time: i64 = match decode_time.checked_add(fields.composition_offset) {
        Some(time) => time,
        None => return Err(Mp4Error::IntegerOverflow),
    };
    let next: i64 = match decode_time.checked_add(fields.duration as i64) {
        Some(time) => time,
        None => return Err(Mp4Error::IntegerOverflow),
    };
    let offset: u64 = progress.offset;
    let mut samples = progress.samples;
    samples.push(
        Sample {
            offset,
            size: fields.size,
            decode_time,
            presentation_time,
            duration: fields.duration,
            description_index: context.description_index,
            sync: !is_set(fields.flags, SAMPLE_IS_NON_SYNC),
        },
    );
    Ok(Progress { offset: end, decode_time: next, samples })
}

fn read_run_samples<'input, I: MediaInput>(
    reader: &mut BoundedReader<'input, I>,
    file_length: u64,
    header: RunHeader,
    context: RunContext,
    start: Progress,
) -> (result: Result<Progress>)
    requires
        old(reader).well_formed(),
        old(reader)@.error is None,
    ensures
        final(reader).well_formed(),
        final(reader).dependable() == old(reader).dependable(),
        reads_view(
            result,
            final(reader)@,
            run_samples(old(reader)@, file_length as int, header, context, 0, start@),
            old(reader).dependable(),
        ),
        result matches Ok(progress) ==> progress@.samples.len() == start@.samples.len()
            + header.count,
{
    let ghost whole = run_samples(reader@, file_length as int, header, context, 0, start@);
    let ghost begun = start@;
    let mut progress = start;
    let mut index: usize = 0;
    while index < header.count
        invariant
            index <= header.count,
            reader.well_formed(),
            reader@.error is None,
            reader.dependable() == old(reader).dependable(),
            begun == start@,
            progress@.samples.len() == begun.samples.len() + index,
            whole == run_samples(old(reader)@, file_length as int, header, context, 0, begun),
            whole == run_samples(
                reader@,
                file_length as int,
                header,
                context,
                index as int,
                progress@,
            ),
        decreases header.count - index,
    {
        proof {
            reveal_with_fuel(run_samples, 2);
        }
        progress = read_run_sample(reader, file_length, header, context, index, progress)?;
        index = index + 1;
    }
    Ok(progress)
}

/// Where the data of the runs so far ends, when the next sample is decoded, and
/// the samples so far.
struct Runs {
    data_end: Option<u64>,
    decode_time: i64,
    samples: Vec<Sample>,
}

impl View for Runs {
    type V = RunsView;

    closed spec fn view(&self) -> RunsView {
        RunsView {
            data_end: self.data_end,
            decode_time: self.decode_time,
            samples: self.samples@,
        }
    }
}

fn parse_track_run<'input, I: MediaInput>(
    file: &Mp4File<'input, I>,
    header: BoxHeader,
    context: RunContext,
    runs: Runs,
) -> (result: Result<Runs>)
    requires
        runs@.samples.len() <= MAX_SAMPLE_COUNT,
    ensures
        meets_view(result, run_of(file@, header, context, runs@), file@.dependable),
        result matches Ok(runs) ==> runs@.samples.len() <= MAX_SAMPLE_COUNT,
{
    let mut reader = payload_reader(file, header)?;
    let run = read_run_header(&mut reader, runs.samples.len())?;
    let offset: u64 = find_run_start(run, context.base_data_offset, runs.data_end)?;
    let start = Progress { offset, decode_time: runs.decode_time, samples: runs.samples };
    let progress = read_run_samples(&mut reader, file.length(), run, context, start)?;
    reader.require_finished("trun has trailing bytes")?;
    Ok(
        Runs {
            data_end: Some(progress.offset),
            decode_time: progress.decode_time,
            samples: progress.samples,
        },
    )
}

/// An error of the first runs is the error of all.
proof fn lemma_runs_error(
    file: FileView,
    boxes: Seq<BoxHeader>,
    context: RunContext,
    start: RunsView,
    part: int,
    count: int,
)
    requires
        part <= count,
        runs_of(file, boxes, context, start, part) is Err,
    ensures
        runs_of(file, boxes, context, start, count) == runs_of(file, boxes, context, start, part),
    decreases count - part,
{
    if part < count {
        lemma_runs_error(file, boxes, context, start, part, count - 1);
    }
}

fn parse_track_runs<'input, I: MediaInput>(
    file: &Mp4File<'input, I>,
    boxes: &Vec<BoxHeader>,
    context: RunContext,
    start: Runs,
) -> (result: Result<Runs>)
    requires
        start@.samples.len() <= MAX_SAMPLE_COUNT,
    ensures
        meets_view(
            result,
            runs_of(file@, boxes@, context, start@, boxes@.len() as int),
            file@.dependable,
        ),
        result matches Ok(runs) ==> runs@.samples.len() <= MAX_SAMPLE_COUNT,
{
    let ghost begun = start@;
    let mut runs = start;
    let mut index: usize = 0;
    while index < boxes.len()
        invariant
            index <= boxes@.len(),
            begun == start@,
            runs@.samples.len() <= MAX_SAMPLE_COUNT,
            runs_of(file@, boxes@, context, begun, index as int) == Ok::<RunsView, Mp4Error>(runs@),
        decreases boxes@.len() - index,
    {
        proof {
            if runs_of(file@, boxes@, context, begun, index + 1) is Err {
                lemma_runs_error(
                    file@,
                    boxes@,
                    context,
                    begun,
                    index + 1,
                    boxes@.len() as int,
                );
            }
        }
        runs = parse_track_run(file, boxes[index], context, runs)?;
        index = index + 1;
    }
    Ok(runs)
}

/// Tracks as mathematics.
pub open spec fn track_views(tracks: Seq<TrackData>) -> Seq<TrackView> {
    tracks.map_values(|track: TrackData| track@)
}

/// The tracks, and when the next sample of each is decoded.
pub struct FragmentState {
    pub tracks: Seq<TrackView>,
    pub next: Seq<i64>,
}

/// The first track with a number from `index` on, or the number of tracks.
pub open spec fn track_from_id(tracks: Seq<TrackView>, id: u32, index: int) -> int
    decreases tracks.len() - index,
{
    if index >= tracks.len() {
        tracks.len() as int
    } else if tracks[index].id == id {
        index
    } else {
        track_from_id(tracks, id, index + 1)
    }
}

/// A value, or what stands in for it.
pub open spec fn either(value: Option<u32>, default: Option<u32>) -> Option<u32> {
    if value is Some {
        value
    } else {
        default
    }
}

/// The description of the samples of a fragment, counted from zero.
pub open spec fn fragment_description(
    header: TrackFragmentHeader,
    defaults: Option<TrackExtends>,
    count: int,
) -> Result<usize> {
    match either(
        header.description_index,
        match defaults {
            Some(entry) => Some(entry.description_index),
            None => None,
        },
    ) {
        None => Err(Mp4Error::InvalidData("fragment has no sample-description index")),
        Some(index) => if index - 1 >= count {
            Err(Mp4Error::InvalidData("fragment sample-description index is out of range"))
        } else {
            Ok((index - 1) as usize)
        },
    }
}

/// Where the data offsets of a fragment count from.
pub open spec fn data_base(header: TrackFragmentHeader, movie_fragment: BoxHeader) -> Result<u64> {
    match header.base_data_offset {
        Some(offset) => Ok(offset),
        None => if header.default_base_is_moof {
            Ok(movie_fragment.offset)
        } else {
            Err(
                Mp4Error::UnsupportedFeature(
                    "fragment tfhd has no explicit or moof-relative data base",
                ),
            )
        },
    }
}

/// When the first sample of a fragment is decoded.
pub open spec fn fragment_time(file: FileView, time_box: Option<BoxHeader>, next: i64) -> Result<
    i64,
> {
    match time_box {
        Some(time_box) => tfdt_of(file, time_box),
        None => Ok(next),
    }
}

/// What holds of all runs of a fragment, and when the first sample is decoded.
pub open spec fn fragment_context(
    file: FileView,
    movie_fragment: BoxHeader,
    header: TrackFragmentHeader,
    time_box: Option<BoxHeader>,
    defaults: Option<TrackExtends>,
    description_count: int,
    next: i64,
) -> Result<(RunContext, i64)> {
    match fragment_description(header, defaults, description_count) {
        Err(error) => Err(error),
        Ok(description_index) => match fragment_time(file, time_box, next) {
            Err(error) => Err(error),
            Ok(decode_time) => match data_base(header, movie_fragment) {
                Err(error) => Err(error),
                Ok(base_data_offset) => Ok(
                    (
                        RunContext {
                            base_data_offset,
                            description_index,
                            default_duration: either(
                                header.default_duration,
                                match defaults {
                                    Some(entry) => Some(entry.duration),
                                    None => None,
                                },
                            ),
                            default_size: either(
                                header.default_size,
                                match defaults {
                                    Some(entry) => Some(entry.size),
                                    None => None,
                                },
                            ),
                            default_flags: either(
                                header.default_flags,
                                match defaults {
                                    Some(entry) => Some(entry.flags),
                                    None => None,
                                },
                            ),
                        },
                        decode_time,
                    ),
                ),
            },
        },
    }
}

/// The samples that a fragment adds to a track.
pub open spec fn fragment_samples(
    file: FileView,
    movie_fragment: BoxHeader,
    header: TrackFragmentHeader,
    time_box: Option<BoxHeader>,
    runs: Seq<BoxHeader>,
    defaults: Option<TrackExtends>,
    track: TrackView,
    next: i64,
) -> Result<RunsView> {
    match fragment_context(
        file,
        movie_fragment,
        header,
        time_box,
        defaults,
        track.descriptions.len() as int,
        next,
    ) {
        Err(error) => Err(error),
        Ok((context, decode_time)) => match runs_of(
            file,
            runs,
            context,
            RunsView { data_end: None, decode_time, samples: Seq::empty() },
            runs.len() as int,
        ) {
            Err(error) => Err(error),
            Ok(after) => if track.samples.len() + after.samples.len() > MAX_SAMPLE_COUNT {
                Err(Mp4Error::InvalidData("fragment sample count exceeds its limit"))
            } else {
                Ok(after)
            },
        },
    }
}

/// The places of the boxes of a track fragment.
pub open spec fn fragment_slots() -> Seq<Slot> {
    seq![
        single(TFHD, "duplicate tfhd box"),
        single(TFDT, "duplicate tfdt box"),
        Slot {
            first: TRUN,
            second: TRUN,
            limit: usize::MAX,
            message: "traf has too many trun boxes",
        },
    ]
}

/// The tracks with the samples of one track fragment.
pub open spec fn fragment_from(
    file: FileView,
    movie_fragment: BoxHeader,
    found: Seq<Seq<BoxHeader>>,
    defaults: Seq<TrackExtends>,
    state: FragmentState,
) -> Result<FragmentState> {
    match first_of(found[0]) {
        None => Err(Mp4Error::InvalidData("traf has no tfhd box")),
        Some(header_box) => match tfhd_of(file, header_box) {
            Err(error) => Err(error),
            Ok(header) => {
                let index = track_from_id(state.tracks, header.track_id, 0);
                if index >= state.tracks.len() {
                    Err(Mp4Error::InvalidData("fragment references an unknown track"))
                } else if state.tracks[index].descriptions.len() == 0 {
                    Ok(state)
                } else if found[2].len() == 0 {
                    if header.duration_is_empty {
                        Ok(state)
                    } else {
                        Err(Mp4Error::InvalidData("non-empty traf has no trun box"))
                    }
                } else if header.duration_is_empty {
                    Err(Mp4Error::InvalidData("duration-is-empty traf contains sample runs"))
                } else {
                    match fragment_samples(
                        file,
                        movie_fragment,
                        header,
                        first_of(found[1]),
                        found[2],
                        extends_for(defaults, header.track_id),
                        state.tracks[index],
                        state.next[index],
                    ) {
                        Err(error) => Err(error),
                        Ok(runs) => Ok(
                            FragmentState {
                                tracks: state.tracks.update(
                                    index,
                                    extended(state.tracks[index], runs.samples),
                                ),
                                next: state.next.update(index, runs.decode_time),
                            },
                        ),
                    }
                }
            },
        },
    }
}

/// A track with more samples.
pub open spec fn extended(track: TrackView, samples: Seq<Sample>) -> TrackView {
    TrackView { samples: track.samples + samples, ..track }
}

/// The tracks with the samples of one track fragment.
pub open spec fn track_fragment_of(
    file: FileView,
    movie_fragment: BoxHeader,
    track_fragment: BoxHeader,
    defaults: Seq<TrackExtends>,
    state: FragmentState,
) -> Result<FragmentState> {
    match sorted_children(file, track_fragment, fragment_slots()) {
        Err(error) => Err(error),
        Ok(found) => fragment_from(file, movie_fragment, found, defaults, state),
    }
}

/// The tracks with the samples of the track fragments from `offset` on.
pub open spec fn track_fragments_scan(
    file: FileView,
    movie_fragment: BoxHeader,
    offset: int,
    end: int,
    defaults: Seq<TrackExtends>,
    state: FragmentState,
) -> Result<FragmentState>
    decreases end - offset,
{
    if offset == end {
        Ok(state)
    } else {
        match header_at(file.content, offset, end) {
            Err(error) => Err(error),
            Ok(header) => match if header.kind.code == TRAF {
                track_fragment_of(file, movie_fragment, header, defaults, state)
            } else {
                Ok(state)
            } {
                Err(error) => Err(error),
                Ok(state) => if 0 < header.size <= end - offset {
                    track_fragments_scan(
                        file,
                        movie_fragment,
                        offset + header.size,
                        end,
                        defaults,
                        state,
                    )
                } else {
                    Ok(state)
                },
            },
        }
    }
}

/// The tracks with the samples of one movie fragment.
pub open spec fn movie_fragment_of(
    file: FileView,
    movie_fragment: BoxHeader,
    defaults: Seq<TrackExtends>,
    state: FragmentState,
) -> Result<FragmentState> {
    match children_of(file, movie_fragment) {
        Err(error) => Err(error),
        Ok((start, end)) => track_fragments_scan(file, movie_fragment, start, end, defaults, state),
    }
}

/// The tracks with the samples of the movie fragments from `offset` on.
pub open spec fn movie_fragments_scan(
    file: FileView,
    offset: int,
    defaults: Seq<TrackExtends>,
    state: FragmentState,
) -> Result<FragmentState>
    decreases file.length - offset,
{
    if offset == file.length {
        Ok(state)
    } else {
        match header_at(file.content, offset, file.length) {
            Err(error) => Err(error),
            Ok(header) => match if header.kind.code == MOOF {
                movie_fragment_of(file, header, defaults, state)
            } else {
                Ok(state)
            } {
                Err(error) => Err(error),
                Ok(state) => if 0 < header.size <= file.length - offset {
                    movie_fragments_scan(file, offset + header.size, defaults, state)
                } else {
                    Ok(state)
                },
            },
        }
    }
}

/// When a track ends.
pub open spec fn end_of(track: TrackView) -> int {
    if track.samples.len() == 0 {
        0
    } else {
        track.samples.last().decode_time + track.samples.last().duration
    }
}

/// When the first fragment of each track starts, unless it says otherwise.
pub open spec fn ends_of(tracks: Seq<TrackView>) -> Result<Seq<i64>> {
    if exists|i: int| 0 <= i < tracks.len() && end_of(#[trigger] tracks[i]) > i64::MAX {
        Err(Mp4Error::IntegerOverflow)
    } else {
        Ok(Seq::new(tracks.len(), |i: int| end_of(tracks[i]) as i64))
    }
}

/// The tracks with the samples of all fragments of the file.
pub open spec fn fragmented(
    file: FileView,
    movie_extends: Option<BoxHeader>,
    tracks: Seq<TrackView>,
) -> Result<Seq<TrackView>> {
    match movie_extends {
        None => Ok(tracks),
        Some(movie_extends) => match extends_of(file, movie_extends) {
            Err(error) => Err(error),
            Ok(defaults) => match ends_of(tracks) {
                Err(error) => Err(error),
                Ok(next) => match movie_fragments_scan(
                    file,
                    0,
                    defaults,
                    FragmentState { tracks, next },
                ) {
                    Err(error) => Err(error),
                    Ok(state) => Ok(state.tracks),
                },
            },
        },
    }
}

fn find_track(tracks: &Vec<TrackData>, id: u32) -> (index: usize)
    ensures
        index == track_from_id(track_views(tracks@), id, 0),
        index <= tracks@.len(),
{
    let mut index: usize = 0;
    while index < tracks.len()
        invariant
            index <= tracks@.len(),
            track_from_id(track_views(tracks@), id, 0) == track_from_id(
                track_views(tracks@),
                id,
                index as int,
            ),
        decreases tracks@.len() - index,
    {
        assert(track_views(tracks@)[index as int] == tracks@[index as int]@);
        if tracks[index].id == id {
            return index;
        }
        index = index + 1;
    }
    index
}

fn value_or(value: Option<u32>, default: Option<u32>) -> (chosen: Option<u32>)
    ensures
        chosen == either(value, default),
{
    if value.is_some() {
        value
    } else {
        default
    }
}

fn describe_fragment(
    header: TrackFragmentHeader,
    defaults: Option<TrackExtends>,
    count: usize,
) -> (result: Result<usize>)
    requires
        header.description_index != Some(0u32),
        defaults matches Some(entry) ==> entry.description_index != 0,
    ensures
        result == fragment_description(header, defaults, count as int),
{
    let default_index: Option<u32> = match defaults {
        Some(entry) => Some(entry.description_index),
        None => None,
    };
    match value_or(header.description_index, default_index) {
        None => Err(Mp4Error::InvalidData("fragment has no sample-description index")),
        Some(index) => if (index - 1) as usize >= count {
            Err(Mp4Error::InvalidData("fragment sample-description index is out of range"))
        } else {
            Ok((index - 1) as usize)
        },
    }
}

fn find_data_base(header: TrackFragmentHeader, movie_fragment: BoxHeader) -> (result: Result<u64>)
    ensures
        result == data_base(header, movie_fragment),
{
    match header.base_data_offset {
        Some(offset) => Ok(offset),
        None => if header.default_base_is_moof {
            Ok(movie_fragment.offset)
        } else {
            Err(
                Mp4Error::UnsupportedFeature(
                    "fragment tfhd has no explicit or moof-relative data base",
                ),
            )
        },
    }
}

fn prepare_runs<'input, I: MediaInput>(
    file: &Mp4File<'input, I>,
    movie_fragment: BoxHeader,
    header: TrackFragmentHeader,
    time_box: Option<BoxHeader>,
    defaults: Option<TrackExtends>,
    description_count: usize,
    next: i64,
) -> (result: Result<(RunContext, i64)>)
    requires
        header.description_index != Some(0u32),
        defaults matches Some(entry) ==> entry.description_index != 0,
    ensures
        meets(
            result,
            fragment_context(
                file@,
                movie_fragment,
                header,
                time_box,
                defaults,
                description_count as int,
                next,
            ),
            file@.dependable,
        ),
{
    let description_index: usize = describe_fragment(header, defaults, description_count)?;
    let decode_time: i64 = match time_box {
        Some(time_box) => parse_track_fragment_decode_time(file, time_box)?,
        None => next,
    };
    let base_data_offset: u64 = find_data_base(header, movie_fragment)?;
    let (duration, size, flags): (Option<u32>, Option<u32>, Option<u32>) = match defaults {
        Some(entry) => (Some(entry.duration), Some(entry.size), Some(entry.flags)),
        None => (None, None, None),
    };
    Ok(
        (
            RunContext {
                base_data_offset,
                description_index,
                default_duration: value_or(header.default_duration, duration),
                default_size: value_or(header.default_size, size),
                default_flags: value_or(header.default_flags, flags),
            },
            decode_time,
        ),
    )
}

fn parse_fragment_samples<'input, I: MediaInput>(
    file: &Mp4File<'input, I>,
    movie_fragment: BoxHeader,
    header: TrackFragmentHeader,
    time_box: Option<BoxHeader>,
    run_boxes: &Vec<BoxHeader>,
    defaults: Option<TrackExtends>,
    track: &TrackData,
    next: i64,
) -> (result: Result<Runs>)
    requires
        header.description_index != Some(0u32),
        defaults matches Some(entry) ==> entry.description_index != 0,
    ensures
        meets_view(
            result,
            fragment_samples(
                file@,
                movie_fragment,
                header,
                time_box,
                run_boxes@,
                defaults,
                track@,
                next,
            ),
            file@.dependable,
        ),
{
    let (context, decode_time) = prepare_runs(
        file,
        movie_fragment,
        header,
        time_box,
        defaults,
        track.sample_descriptions.len(),
        next,
    )?;
    let start = Runs { data_end: None, decode_time, samples: Vec::new() };
    assert(start@.samples =~= Seq::<Sample>::empty());
    let runs = parse_track_runs(file, run_boxes, context, start)?;
    let count: usize = track.samples.len();
    if count > MAX_SAMPLE_COUNT || runs.samples.len() > MAX_SAMPLE_COUNT - count {
        return Err(Mp4Error::InvalidData("fragment sample count exceeds its limit"));
    }
    Ok(runs)
}

/// The tracks and times are those of a state.
pub open spec fn holds_state(
    tracks: Seq<TrackData>,
    next: Seq<i64>,
    state: FragmentState,
) -> bool {
    track_views(tracks) == state.tracks && next == state.next
}

/// A step changed the tracks as it says, or met its error, or the fault of an
/// input that is not dependable.
pub open spec fn steps(
    result: Result<()>,
    tracks: Seq<TrackData>,
    next: Seq<i64>,
    expected: Result<FragmentState>,
    dependable: bool,
) -> bool {
    match (result, expected) {
        (Ok(_), Ok(state)) => holds_state(tracks, next, state),
        (Ok(_), Err(_)) => false,
        (Err(error), Ok(_)) => !dependable && is_fault(error),
        (Err(error), Err(wanted)) => error == wanted || !dependable && is_fault(error),
    }
}

fn parse_fragment_boxes<'input, I: MediaInput>(
    file: &Mp4File<'input, I>,
    movie_fragment: BoxHeader,
    found: &Vec<Vec<BoxHeader>>,
    defaults: &Vec<TrackExtends>,
    tracks: &mut Vec<TrackData>,
    next_decode_times: &mut Vec<i64>,
) -> (result: Result<()>)
    requires
        found@.len() == 3,
        all_described(defaults@),
        old(next_decode_times)@.len() == old(tracks)@.len(),
    ensures
        final(next_decode_times)@.len() == final(tracks)@.len(),
        steps(
            result,
            final(tracks)@,
            final(next_decode_times)@,
            fragment_from(
                file@,
                movie_fragment,
                found_boxes(*found),
                defaults@,
                FragmentState {
                    tracks: track_views(old(tracks)@),
                    next: old(next_decode_times)@,
                },
            ),
            file@.dependable,
        ),
{
    let header_box = match first_found(found, 0) {
        Some(header) => header,
        None => return Err(Mp4Error::InvalidData("traf has no tfhd box")),
    };
    let header = parse_track_fragment_header(file, header_box)?;
    let index: usize = find_track(tracks, header.track_id);
    if index >= tracks.len() {
        return Err(Mp4Error::InvalidData("fragment references an unknown track"));
    }
    assert(track_views(tracks@)[index as int] == tracks@[index as int]@);
    assert(found_boxes(*found)[2] == found@[2]@);
    if tracks[index].sample_descriptions.len() == 0 {
        return Ok(());
    }
    if found[2].len() == 0 {
        if header.duration_is_empty {
            return Ok(());
        }
        return Err(Mp4Error::InvalidData("non-empty traf has no trun box"));
    }
    if header.duration_is_empty {
        return Err(Mp4Error::InvalidData("duration-is-empty traf contains sample runs"));
    }
    let mut runs = parse_fragment_samples(
        file,
        movie_fragment,
        header,
        first_found(found, 1),
        &found[2],
        find_extends(defaults, header.track_id),
        &tracks[index],
        next_decode_times[index],
    )?;
    let ghost before = tracks@;
    let ghost added = runs@.samples;
    tracks[index].samples.append(&mut runs.samples);
    next_decode_times[index] = runs.decode_time;
    proof {
        let expected = track_views(before).update(
            index as int,
            extended(track_views(before)[index as int], added),
        );
        assert forall|i: int| 0 <= i < tracks@.len() implies track_views(tracks@)[i]
            == expected[i] by {
            if i == index {
                assert(tracks@[i].samples@ =~= before[i].samples@ + added);
            } else {
                assert(tracks@[i] == before[i]);
            }
        }
        assert(track_views(tracks@) =~= expected);
    }
    Ok(())
}

fn fragment_places() -> (slots: Vec<Slot>)
    ensures
        slots@ == fragment_slots(),
{
    let mut slots: Vec<Slot> = Vec::new();
    slots.push(Slot { first: TFHD, second: TFHD, limit: 1, message: "duplicate tfhd box" });
    slots.push(Slot { first: TFDT, second: TFDT, limit: 1, message: "duplicate tfdt box" });
    slots.push(
        Slot {
            first: TRUN,
            second: TRUN,
            limit: usize::MAX,
            message: "traf has too many trun boxes",
        },
    );
    assert(slots@ =~= fragment_slots());
    slots
}

fn parse_track_fragment<'input, I: MediaInput>(
    file: &Mp4File<'input, I>,
    movie_fragment: BoxHeader,
    track_fragment: BoxHeader,
    defaults: &Vec<TrackExtends>,
    tracks: &mut Vec<TrackData>,
    next_decode_times: &mut Vec<i64>,
) -> (result: Result<()>)
    requires
        all_described(defaults@),
        old(next_decode_times)@.len() == old(tracks)@.len(),
    ensures
        final(next_decode_times)@.len() == final(tracks)@.len(),
        steps(
            result,
            final(tracks)@,
            final(next_decode_times)@,
            track_fragment_of(
                file@,
                movie_fragment,
                track_fragment,
                defaults@,
                FragmentState {
                    tracks: track_views(old(tracks)@),
                    next: old(next_decode_times)@,
                },
            ),
            file@.dependable,
        ),
{
    let slots = fragment_places();
    let found = sort_children(file, track_fragment, &slots)?;
    parse_fragment_boxes(file, movie_fragment, &found, defaults, tracks, next_decode_times)
}

fn parse_movie_fragment<'input, I: MediaInput>(
    file: &Mp4File<'input, I>,
    movie_fragment: BoxHeader,
    defaults: &Vec<TrackExtends>,
    tracks: &mut Vec<TrackData>,
    next_decode_times: &mut Vec<i64>,
) -> (result: Result<()>)
    requires
        all_described(defaults@),
        old(next_decode_times)@.len() == old(tracks)@.len(),
    ensures
        final(next_decode_times)@.len() == final(tracks)@.len(),
        steps(
            result,
            final(tracks)@,
            final(next_decode_times)@,
            movie_fragment_of(
                file@,
                movie_fragment,
                defaults@,
                FragmentState {
                    tracks: track_views(old(tracks)@),
                    next: old(next_decode_times)@,
                },
            ),
            file@.dependable,
        ),
{
    let mut iter = file.children(movie_fragment)?;
    let ghost view = file@;
    let ghost end = iter@.end;
    let ghost whole = movie_fragment_of(
        view,
        movie_fragment,
        defaults@,
        FragmentState { tracks: track_views(tracks@), next: next_decode_times@ },
    );
    loop
        invariant
            view == file@,
            iter@.file == view,
            iter@.end == end,
            !iter@.failed,
            0 <= iter@.next_offset,
            0 <= end <= u64::MAX,
            all_described(defaults@),
            next_decode_times@.len() == tracks@.len(),
            whole == movie_fragment_of(
                view,
                movie_fragment,
                defaults@,
                FragmentState {
                    tracks: track_views(old(tracks)@),
                    next: old(next_decode_times)@,
                },
            ),
            whole == track_fragments_scan(
                view,
                movie_fragment,
                iter@.next_offset,
                end,
                defaults@,
                FragmentState { tracks: track_views(tracks@), next: next_decode_times@ },
            ),
        decreases
            if iter@.next_offset <= end {
                end - iter@.next_offset
            } else {
                0
            },
    {
        proof {
            reveal_with_fuel(track_fragments_scan, 2);
            lemma_header_at(view.content, iter@.next_offset, end);
        }
        let child = match iter.next() {
            None => return Ok(()),
            Some(child) => child?,
        };
        if child.kind.code == TRAF {
            parse_track_fragment(
                file,
                movie_fragment,
                child,
                defaults,
                tracks,
                next_decode_times,
            )?;
        }
    }
}

fn parse_movie_fragments<'input, I: MediaInput>(
    file: &Mp4File<'input, I>,
    defaults: &Vec<TrackExtends>,
    tracks: &mut Vec<TrackData>,
    next_decode_times: &mut Vec<i64>,
) -> (result: Result<()>)
    requires
        all_described(defaults@),
        old(next_decode_times)@.len() == old(tracks)@.len(),
    ensures
        steps(
            result,
            final(tracks)@,
            final(next_decode_times)@,
            movie_fragments_scan(
                file@,
                0,
                defaults@,
                FragmentState {
                    tracks: track_views(old(tracks)@),
                    next: old(next_decode_times)@,
                },
            ),
            file@.dependable,
        ),
{
    let mut iter = file.boxes();
    let ghost view = file@;
    let ghost whole = movie_fragments_scan(
        view,
        0,
        defaults@,
        FragmentState { tracks: track_views(tracks@), next: next_decode_times@ },
    );
    let length: u64 = file.length();
    loop
        invariant
            view == file@,
            view.length == length,
            iter@.file == view,
            iter@.end == length,
            !iter@.failed,
            0 <= iter@.next_offset,
            all_described(defaults@),
            next_decode_times@.len() == tracks@.len(),
            whole == movie_fragments_scan(
                view,
                0,
                defaults@,
                FragmentState {
                    tracks: track_views(old(tracks)@),
                    next: old(next_decode_times)@,
                },
            ),
            whole == movie_fragments_scan(
                view,
                iter@.next_offset,
                defaults@,
                FragmentState { tracks: track_views(tracks@), next: next_decode_times@ },
            ),
        decreases
            if iter@.next_offset <= length {
                length - iter@.next_offset
            } else {
                0
            },
    {
        proof {
            reveal_with_fuel(movie_fragments_scan, 2);
            lemma_header_at(view.content, iter@.next_offset, length as int);
        }
        let header = match iter.next() {
            None => return Ok(()),
            Some(header) => header?,
        };
        if header.kind.code == MOOF {
            parse_movie_fragment(file, header, defaults, tracks, next_decode_times)?;
        }
    }
}

fn track_ends(tracks: &Vec<TrackData>) -> (result: Result<Vec<i64>>)
    ensures
        match ends_of(track_views(tracks@)) {
            Err(error) => result matches Err(found) && found == error,
            Ok(ends) => result matches Ok(found) && found@ == ends,
        },
{
    let ghost views = track_views(tracks@);
    let count: usize = tracks.len();
    let mut ends: Vec<i64> = Vec::with_capacity(count);
    let mut index: usize = 0;
    while index < count
        invariant
            index <= count == tracks@.len(),
            views == track_views(tracks@),
            ends@.len() == index,
            forall|i: int|
                0 <= i < index ==> end_of(#[trigger] views[i]) <= i64::MAX && ends@[i] == end_of(
                    views[i],
                ),
        decreases count - index,
    {
        assert(views[index as int] == tracks@[index as int]@);
        let sample_count: usize = tracks[index].samples.len();
        let end: i64 = if sample_count == 0 {
            0
        } else {
            let last = tracks[index].samples[sample_count - 1];
            match last.decode_time.checked_add(last.duration as i64) {
                Some(end) => end,
                None => return Err(Mp4Error::IntegerOverflow),
            }
        };
        ends.push(end);
        index = index + 1;
    }
    assert(ends@ =~= Seq::new(views.len(), |i: int| end_of(views[i]) as i64));
    Ok(ends)
}

/// Adds the samples of all fragments to their tracks.
pub fn append_fragmented_samples<'input, I: MediaInput>(
    file: &Mp4File<'input, I>,
    movie_extends: Option<BoxHeader>,
    tracks: &mut Vec<TrackData>,
) -> (result: Result<()>)
    ensures
        match (result, fragmented(file@, movie_extends, track_views(old(tracks)@))) {
            (Ok(_), Ok(views)) => track_views(final(tracks)@) == views,
            (Ok(_), Err(_)) => false,
            (Err(error), Ok(_)) => !file@.dependable && is_fault(error),
            (Err(error), Err(wanted)) => error == wanted || !file@.dependable && is_fault(error),
        },
{
    let movie_extends = match movie_extends {
        Some(header) => header,
        None => return Ok(()),
    };
    let defaults = parse_track_extends(file, movie_extends)?;
    let mut next_decode_times = track_ends(tracks)?;
    parse_movie_fragments(file, &defaults, tracks, &mut next_decode_times)
}

/// The samples of a run follow each other without gaps, in the file and in
/// time.
pub proof fn law_samples_of_a_run_follow_each_other(
    cursor: ByteCursor,
    file_length: int,
    header: RunHeader,
    context: RunContext,
    index: int,
    progress: ProgressView,
    place: int,
)
    requires
        run_samples(cursor, file_length, header, context, index, progress).1.error is None,
        progress.samples.len() <= place,
        place + 1 < run_samples(cursor, file_length, header, context, index, progress).0.samples.len(),
    ensures
        ({
            let samples = run_samples(
                cursor,
                file_length,
                header,
                context,
                index,
                progress,
            ).0.samples;
            samples[place + 1].offset == samples[place].offset + samples[place].size && samples[place
                + 1].decode_time == samples[place].decode_time + samples[place].duration
        }),
    decreases header.count - index,
{
    lemma_run_keeps(cursor, file_length, header, context, index, progress);
    if cursor.error is None && index < header.count {
        let (next, after) = run_sample(cursor, file_length, header, context, index, progress);
        lemma_run_keeps(after, file_length, header, context, index + 1, next);
        if after.error is Some {
            reveal_with_fuel(run_samples, 2);
        } else if next.samples.len() <= place {
            law_samples_of_a_run_follow_each_other(
                after,
                file_length,
                header,
                context,
                index + 1,
                next,
                place,
            );
        } else {
            if index + 1 < header.count {
                let (second, behind) = run_sample(
                    after,
                    file_length,
                    header,
                    context,
                    index + 1,
                    next,
                );
                lemma_run_keeps(behind, file_length, header, context, index + 2, second);
                reveal_with_fuel(run_samples, 3);
                let whole = run_samples(
                    cursor,
                    file_length,
                    header,
                    context,
                    index,
                    progress,
                ).0.samples;
                assert(whole.take(next.samples.len() as int)[place] == next.samples[place]);
                assert(whole.take(second.samples.len() as int)[place + 1]
                    == second.samples[place + 1]);
            } else {
                reveal_with_fuel(run_samples, 2);
            }
        }
    }
}

/// A run keeps the samples before it.
proof fn lemma_run_keeps(
    cursor: ByteCursor,
    file_length: int,
    header: RunHeader,
    context: RunContext,
    index: int,
    progress: ProgressView,
)
    ensures
        ({
            let after = run_samples(cursor, file_length, header, context, index, progress).0;
            after.samples.len() >= progress.samples.len() && after.samples.take(
                progress.samples.len() as int,
            ) == progress.samples
        }),
    decreases header.count - index,
{
    let whole = run_samples(cursor, file_length, header, context, index, progress).0.samples;
    if cursor.error is Some || index >= header.count {
        assert(whole.take(progress.samples.len() as int) =~= progress.samples);
    } else {
        let (next, after) = run_sample(cursor, file_length, header, context, index, progress);
        lemma_run_keeps(after, file_length, header, context, index + 1, next);
        assert forall|i: int| 0 <= i < progress.samples.len() implies whole[i]
            == progress.samples[i] by {
            assert(whole.take(next.samples.len() as int)[i] == next.samples[i]);
        }
        assert(whole.take(progress.samples.len() as int) =~= progress.samples);
    }
}

} // verus!
