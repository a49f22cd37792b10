//! Tracks.

use vstd::prelude::*;

use super::boxes::{
    first_found, first_of, found_boxes, one_slot, payload_cursor, payload_reader, single,
    sort_children, sorted_children, three_slots, BoxHeader, FileView, Mp4File, Slot,
};
use super::edit::{edits_of, parse_edit_container, Edit, EDTS};
use super::entry::{
    description_views, descriptions_of, parse_sample_description_box, DescriptionView, EntryKind,
    SampleDescription,
};
use super::error::{meets, meets_as, meets_view, Mp4Error, Result};
use super::fourcc::FourCc;
use super::reader::ByteCursor;
use super::sample_table::{parse_sample_table, samples_of, Sample};
use crate::input::MediaInput;
use crate::media::Timescale;

verus! {

pub const TKHD: u32 = 0x746b_6864;

pub const MDIA: u32 = 0x6d64_6961;

pub const MDHD: u32 = 0x6d64_6864;

pub const HDLR: u32 = 0x6864_6c72;

pub const MINF: u32 = 0x6d69_6e66;

pub const STBL: u32 = 0x7374_626c;

pub const STSD: u32 = 0x7374_7364;

pub const VIDE: u32 = 0x7669_6465;

pub const SOUN: u32 = 0x736f_756e;

/// What a track holds.
#[derive(Debug, Clone, Copy, PartialEq, Eq, Structural)]
#[non_exhaustive]
pub enum TrackKind {
    Video,
    Audio,
    Other,
}

/// What the handler of a track says that it holds.
pub open spec fn kind_of(handler: FourCc) -> TrackKind {
    if handler.code == VIDE {
        TrackKind::Video
    } else if handler.code == SOUN {
        TrackKind::Audio
    } else {
        TrackKind::Other
    }
}

/// A track as mathematics.
pub struct TrackView {
    pub id: u32,
    pub flags: u32,
    pub movie_timescale: nat,
    pub media_timescale: nat,
    pub media_duration: Option<u64>,
    pub handler: FourCc,
    pub display_width_16_16: u32,
    pub display_height_16_16: u32,
    pub descriptions: Seq<DescriptionView>,
    pub samples: Seq<Sample>,
    pub edits: Seq<Edit>,
}

/// The time scale and the duration of a movie or of media. The highest number
/// stands for a duration that is not known.
pub open spec fn duration_header(cursor: ByteCursor) -> ((u32, Option<u64>), ByteCursor) {
    let ((version, _), cursor) = cursor.full_box();
    if version == 0 {
        let (timescale, cursor) = cursor.skip(8).u32();
        let (duration, cursor) = cursor.u32();
        (
            (
                timescale,
                if duration == u32::MAX {
                    None
                } else {
                    Some(duration as u64)
                },
            ),
            cursor.require(timescale != 0, Mp4Error::InvalidData("movie/media timescale is zero")),
        )
    } else if version == 1 {
        let (timescale, cursor) = cursor.skip(16).u32();
        let (duration, cursor) = cursor.u64();
        (
            (
                timescale,
                if duration == u64::MAX {
                    None
                } else {
                    Some(duration)
                },
            ),
            cursor.require(timescale != 0, Mp4Error::InvalidData("movie/media timescale is zero")),
        )
    } else {
        (
            (0, None),
            cursor.fail(Mp4Error::InvalidData("unsupported movie/media header version")),
        )
    }
}

/// The time scale and the duration of a header box.
pub open spec fn duration_of(file: FileView, header: BoxHeader) -> Result<(u32, Option<u64>)> {
    let (value, cursor) = duration_header(payload_cursor(file, header));
    cursor.outcome(value)
}

/// The number of a track, with the place behind it and its times.
pub open spec fn track_number(cursor: ByteCursor, version: u8) -> (u32, ByteCursor) {
    if version == 0 {
        let (id, cursor) = cursor.skip(8).u32();
        (id, cursor.skip(8))
    } else if version == 1 {
        let (id, cursor) = cursor.skip(16).u32();
        (id, cursor.skip(12))
    } else {
        (0, cursor.fail(Mp4Error::InvalidData("unsupported track header version")))
    }
}

/// The number, the flags and the size of a track.
pub open spec fn track_header(cursor: ByteCursor) -> ((u32, u32, u32, u32), ByteCursor) {
    let ((version, flags), cursor) = cursor.full_box();
    let (id, cursor) = track_number(cursor, version);
    let cursor = cursor.require(id != 0, Mp4Error::InvalidData("track id is zero"));
    let cursor = cursor.require(
        cursor.remaining() >= 60,
        Mp4Error::InvalidData("track header is truncated"),
    );
    let (width, cursor) = cursor.skip(cursor.remaining() - 8).u32();
    let (height, cursor) = cursor.u32();
    ((id, flags, width, height), cursor)
}

/// The number, the flags and the size of a track.
pub open spec fn track_header_of(file: FileView, header: BoxHeader) -> Result<
    (u32, u32, u32, u32),
> {
    let (value, cursor) = track_header(payload_cursor(file, header));
    cursor.outcome(value)
}

/// The handler of a track.
pub open spec fn handler_of(file: FileView, header: BoxHeader) -> Result<FourCc> {
    let ((_, _), cursor) = payload_cursor(file, header).full_box();
    let (handler, cursor) = cursor.skip(4).fourcc();
    cursor.outcome(handler)
}

/// The error of media without a box that it needs.
pub open spec fn missing(kind: EntryKind, box_code: u32) -> Mp4Error {
    match kind {
        EntryKind::Video => if box_code == MINF {
            Mp4Error::InvalidData("video track has no minf box")
        } else if box_code == STBL {
            Mp4Error::InvalidData("video minf has no stbl box")
        } else {
            Mp4Error::InvalidData("video stbl has no stsd box")
        },
        EntryKind::Audio => if box_code == MINF {
            Mp4Error::InvalidData("audio track has no minf box")
        } else if box_code == STBL {
            Mp4Error::InvalidData("audio minf has no stbl box")
        } else {
            Mp4Error::InvalidData("audio stbl has no stsd box")
        },
    }
}

/// The descriptions and the samples of a sample table.
pub open spec fn table_of(file: FileView, sample_table: BoxHeader, kind: EntryKind) -> Result<
    (Seq<DescriptionView>, Seq<Sample>),
> {
    match sorted_children(file, sample_table, seq![single(STSD, "duplicate stsd box")]) {
        Err(error) => Err(error),
        Ok(found) => match first_of(found[0]) {
            None => Err(missing(kind, STSD)),
            Some(description_box) => match descriptions_of(file, description_box, kind) {
                Err(error) => Err(error),
                Ok(descriptions) => match samples_of(
                    file,
                    sample_table,
                    descriptions.len() as int,
                ) {
                    Err(error) => Err(error),
                    Ok(samples) => Ok((descriptions, samples)),
                },
            },
        },
    }
}

/// The descriptions and the samples of a media information box.
pub open spec fn media_of(file: FileView, information: Option<BoxHeader>, kind: EntryKind) -> Result<
    (Seq<DescriptionView>, Seq<Sample>),
> {
    match information {
        None => Err(missing(kind, MINF)),
        Some(information) => match sorted_children(
            file,
            information,
            seq![single(STBL, "duplicate stbl box")],
        ) {
            Err(error) => Err(error),
            Ok(found) => match first_of(found[0]) {
                None => Err(missing(kind, STBL)),
                Some(sample_table) => table_of(file, sample_table, kind),
            },
        },
    }
}

/// The descriptions and the samples of a track, of which only video and audio
/// have any.
pub open spec fn contents_of(file: FileView, information: Option<BoxHeader>, handler: FourCc) -> Result<
    (Seq<DescriptionView>, Seq<Sample>),
> {
    match kind_of(handler) {
        TrackKind::Video => media_of(file, information, EntryKind::Video),
        TrackKind::Audio => media_of(file, information, EntryKind::Audio),
        TrackKind::Other => Ok((Seq::empty(), Seq::empty())),
    }
}

/// What the media box of a track says: the time scale, the duration, the
/// handler, the descriptions and the samples.
pub struct MediaPart {
    pub timescale: u32,
    pub duration: Option<u64>,
    pub handler: FourCc,
    pub descriptions: Seq<DescriptionView>,
    pub samples: Seq<Sample>,
}

/// The places of the boxes of media.
pub open spec fn media_slots() -> Seq<Slot> {
    seq![
        single(MDHD, "duplicate mdhd box"),
        single(HDLR, "duplicate hdlr box"),
        single(MINF, "duplicate minf box"),
    ]
}

/// What the boxes of media say.
pub open spec fn media_from(file: FileView, found: Seq<Seq<BoxHeader>>) -> Result<MediaPart> {
    match first_of(found[0]) {
        None => Err(Mp4Error::InvalidData("mdia has no mdhd box")),
        Some(header) => match duration_of(file, header) {
            Err(error) => Err(error),
            Ok((timescale, duration)) => match first_of(found[1]) {
                None => Err(Mp4Error::InvalidData("mdia has no hdlr box")),
                Some(handler_box) => match handler_of(file, handler_box) {
                    Err(error) => Err(error),
                    Ok(handler) => match contents_of(file, first_of(found[2]), handler) {
                        Err(error) => Err(error),
                        Ok((descriptions, samples)) => Ok(
                            MediaPart { timescale, duration, handler, descriptions, samples },
                        ),
                    },
                },
            },
        },
    }
}

/// What the media box of a track says.
pub open spec fn media_part_of(file: FileView, media_box: BoxHeader) -> Result<MediaPart> {
    match sorted_children(file, media_box, media_slots()) {
        Err(error) => Err(error),
        Ok(found) => media_from(file, found),
    }
}

/// The edits of a track, if it has any.
pub open spec fn optional_edits(file: FileView, edit_box: Option<BoxHeader>) -> Result<Seq<Edit>> {
    match edit_box {
        None => Ok(Seq::empty()),
        Some(edit_box) => edits_of(file, edit_box),
    }
}

/// The places of the boxes of a track.
pub open spec fn track_slots() -> Seq<Slot> {
    seq![
        single(TKHD, "duplicate tkhd box"),
        single(MDIA, "duplicate mdia box"),
        single(EDTS, "duplicate edts box"),
    ]
}

/// The track that boxes describe.
pub open spec fn track_from(
    file: FileView,
    found: Seq<Seq<BoxHeader>>,
    movie_timescale: nat,
) -> Result<TrackView> {
    match first_of(found[0]) {
        None => Err(Mp4Error::InvalidData("trak has no tkhd box")),
        Some(header) => match track_header_of(file, header) {
            Err(error) => Err(error),
            Ok((id, flags, width, height)) => match first_of(found[1]) {
                None => Err(Mp4Error::InvalidData("trak has no mdia box")),
                Some(media_box) => match optional_edits(file, first_of(found[2])) {
                    Err(error) => Err(error),
                    Ok(edits) => match media_part_of(file, media_box) {
                        Err(error) => Err(error),
                        Ok(media) => Ok(
                            TrackView {
                                id,
                                flags,
                                movie_timescale,
                                media_timescale: media.timescale as nat,
                                media_duration: media.duration,
                                handler: media.handler,
                                display_width_16_16: width,
                                display_height_16_16: height,
                                descriptions: media.descriptions,
                                samples: media.samples,
                                edits,
                            },
                        ),
                    },
                },
            },
        },
    }
}

/// The track of a track box.
#[verifier::opaque]
pub open spec fn track_of(file: FileView, track_box: BoxHeader, movie_timescale: nat) -> Result<
    TrackView,
> {
    match sorted_children(file, track_box, track_slots()) {
        Err(error) => Err(error),
        Ok(found) => track_from(file, found, movie_timescale),
    }
}

/// The contents of a track.
#[derive(Debug, PartialEq, Eq)]
pub struct TrackData {
    pub id: u32,
    pub flags: u32,
    pub movie_timescale: Timescale,
    pub media_timescale: Timescale,
    pub media_duration: Option<u64>,
    pub handler: FourCc,
    pub display_width_16_16: u32,
    pub display_height_16_16: u32,
    pub sample_descriptions: Vec<SampleDescription>,
    pub samples: Vec<Sample>,
    pub edits: Vec<Edit>,
}

impl View for TrackData {
    type V = TrackView;

    open spec fn view(&self) -> TrackView {
        TrackView {
            id: self.id,
            flags: self.flags,
            movie_timescale: self.movie_timescale@,
            media_timescale: self.media_timescale@,
            media_duration: self.media_duration,
            handler: self.handler,
            display_width_16_16: self.display_width_16_16,
            display_height_16_16: self.display_height_16_16,
            descriptions: description_views(self.sample_descriptions@),
            samples: self.samples@,
            edits: self.edits@,
        }
    }
}

/// Copies descriptions.
fn copy_descriptions(descriptions: &Vec<SampleDescription>) -> (copies: Vec<SampleDescription>)
    ensures
        description_views(copies@) == description_views(descriptions@),
{
    let mut copies: Vec<SampleDescription> = Vec::with_capacity(descriptions.len());
    let mut index: usize = 0;
    while index < descriptions.len()
        invariant
            index <= descriptions@.len(),
            copies@.len() == index,
            forall|i: int| 0 <= i < index ==> (#[trigger] copies@[i])@ == descriptions@[i]@,
        decreases descriptions@.len() - index,
    {
        copies.push(descriptions[index].clone());
        index = index + 1;
    }
    assert(description_views(copies@) =~= description_views(descriptions@));
    copies
}

/// Copies plain values.
fn copy_values<T: Copy>(values: &Vec<T>) -> (copies: Vec<T>)
    ensures
        copies@ == values@,
{
    let mut copies: Vec<T> = Vec::with_capacity(values.len());
    let mut index: usize = 0;
    while index < values.len()
        invariant
            index <= values@.len(),
            copies@ == values@.take(index as int),
        decreases values@.len() - index,
    {
        copies.push(values[index]);
        index = index + 1;
        assert(copies@ =~= values@.take(index as int));
    }
    assert(copies@ =~= values@);
    copies
}

impl Clone for TrackData {
    fn clone(&self) -> (copy: Self)
        ensures
            copy@ == self@,
    {
        TrackData {
            id: self.id,
            flags: self.flags,
            movie_timescale: self.movie_timescale,
            media_timescale: self.media_timescale,
            media_duration: self.media_duration,
            handler: self.handler,
            display_width_16_16: self.display_width_16_16,
            display_height_16_16: self.display_height_16_16,
            sample_descriptions: copy_descriptions(&self.sample_descriptions),
            samples: copy_values(&self.samples),
            edits: copy_values(&self.edits),
        }
    }
}

/// Reads the time scale and the duration of a header box.
pub fn parse_duration_header<'input, I: MediaInput>(
    file: &Mp4File<'input, I>,
    header: BoxHeader,
) -> (result: Result<(Timescale, Option<u64>)>)
    ensures
        meets_as(
            result,
            |value: (Timescale, Option<u64>)| (value.0@ as u32, value.1),
            duration_of(file@, header),
            file@.dependable,
        ),
        result matches Ok(value) ==> 0 < value.0@ <= u32::MAX,
{
    let mut reader = payload_reader(file, header)?;
    let (version, _flags) = reader.read_full_box()?;
    let ticks: u32;
    let duration: Option<u64>;
    if version == 0 {
        reader.skip(8)?;
        ticks = reader.read_u32()?;
        let read: u32 = reader.read_u32()?;
        duration = if read == u32::MAX {
            None
        } else {
            Some(read as u64)
        };
    } else if version == 1 {
        reader.skip(16)?;
        ticks = reader.read_u32()?;
        let read: u64 = reader.read_u64()?;
        duration = if read == u64::MAX {
            None
        } else {
            Some(read)
        };
    } else {
        return Err(Mp4Error::InvalidData("unsupported movie/media header version"));
    }
    match Timescale::new(ticks) {
        Some(timescale) => Ok((timescale, duration)),
        None => Err(Mp4Error::InvalidData("movie/media timescale is zero")),
    }
}

fn parse_track_header<'input, I: MediaInput>(file: &Mp4File<'input, I>, header: BoxHeader) -> (result:
    Result<(u32, u32, u32, u32)>)
    ensures
        meets(result, track_header_of(file@, header), file@.dependable),
{
    let mut reader = payload_reader(file, header)?;
    let (version, flags) = reader.read_full_box()?;
    let id: u32;
    if version == 0 {
        reader.skip(8)?;
        id = reader.read_u32()?;
        reader.skip(8)?;
    } else if version == 1 {
        reader.skip(16)?;
        id = reader.read_u32()?;
        reader.skip(12)?;
    } else {
        return Err(Mp4Error::InvalidData("unsupported track header version"));
    }
    if id == 0 {
        return Err(Mp4Error::InvalidData("track id is zero"));
    }
    let remaining: u64 = reader.remaining();
    if remaining < 60 {
        return Err(Mp4Error::InvalidData("track header is truncated"));
    }
    reader.skip(remaining - 8)?;
    let width: u32 = reader.read_u32()?;
    let height: u32 = reader.read_u32()?;
    Ok((id, flags, width, height))
}

fn parse_handler<'input, I: MediaInput>(file: &Mp4File<'input, I>, header: BoxHeader) -> (result:
    Result<FourCc>)
    ensures
        meets(result, handler_of(file@, header), file@.dependable),
{
    let mut reader = payload_reader(file, header)?;
    let (_version, _flags) = reader.read_full_box()?;
    reader.skip(4)?;
    reader.read_fourcc()
}

fn missing_box(kind: EntryKind, box_code: u32) -> (error: Mp4Error)
    ensures
        error == missing(kind, box_code),
{
    match kind {
        EntryKind::Video => if box_code == MINF {
            Mp4Error::InvalidData("video track has no minf box")
        } else if box_code == STBL {
            Mp4Error::InvalidData("video minf has no stbl box")
        } else {
            Mp4Error::InvalidData("video stbl has no stsd box")
        },
        EntryKind::Audio => if box_code == MINF {
            Mp4Error::InvalidData("audio track has no minf box")
        } else if box_code == STBL {
            Mp4Error::InvalidData("audio minf has no stbl box")
        } else {
            Mp4Error::InvalidData("audio stbl has no stsd box")
        },
    }
}

/// Descriptions and samples as mathematics.
pub open spec fn contents_view(contents: (Vec<SampleDescription>, Vec<Sample>)) -> (
    Seq<DescriptionView>,
    Seq<Sample>,
) {
    (description_views(contents.0@), contents.1@)
}

fn parse_table<'input, I: MediaInput>(
    file: &Mp4File<'input, I>,
    sample_table: BoxHeader,
    kind: EntryKind,
) -> (result: Result<(Vec<SampleDescription>, Vec<Sample>)>)
    ensures
        meets_as(
            result,
            |contents: (Vec<SampleDescription>, Vec<Sample>)| contents_view(contents),
            table_of(file@, sample_table, kind),
            file@.dependable,
        ),
{
    let slots = one_slot(STSD, "duplicate stsd box");
    let found = sort_children(file, sample_table, &slots)?;
    let description_box = match first_found(&found, 0) {
        Some(header) => header,
        None => return Err(missing_box(kind, STSD)),
    };
    let descriptions = parse_sample_description_box(file, description_box, kind)?;
    let samples = parse_sample_table(file, sample_table, descriptions.len())?;
    Ok((descriptions, samples))
}

fn parse_media_sample_table<'input, I: MediaInput>(
    file: &Mp4File<'input, I>,
    information: Option<BoxHeader>,
    kind: EntryKind,
) -> (result: Result<(Vec<SampleDescription>, Vec<Sample>)>)
    ensures
        meets_as(
            result,
            |contents: (Vec<SampleDescription>, Vec<Sample>)| contents_view(contents),
            media_of(file@, information, kind),
            file@.dependable,
        ),
{
    let information = match information {
        Some(header) => header,
        None => return Err(missing_box(kind, MINF)),
    };
    let slots = one_slot(STBL, "duplicate stbl box");
    let found = sort_children(file, information, &slots)?;
    let sample_table = match first_found(&found, 0) {
        Some(header) => header,
        None => return Err(missing_box(kind, STBL)),
    };
    parse_table(file, sample_table, kind)
}

/// What the handler of a track says that it holds.
pub fn kind_from(handler: FourCc) -> (kind: TrackKind)
    ensures
        kind == kind_of(handler),
{
    if handler.code == VIDE {
        TrackKind::Video
    } else if handler.code == SOUN {
        TrackKind::Audio
    } else {
        TrackKind::Other
    }
}

fn parse_contents<'input, I: MediaInput>(
    file: &Mp4File<'input, I>,
    information: Option<BoxHeader>,
    handler: FourCc,
) -> (result: Result<(Vec<SampleDescription>, Vec<Sample>)>)
    ensures
        meets_as(
            result,
            |contents: (Vec<SampleDescription>, Vec<Sample>)| contents_view(contents),
            contents_of(file@, information, handler),
            file@.dependable,
        ),
{
    match kind_from(handler) {
        TrackKind::Video => parse_media_sample_table(file, information, EntryKind::Video),
        TrackKind::Audio => parse_media_sample_table(file, information, EntryKind::Audio),
        TrackKind::Other => {
            let descriptions: Vec<SampleDescription> = Vec::new();
            let samples: Vec<Sample> = Vec::new();
            assert(description_views(descriptions@) =~= Seq::<DescriptionView>::empty());
            assert(samples@ =~= Seq::<Sample>::empty());
            Ok((descriptions, samples))
        },
    }
}

/// What the media box of a track says.
struct Media {
    timescale: Timescale,
    duration: Option<u64>,
    handler: FourCc,
    descriptions: Vec<SampleDescription>,
    samples: Vec<Sample>,
}

spec fn media_view(media: Media) -> MediaPart {
    MediaPart {
        timescale: media.timescale@ as u32,
        duration: media.duration,
        handler: media.handler,
        descriptions: description_views(media.descriptions@),
        samples: media.samples@,
    }
}

fn parse_media_boxes<'input, I: MediaInput>(
    file: &Mp4File<'input, I>,
    found: &Vec<Vec<BoxHeader>>,
) -> (result: Result<Media>)
    requires
        found@.len() == 3,
    ensures
        meets_as(
            result,
            |media: Media| media_view(media),
            media_from(file@, found_boxes(*found)),
            file@.dependable,
        ),
        result matches Ok(media) ==> media.timescale@ <= u32::MAX,
{
    let header = match first_found(found, 0) {
        Some(header) => header,
        None => return Err(Mp4Error::InvalidData("mdia has no mdhd box")),
    };
    let (timescale, duration) = parse_duration_header(file, header)?;
    let handler_box = match first_found(found, 1) {
        Some(header) => header,
        None => return Err(Mp4Error::InvalidData("mdia has no hdlr box")),
    };
    let handler = parse_handler(file, handler_box)?;
    let (descriptions, samples) = parse_contents(file, first_found(found, 2), handler)?;
    Ok(Media { timescale, duration, handler, descriptions, samples })
}

fn parse_media<'input, I: MediaInput>(file: &Mp4File<'input, I>, media_box: BoxHeader) -> (result:
    Result<Media>)
    ensures
        meets_as(
            result,
            |media: Media| media_view(media),
            media_part_of(file@, media_box),
            file@.dependable,
        ),
        result matches Ok(media) ==> media.timescale@ <= u32::MAX,
{
    let slots = three_slots(
        MDHD,
        "duplicate mdhd box",
        HDLR,
        "duplicate hdlr box",
        MINF,
        "duplicate minf box",
    );
    let found = sort_children(file, media_box, &slots)?;
    parse_media_boxes(file, &found)
}

fn parse_optional_edits<'input, I: MediaInput>(
    file: &Mp4File<'input, I>,
    edit_box: Option<BoxHeader>,
) -> (result: Result<Vec<Edit>>)
    ensures
        meets_view(result, optional_edits(file@, edit_box), file@.dependable),
{
    match edit_box {
        Some(edit_box) => parse_edit_container(file, edit_box),
        None => {
            let edits: Vec<Edit> = Vec::new();
            assert(edits@ =~= Seq::<Edit>::empty());
            Ok(edits)
        },
    }
}

fn parse_track_boxes<'input, I: MediaInput>(
    file: &Mp4File<'input, I>,
    found: &Vec<Vec<BoxHeader>>,
    movie_timescale: Timescale,
) -> (result: Result<TrackData>)
    requires
        found@.len() == 3,
    ensures
        meets_view(
            result,
            track_from(file@, found_boxes(*found), movie_timescale@),
            file@.dependable,
        ),
{
    let header = match first_found(found, 0) {
        Some(header) => header,
        None => return Err(Mp4Error::InvalidData("trak has no tkhd box")),
    };
    let (id, flags, display_width_16_16, display_height_16_16) = parse_track_header(file, header)?;
    let media_box = match first_found(found, 1) {
        Some(header) => header,
        None => return Err(Mp4Error::InvalidData("trak has no mdia box")),
    };
    let edits = parse_optional_edits(file, first_found(found, 2))?;
    let media = parse_media(file, media_box)?;
    Ok(
        TrackData {
            id,
            flags,
            movie_timescale,
            media_timescale: media.timescale,
            media_duration: media.duration,
            handler: media.handler,
            display_width_16_16,
            display_height_16_16,
            sample_descriptions: media.descriptions,
            samples: media.samples,
            edits,
        },
    )
}

/// Reads the contents of a track.
pub fn parse_track<'input, I: MediaInput>(
    file: &Mp4File<'input, I>,
    track_box: BoxHeader,
    movie_timescale: Timescale,
) -> (result: Result<TrackData>)
    ensures
        meets_view(result, track_of(file@, track_box, movie_timescale@), file@.dependable),
{
    proof {
        reveal(track_of);
    }
    let slots = three_slots(
        TKHD,
        "duplicate tkhd box",
        MDIA,
        "duplicate mdia box",
        EDTS,
        "duplicate edts box",
    );
    let found = sort_children(file, track_box, &slots)?;
    parse_track_boxes(file, &found, movie_timescale)
}

} // verus!
