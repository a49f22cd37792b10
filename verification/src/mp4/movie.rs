//! Movies and their tracks.

use vstd::prelude::*;

use super::audio::{entry_config, ParsedAudioSpecificConfig};
use super::boxes::{
    first_found, first_of, found_boxes, one_slot, single, sort_boxes, sort_children,
    sorted_children, sorted_range, BoxHeader, FileView, Mp4File, Slot,
};
use super::edit::{linear_timeline_offset, timeline_offset, Edit};
use super::entry::{
    avc_length_size, description_views, DescriptionView, SampleDescription,
};
use super::error::{meets_as, meets_view, Mp4Error, Result};
use super::fourcc::FourCc;
use super::fragment::{
    append_fragmented_samples, find_movie_extends, fragmented, movie_extends_of, track_views,
};
use super::sample_table::Sample;
use super::timeline::{
    check_sync_range, earliest_sync, goal_of, is_earliest, is_latest, is_nearest, latest_sample,
    latest_sync, nearest_sync, order_by_presentation, ordered_sync, overflows, scaled_goal,
    sync_indices, sync_samples,
};
use super::track::{
    duration_of, kind_from, kind_of, parse_duration_header, parse_track, track_of, TrackData,
    TrackKind, TrackView,
};
use crate::input::MediaInput;
use crate::media::{
    AudioCodec, AudioDecoderConfig, BitstreamFormat, MediaTime, Timescale, VideoCodec,
    VideoDecoderConfig,
};

verus! {

pub const MOOV: u32 = 0x6d6f_6f76;

pub const MVHD: u32 = 0x6d76_6864;

pub const TRAK: u32 = 0x7472_616b;

pub const MAX_TRACK_COUNT: usize = 1024;

/// One track of a movie, with its samples in decode order.
#[derive(Debug, PartialEq, Eq)]
pub struct Track {
    data: TrackData,
    sync_sample_indices: Vec<usize>,
    sync_sample_indices_by_presentation: Vec<usize>,
}

impl View for Track {
    type V = TrackView;

    closed spec fn view(&self) -> TrackView {
        self.data@
    }
}

impl Clone for Track {
    fn clone(&self) -> (copy: Self)
        ensures
            copy@ == self@,
    {
        Track::new(self.data.clone())
    }
}

/// How many bytes the lengths in the samples of a description take, and its
/// codec configuration.
pub open spec fn video_config_of(track: TrackView, description_index: usize) -> Result<
    (u8, Seq<u8>),
> {
    if description_index >= track.descriptions.len() {
        Err(Mp4Error::IndexOutOfRange { kind: "sample-description", index: description_index })
    } else {
        match track.descriptions[description_index as int] {
            DescriptionView::Avc(entry) => match avc_length_size(entry.codec_configuration) {
                Err(error) => Err(error),
                Ok(length_size) => Ok((length_size, entry.codec_configuration)),
            },
            _ => Err(
                Mp4Error::UnsupportedFeature("sample description has no supported video decoder"),
            ),
        }
    }
}

/// The video configuration is as expected.
pub open spec fn gives_video_config(
    result: Result<VideoDecoderConfig>,
    expected: Result<(u8, Seq<u8>)>,
) -> bool {
    match (result, expected) {
        (Ok(config), Ok((length_size, data))) => {
            &&& config.codec == VideoCodec::H264
            &&& config.bitstream_format == (BitstreamFormat::LengthPrefixed { length_size })
            &&& config.codec_data matches Some(found) && found@ == data
        },
        (Err(error), Err(wanted)) => error == wanted,
        _ => false,
    }
}

/// What a description says of audio, and its codec configuration.
pub open spec fn audio_config_of(track: TrackView, description_index: usize) -> Result<
    (ParsedAudioSpecificConfig, Seq<u8>),
> {
    if description_index >= track.descriptions.len() {
        Err(Mp4Error::IndexOutOfRange { kind: "sample-description", index: description_index })
    } else {
        match track.descriptions[description_index as int] {
            DescriptionView::Aac(entry) => match entry_config(entry) {
                Err(error) => Err(error),
                Ok(parsed) => Ok((parsed, entry.audio_specific_config)),
            },
            _ => Err(
                Mp4Error::UnsupportedFeature("sample description has no supported audio decoder"),
            ),
        }
    }
}

/// The audio configuration is as expected.
pub open spec fn gives_audio_config(
    result: Result<AudioDecoderConfig>,
    expected: Result<(ParsedAudioSpecificConfig, Seq<u8>)>,
) -> bool {
    match (result, expected) {
        (Ok(config), Ok((parsed, data))) => {
            &&& config.codec == AudioCodec::Aac
            &&& config.sample_rate == parsed.sample_rate
            &&& config.channel_layout == parsed.channel_layout
            &&& config.codec_data matches Some(found) && found@ == data
        },
        (Err(error), Err(wanted)) => error == wanted,
        _ => false,
    }
}

impl TrackView {
    /// The offset that maps sample times onto the presentation timeline.
    pub open spec fn offset(self) -> Result<i64> {
        timeline_offset(self.edits, self.movie_timescale, self.media_timescale)
    }
}

/// A search gave what is sought, or the error of a timeline that is not
/// supported or leaves the range of times. `right` says what is sought, given
/// the offset, the scale of the target and the target in ticks of both scales.
pub open spec fn seeks(
    result: Result<Option<usize>>,
    track: TrackView,
    target: MediaTime,
    every: bool,
    right: spec_fn(int, int, int, Option<usize>) -> bool,
) -> bool {
    match track.offset() {
        Err(error) => result == Err::<Option<usize>, Mp4Error>(error),
        Ok(offset) => if overflows(track.samples, every, offset as int) {
            result == Err::<Option<usize>, Mp4Error>(Mp4Error::IntegerOverflow)
        } else {
            result matches Ok(found) && right(
                offset as int,
                target.timescale@ as int,
                goal_of(target, track.media_timescale as int),
                found,
            )
        },
    }
}

impl Track {
    #[verifier::type_invariant]
    spec fn indexed(self) -> bool {
        &&& self.sync_sample_indices@ == sync_indices(self.data.samples@)
        &&& ordered_sync(self.data.samples@, self.sync_sample_indices_by_presentation@)
    }

    /// A track with its sync samples indexed.
    pub fn new(data: TrackData) -> (track: Self)
        ensures
            track@ == data@,
    {
        let sync_sample_indices = sync_samples(&data.samples);
        let sync_sample_indices_by_presentation = order_by_presentation(
            &data.samples,
            &sync_sample_indices,
        );
        Track { data, sync_sample_indices, sync_sample_indices_by_presentation }
    }

    #[inline]
    pub fn id(&self) -> (id: u32)
        ensures
            id == self@.id,
    {
        self.data.id
    }

    #[inline]
    pub fn flags(&self) -> (flags: u32)
        ensures
            flags == self@.flags,
    {
        self.data.flags
    }

    #[inline]
    pub fn movie_timescale(&self) -> (timescale: Timescale)
        ensures
            timescale@ == self@.movie_timescale,
    {
        self.data.movie_timescale
    }

    #[inline]
    pub fn media_timescale(&self) -> (timescale: Timescale)
        ensures
            timescale@ == self@.media_timescale,
    {
        self.data.media_timescale
    }

    #[inline]
    pub fn media_duration(&self) -> (duration: Option<u64>)
        ensures
            duration == self@.media_duration,
    {
        self.data.media_duration
    }

    #[inline]
    pub fn handler(&self) -> (handler: FourCc)
        ensures
            handler == self@.handler,
    {
        self.data.handler
    }

    /// What the track holds.
    pub fn kind(&self) -> (kind: TrackKind)
        ensures
            kind == kind_of(self@.handler),
    {
        kind_from(self.data.handler)
    }

    #[inline]
    pub fn display_width_16_16(&self) -> (width: u32)
        ensures
            width == self@.display_width_16_16,
    {
        self.data.display_width_16_16
    }

    #[inline]
    pub fn display_height_16_16(&self) -> (height: u32)
        ensures
            height == self@.display_height_16_16,
    {
        self.data.display_height_16_16
    }

    #[inline]
    pub fn sample_descriptions(&self) -> (descriptions: &[SampleDescription])
        ensures
            description_views(descriptions@) == self@.descriptions,
    {
        self.data.sample_descriptions.as_slice()
    }

    #[inline]
    pub fn samples(&self) -> (samples: &[Sample])
        ensures
            samples@ == self@.samples,
    {
        self.data.samples.as_slice()
    }

    #[inline]
    pub fn sync_sample_indices(&self) -> (indices: &[usize])
        ensures
            indices@ == sync_indices(self@.samples),
    {
        proof {
            use_type_invariant(self);
        }
        self.sync_sample_indices.as_slice()
    }

    #[inline]
    pub fn edits(&self) -> (edits: &[Edit])
        ensures
            edits@ == self@.edits,
    {
        self.data.edits.as_slice()
    }

    pub fn decoder_config(&self, description_index: usize) -> (result: Result<VideoDecoderConfig>)
        ensures
            gives_video_config(result, video_config_of(self@, description_index)),
    {
        if description_index >= self.data.sample_descriptions.len() {
            return Err(
                Mp4Error::IndexOutOfRange {
                    kind: "sample-description",
                    index: description_index,
                },
            );
        }
        match &self.data.sample_descriptions[description_index] {
            SampleDescription::Avc(entry) => entry.decoder_config(),
            _ => Err(
                Mp4Error::UnsupportedFeature("sample description has no supported video decoder"),
            ),
        }
    }

    pub fn audio_decoder_config(&self, description_index: usize) -> (result: Result<
        AudioDecoderConfig,
    >)
        ensures
            gives_audio_config(result, audio_config_of(self@, description_index)),
    {
        if description_index >= self.data.sample_descriptions.len() {
            return Err(
                Mp4Error::IndexOutOfRange {
                    kind: "sample-description",
                    index: description_index,
                },
            );
        }
        match &self.data.sample_descriptions[description_index] {
            SampleDescription::Aac(entry) => entry.decoder_config(),
            _ => Err(
                Mp4Error::UnsupportedFeature("sample description has no supported audio decoder"),
            ),
        }
    }

    pub fn decoder_config_for_sample(&self, sample_index: usize) -> (result: Result<
        VideoDecoderConfig,
    >)
        ensures
            if sample_index >= self@.samples.len() {
                result == Err::<VideoDecoderConfig, Mp4Error>(
                    Mp4Error::IndexOutOfRange { kind: "sample", index: sample_index },
                )
            } else {
                gives_video_config(
                    result,
                    video_config_of(self@, self@.samples[sample_index as int].description_index),
                )
            },
    {
        if sample_index >= self.data.samples.len() {
            return Err(Mp4Error::IndexOutOfRange { kind: "sample", index: sample_index });
        }
        self.decoder_config(self.data.samples[sample_index].description_index)
    }

    /// Offset that maps raw sample-table times onto the movie presentation
    /// timeline. Complex edit lists return an explicit unsupported-data error.
    pub fn presentation_time_offset(&self) -> (result: Result<MediaTime>)
        ensures
            match self@.offset() {
                Err(error) => result == Err::<MediaTime, Mp4Error>(error),
                Ok(offset) => result matches Ok(time) && time.value == offset && time.timescale@
                    == self@.media_timescale,
            },
    {
        let value: i64 = linear_timeline_offset(
            self.data.edits.as_slice(),
            self.data.movie_timescale,
            self.data.media_timescale,
        )?;
        Ok(MediaTime::new(value, self.data.media_timescale))
    }

    /// Finds the sync sample with the greatest presentation time not after
    /// `target`. The returned index is in decode/sample-table order.
    pub fn keyframe_at_or_before(&self, target: MediaTime) -> (result: Result<Option<usize>>)
        ensures
            seeks(
                result,
                self@,
                target,
                false,
                |offset: int, scale: int, goal: int, found: Option<usize>|
                    is_latest(self@.samples, false, offset, scale, goal, found),
            ),
    {
        proof {
            use_type_invariant(self);
        }
        let offset: i64 = self.presentation_time_offset()?.value;
        check_sync_range(
            &self.data.samples,
            &self.sync_sample_indices_by_presentation,
            offset,
        )?;
        Ok(
            latest_sync(
                &self.data.samples,
                &self.sync_sample_indices_by_presentation,
                offset,
                target.timescale.get(),
                scaled_goal(target, self.data.media_timescale.get()),
            ),
        )
    }

    /// Finds the sync sample with the least presentation time not before
    /// `target`. This is useful for low-latency seek previews that may jump
    /// forward to the next independently decodable picture.
    pub fn keyframe_at_or_after(&self, target: MediaTime) -> (result: Result<Option<usize>>)
        ensures
            seeks(
                result,
                self@,
                target,
                false,
                |offset: int, scale: int, goal: int, found: Option<usize>|
                    is_earliest(self@.samples, false, offset, scale, goal, found),
            ),
    {
        proof {
            use_type_invariant(self);
        }
        let offset: i64 = self.presentation_time_offset()?.value;
        check_sync_range(
            &self.data.samples,
            &self.sync_sample_indices_by_presentation,
            offset,
        )?;
        Ok(
            earliest_sync(
                &self.data.samples,
                &self.sync_sample_indices_by_presentation,
                offset,
                target.timescale.get(),
                scaled_goal(target, self.data.media_timescale.get()),
            ),
        )
    }

    /// Finds the sync sample with presentation time nearest to `target`.
    ///
    /// This is intended for low-latency interactive previews. The result may
    /// precede or follow the requested time and therefore must not be used as
    /// a substitute for [`Self::keyframe_at_or_before`] when exact seek
    /// preroll is required. Equidistant keyframes prefer the earlier one.
    pub fn keyframe_nearest(&self, target: MediaTime) -> (result: Result<Option<usize>>)
        ensures
            seeks(
                result,
                self@,
                target,
                false,
                |offset: int, scale: int, goal: int, found: Option<usize>|
                    is_nearest(self@.samples, false, offset, scale, goal, found),
            ),
    {
        proof {
            use_type_invariant(self);
        }
        let offset: i64 = self.presentation_time_offset()?.value;
        check_sync_range(
            &self.data.samples,
            &self.sync_sample_indices_by_presentation,
            offset,
        )?;
        Ok(
            nearest_sync(
                &self.data.samples,
                &self.sync_sample_indices_by_presentation,
                offset,
                target.timescale.get(),
                scaled_goal(target, self.data.media_timescale.get()),
            ),
        )
    }

    /// Finds the sample with the greatest presentation time not after `target`,
    /// whether or not it is a sync sample.
    pub fn audio_sample_at_or_before(&self, target: MediaTime) -> (result: Result<Option<usize>>)
        ensures
            seeks(
                result,
                self@,
                target,
                true,
                |offset: int, scale: int, goal: int, found: Option<usize>|
                    is_latest(self@.samples, true, offset, scale, goal, found),
            ),
    {
        let offset: i64 = self.presentation_time_offset()?.value;
        latest_sample(
            &self.data.samples,
            offset,
            target.timescale.get(),
            scaled_goal(target, self.data.media_timescale.get()),
        )
    }
}

/// A movie as mathematics.
pub struct MovieView {
    pub timescale: nat,
    pub duration: Option<u64>,
    pub tracks: Seq<TrackView>,
}

/// The first `count` tracks.
pub open spec fn tracks_of(
    file: FileView,
    boxes: Seq<BoxHeader>,
    movie_timescale: nat,
    count: int,
) -> Result<Seq<TrackView>>
    decreases count,
{
    if count <= 0 {
        Ok(Seq::empty())
    } else {
        match tracks_of(file, boxes, movie_timescale, count - 1) {
            Err(error) => Err(error),
            Ok(tracks) => match track_of(file, boxes[count - 1], movie_timescale) {
                Err(error) => Err(error),
                Ok(track) => Ok(tracks.push(track)),
            },
        }
    }
}

/// The places of the boxes of a movie.
pub open spec fn movie_slots() -> Seq<Slot> {
    seq![
        single(MVHD, "duplicate mvhd box"),
        Slot {
            first: TRAK,
            second: TRAK,
            limit: MAX_TRACK_COUNT,
            message: "MP4 track count exceeds its limit",
        },
    ]
}

/// The tracks of a movie with the samples of its fragments.
pub open spec fn all_tracks_of(
    file: FileView,
    movie_box: BoxHeader,
    boxes: Seq<BoxHeader>,
    movie_timescale: nat,
) -> Result<Seq<TrackView>> {
    match tracks_of(file, boxes, movie_timescale, boxes.len() as int) {
        Err(error) => Err(error),
        Ok(tracks) => match movie_extends_of(file, movie_box) {
            Err(error) => Err(error),
            Ok(movie_extends) => fragmented(file, movie_extends, tracks),
        },
    }
}

/// The movie that boxes describe.
pub open spec fn movie_from(
    file: FileView,
    movie_box: BoxHeader,
    found: Seq<Seq<BoxHeader>>,
) -> Result<MovieView> {
    match first_of(found[0]) {
        None => Err(Mp4Error::InvalidData("moov has no mvhd box")),
        Some(header) => match duration_of(file, header) {
            Err(error) => Err(error),
            Ok((timescale, duration)) => match all_tracks_of(
                file,
                movie_box,
                found[1],
                timescale as nat,
            ) {
                Err(error) => Err(error),
                Ok(tracks) => Ok(MovieView { timescale: timescale as nat, duration, tracks }),
            },
        },
    }
}

/// The movie of a movie box.
pub open spec fn movie_box_of(file: FileView, movie_box: BoxHeader) -> Result<MovieView> {
    match sorted_children(file, movie_box, movie_slots()) {
        Err(error) => Err(error),
        Ok(found) => movie_from(file, movie_box, found),
    }
}

/// The movie of a file.
pub open spec fn movie_of(file: FileView) -> Result<MovieView> {
    match sorted_range(
        file.content,
        0,
        file.length,
        seq![single(MOOV, "MP4 contains multiple moov boxes")],
    ) {
        Err(error) => Err(error),
        Ok(found) => match first_of(found[0]) {
            None => Err(Mp4Error::InvalidData("MP4 has no moov box")),
            Some(movie_box) => movie_box_of(file, movie_box),
        },
    }
}

/// The tracks and the time scale of a file.
#[derive(Debug, PartialEq, Eq)]
pub struct Movie {
    timescale: Timescale,
    duration: Option<u64>,
    tracks: Vec<Track>,
}

/// Indexed tracks as mathematics.
pub open spec fn indexed_views(tracks: Seq<Track>) -> Seq<TrackView> {
    tracks.map_values(|track: Track| track@)
}

impl View for Movie {
    type V = MovieView;

    closed spec fn view(&self) -> MovieView {
        MovieView {
            timescale: self.timescale@,
            duration: self.duration,
            tracks: indexed_views(self.tracks@),
        }
    }
}

impl Clone for Movie {
    fn clone(&self) -> (copy: Self)
        ensures
            copy@ == self@,
    {
        let ghost views = indexed_views(self.tracks@);
        let mut tracks: Vec<Track> = Vec::with_capacity(self.tracks.len());
        let mut index: usize = 0;
        assert(indexed_views(tracks@) =~= views.take(0));
        while index < self.tracks.len()
            invariant
                index <= self.tracks@.len(),
                views == indexed_views(self.tracks@),
                indexed_views(tracks@) == views.take(index as int),
            decreases self.tracks@.len() - index,
        {
            let ghost before = tracks@;
            let track = self.tracks[index].clone();
            tracks.push(track);
            index = index + 1;
            assert(indexed_views(tracks@) =~= indexed_views(before).push(track@));
            assert(indexed_views(tracks@) =~= views.take(index as int));
        }
        assert(views.take(index as int) =~= views);
        Movie { timescale: self.timescale, duration: self.duration, tracks }
    }
}

/// An error of the first tracks is the error of all.
proof fn lemma_tracks_error(
    file: FileView,
    boxes: Seq<BoxHeader>,
    movie_timescale: nat,
    part: int,
    count: int,
)
    requires
        part <= count,
        tracks_of(file, boxes, movie_timescale, part) is Err,
    ensures
        tracks_of(file, boxes, movie_timescale, count) == tracks_of(
            file,
            boxes,
            movie_timescale,
            part,
        ),
    decreases count - part,
{
    if part < count {
        lemma_tracks_error(file, boxes, movie_timescale, part, count - 1);
    }
}

fn parse_tracks<'input, I: MediaInput>(
    file: &Mp4File<'input, I>,
    boxes: &Vec<BoxHeader>,
    movie_timescale: Timescale,
) -> (result: Result<Vec<TrackData>>)
    ensures
        meets_as(
            result,
            |tracks: Vec<TrackData>| track_views(tracks@),
            tracks_of(file@, boxes@, movie_timescale@, boxes@.len() as int),
            file@.dependable,
        ),
{
    let mut tracks: Vec<TrackData> = Vec::new();
    assert(track_views(tracks@) =~= Seq::<TrackView>::empty());
    let mut index: usize = 0;
    while index < boxes.len()
        invariant
            index <= boxes@.len(),
            tracks_of(file@, boxes@, movie_timescale@, index as int) == Ok::<
                Seq<TrackView>,
                Mp4Error,
            >(track_views(tracks@)),
        decreases boxes@.len() - index,
    {
        proof {
            if tracks_of(file@, boxes@, movie_timescale@, index + 1) is Err {
                lemma_tracks_error(
                    file@,
                    boxes@,
                    movie_timescale@,
                    index + 1,
                    boxes@.len() as int,
                );
            }
        }
        let track = parse_track(file, boxes[index], movie_timescale)?;
        let ghost before = tracks@;
        tracks.push(track);
        assert(track_views(tracks@) =~= track_views(before).push(track@));
        index = index + 1;
    }
    Ok(tracks)
}

fn parse_all_tracks<'input, I: MediaInput>(
    file: &Mp4File<'input, I>,
    movie_box: BoxHeader,
    boxes: &Vec<BoxHeader>,
    movie_timescale: Timescale,
) -> (result: Result<Vec<TrackData>>)
    ensures
        meets_as(
            result,
            |tracks: Vec<TrackData>| track_views(tracks@),
            all_tracks_of(file@, movie_box, boxes@, movie_timescale@),
            file@.dependable,
        ),
{
    let mut tracks = parse_tracks(file, boxes, movie_timescale)?;
    let movie_extends = find_movie_extends(file, movie_box)?;
    append_fragmented_samples(file, movie_extends, &mut tracks)?;
    Ok(tracks)
}

fn index_tracks(tracks: Vec<TrackData>) -> (indexed: Vec<Track>)
    ensures
        indexed_views(indexed@) == track_views(tracks@),
{
    let ghost views = track_views(tracks@);
    let mut rest = tracks;
    let mut indexed: Vec<Track> = Vec::new();
    assert(views =~= indexed_views(indexed@) + track_views(rest@));
    while rest.len() > 0
        invariant
            views == indexed_views(indexed@) + track_views(rest@),
        decreases rest@.len(),
    {
        let ghost before = indexed@;
        let ghost left = rest@;
        let data = rest.remove(0);
        indexed.push(Track::new(data));
        assert(indexed_views(indexed@) =~= indexed_views(before).push(left[0]@));
        assert(track_views(left) =~= seq![left[0]@] + track_views(rest@));
        assert(views =~= indexed_views(indexed@) + track_views(rest@));
    }
    assert(views =~= indexed_views(indexed@));
    indexed
}

fn movie_places() -> (slots: Vec<Slot>)
    ensures
        slots@ == movie_slots(),
{
    let mut slots: Vec<Slot> = Vec::new();
    slots.push(Slot { first: MVHD, second: MVHD, limit: 1, message: "duplicate mvhd box" });
    slots.push(
        Slot {
            first: TRAK,
            second: TRAK,
            limit: MAX_TRACK_COUNT,
            message: "MP4 track count exceeds its limit",
        },
    );
    assert(slots@ =~= movie_slots());
    slots
}

fn parse_movie_boxes<'input, I: MediaInput>(
    file: &Mp4File<'input, I>,
    movie_box: BoxHeader,
    found: &Vec<Vec<BoxHeader>>,
) -> (result: Result<Movie>)
    requires
        found@.len() == 2,
    ensures
        meets_view(
            result,
            movie_from(file@, movie_box, found_boxes(*found)),
            file@.dependable,
        ),
{
    let header = match first_found(found, 0) {
        Some(header) => header,
        None => return Err(Mp4Error::InvalidData("moov has no mvhd box")),
    };
    let (timescale, duration) = parse_duration_header(file, header)?;
    assert(found_boxes(*found)[1] == found@[1]@);
    let tracks = parse_all_tracks(file, movie_box, &found[1], timescale)?;
    Ok(Movie { timescale, duration, tracks: index_tracks(tracks) })
}

fn parse_movie_box<'input, I: MediaInput>(file: &Mp4File<'input, I>, movie_box: BoxHeader) -> (result:
    Result<Movie>)
    ensures
        meets_view(result, movie_box_of(file@, movie_box), file@.dependable),
{
    let slots = movie_places();
    let found = sort_children(file, movie_box, &slots)?;
    parse_movie_boxes(file, movie_box, &found)
}

impl Movie {
    /// Reads the movie of a file, with the samples of its fragments.
    pub fn parse<'input, I: MediaInput>(file: &Mp4File<'input, I>) -> (result: Result<Self>)
        ensures
            meets_view(result, movie_of(file@), file@.dependable),
    {
        let slots = one_slot(MOOV, "MP4 contains multiple moov boxes");
        let found = sort_boxes(file.boxes(), &slots)?;
        match first_found(&found, 0) {
            Some(movie_box) => parse_movie_box(file, movie_box),
            None => Err(Mp4Error::InvalidData("MP4 has no moov box")),
        }
    }

    #[inline]
    pub fn timescale(&self) -> (timescale: Timescale)
        ensures
            timescale@ == self@.timescale,
    {
        self.timescale
    }

    #[inline]
    pub fn duration(&self) -> (duration: Option<u64>)
        ensures
            duration == self@.duration,
    {
        self.duration
    }

    #[inline]
    pub fn tracks(&self) -> (tracks: &[Track])
        ensures
            indexed_views(tracks@) == self@.tracks,
    {
        self.tracks.as_slice()
    }
}

} // verus!
