//! Packets of a movie.

use std::sync::Arc;

use vstd::prelude::*;

use super::boxes::{FileView, Mp4File};
use super::error::{is_fault, meets_as, Mp4Error, Result};
use super::movie::{
    audio_config_of, gives_audio_config, gives_video_config, indexed_views, movie_of, seeks,
    video_config_of, Movie, MovieView, Track,
};
use super::reader::{exact_bytes, read_exact_at};
use super::sample_table::Sample;
use super::timeline::{is_earliest, is_latest, is_nearest};
use super::track::{kind_of, TrackKind, TrackView};
use crate::input::MediaInput;
use crate::media::{
    AudioDecoderConfig, EncodedAudioPacket, EncodedVideoPacket, MediaTime, VideoDecoderConfig,
};

verus! {

pub const MAX_PACKET_SIZE: usize = 268_435_456;

/// The data of a sample.
pub open spec fn sample_data(content: Seq<u8>, sample: Sample) -> Result<Seq<u8>> {
    if sample.size > MAX_PACKET_SIZE {
        Err(Mp4Error::InvalidData("MP4 sample exceeds the packet allocation limit"))
    } else if sample.offset + sample.size > u64::MAX {
        Err(Mp4Error::InvalidData("unexpected end of MP4 sample data"))
    } else {
        exact_bytes(
            content,
            sample.offset as int,
            sample.size as int,
            "unexpected end of MP4 sample data",
        )
    }
}

/// The presentation and decode times of a sample on the movie's timeline.
pub open spec fn packet_times_of(track: TrackView, sample: Sample) -> Result<(i64, i64)> {
    match track.offset() {
        Err(error) => Err(error),
        Ok(offset) => {
            let pts = sample.presentation_time + offset;
            let dts = sample.decode_time + offset;
            if !(i64::MIN <= pts <= i64::MAX) || !(i64::MIN <= dts <= i64::MAX) {
                Err(Mp4Error::IntegerOverflow)
            } else {
                Ok((pts as i64, dts as i64))
            }
        },
    }
}

/// A packet as mathematics: its data, and its times in ticks of the media.
pub struct PacketView {
    pub data: Seq<u8>,
    pub pts: Option<(i64, nat)>,
    pub dts: Option<(i64, nat)>,
    pub duration: Option<(i64, nat)>,
    pub keyframe: bool,
}

/// A time as mathematics.
pub open spec fn time_view(time: Option<MediaTime>) -> Option<(i64, nat)> {
    match time {
        Some(time) => Some((time.value, time.timescale@)),
        None => None,
    }
}

/// A video packet as mathematics.
pub open spec fn video_packet_view(packet: EncodedVideoPacket) -> PacketView {
    PacketView {
        data: packet.data@,
        pts: time_view(packet.pts),
        dts: time_view(packet.dts),
        duration: time_view(packet.duration),
        keyframe: packet.keyframe,
    }
}

/// An audio packet as mathematics, each of which is a keyframe.
pub open spec fn audio_packet_view(packet: EncodedAudioPacket) -> PacketView {
    PacketView {
        data: packet.data@,
        pts: time_view(packet.pts),
        dts: time_view(packet.dts),
        duration: time_view(packet.duration),
        keyframe: true,
    }
}

/// The packet of a sample.
pub open spec fn sample_packet(
    track: TrackView,
    content: Seq<u8>,
    sample: Sample,
    keyframe: bool,
) -> Result<PacketView> {
    match sample_data(content, sample) {
        Err(error) => Err(error),
        Ok(data) => match packet_times_of(track, sample) {
            Err(error) => Err(error),
            Ok((pts, dts)) => Ok(
                PacketView {
                    data,
                    pts: Some((pts, track.media_timescale)),
                    dts: Some((dts, track.media_timescale)),
                    duration: Some((sample.duration as i64, track.media_timescale)),
                    keyframe,
                },
            ),
        },
    }
}

/// A packet of a video track.
pub open spec fn video_packet_of(
    track: TrackView,
    content: Seq<u8>,
    sample_index: usize,
) -> Result<PacketView> {
    if kind_of(track.handler) != TrackKind::Video {
        Err(Mp4Error::UnsupportedFeature("video packet read requires a video track"))
    } else if sample_index >= track.samples.len() {
        Err(Mp4Error::IndexOutOfRange { kind: "sample", index: sample_index })
    } else {
        let sample = track.samples[sample_index as int];
        sample_packet(track, content, sample, sample.sync)
    }
}

/// A packet of an audio track.
pub open spec fn audio_packet_of(
    track: TrackView,
    content: Seq<u8>,
    sample_index: usize,
) -> Result<PacketView> {
    if kind_of(track.handler) != TrackKind::Audio {
        Err(Mp4Error::UnsupportedFeature("audio packet read requires an audio track"))
    } else if sample_index >= track.samples.len() {
        Err(Mp4Error::IndexOutOfRange { kind: "sample", index: sample_index })
    } else {
        sample_packet(track, content, track.samples[sample_index as int], true)
    }
}

fn read_sample_data<I: MediaInput>(input: &I, sample: Sample) -> (result: Result<Arc<Vec<u8>>>)
    ensures
        meets_as(
            result,
            |data: Arc<Vec<u8>>| data@,
            sample_data(input.content(), sample),
            input.dependable(),
        ),
{
    let size: usize = sample.size as usize;
    if size > MAX_PACKET_SIZE {
        return Err(Mp4Error::InvalidData("MP4 sample exceeds the packet allocation limit"));
    }
    if sample.size as u64 > u64::MAX - sample.offset {
        return Err(Mp4Error::InvalidData("unexpected end of MP4 sample data"));
    }
    let data = read_exact_at(input, sample.offset, size, "unexpected end of MP4 sample data")?;
    Ok(Arc::new(data))
}

impl Track {
    fn packet_times(&self, sample: Sample) -> (result: Result<(MediaTime, MediaTime, MediaTime)>)
        ensures
            match packet_times_of(self@, sample) {
                Err(error) => result matches Err(found) && found == error,
                Ok((pts, dts)) => result matches Ok(times) && {
                    &&& times.0.value == pts && times.0.timescale@ == self@.media_timescale
                    &&& times.1.value == dts && times.1.timescale@ == self@.media_timescale
                    &&& times.2.value == sample.duration && times.2.timescale@
                        == self@.media_timescale
                },
            },
    {
        let offset: i64 = self.presentation_time_offset()?.value;
        let pts: i64 = match sample.presentation_time.checked_add(offset) {
            Some(pts) => pts,
            None => return Err(Mp4Error::IntegerOverflow),
        };
        let dts: i64 = match sample.decode_time.checked_add(offset) {
            Some(dts) => dts,
            None => return Err(Mp4Error::IntegerOverflow),
        };
        let timescale = self.media_timescale();
        Ok(
            (
                MediaTime::new(pts, timescale),
                MediaTime::new(dts, timescale),
                MediaTime::new(sample.duration as i64, timescale),
            ),
        )
    }

    /// Reads one compressed sample and maps its raw media timestamps through
    /// the track's supported edit-list timeline.
    pub fn read_packet<I: MediaInput>(&self, input: &I, sample_index: usize) -> (result: Result<
        EncodedVideoPacket,
    >)
        ensures
            meets_as(
                result,
                |packet: EncodedVideoPacket| video_packet_view(packet),
                video_packet_of(self@, input.content(), sample_index),
                input.dependable(),
            ),
    {
        match self.kind() {
            TrackKind::Video => {},
            _ => return Err(
                Mp4Error::UnsupportedFeature("video packet read requires a video track"),
            ),
        }
        if sample_index >= self.samples().len() {
            return Err(Mp4Error::IndexOutOfRange { kind: "sample", index: sample_index });
        }
        let sample = self.samples()[sample_index];
        let data = read_sample_data(input, sample)?;
        let (pts, dts, duration) = self.packet_times(sample)?;
        Ok(
            EncodedVideoPacket {
                data,
                pts: Some(pts),
                dts: Some(dts),
                duration: Some(duration),
                keyframe: sample.sync,
            },
        )
    }

    /// Reads one raw compressed audio access unit and maps its timestamps
    /// through the track's supported edit-list timeline.
    pub fn read_audio_packet<I: MediaInput>(&self, input: &I, sample_index: usize) -> (result:
        Result<EncodedAudioPacket>)
        ensures
            meets_as(
                result,
                |packet: EncodedAudioPacket| audio_packet_view(packet),
                audio_packet_of(self@, input.content(), sample_index),
                input.dependable(),
            ),
    {
        match self.kind() {
            TrackKind::Audio => {},
            _ => return Err(
                Mp4Error::UnsupportedFeature("audio packet read requires an audio track"),
            ),
        }
        if sample_index >= self.samples().len() {
            return Err(Mp4Error::IndexOutOfRange { kind: "sample", index: sample_index });
        }
        let sample = self.samples()[sample_index];
        let data = read_sample_data(input, sample)?;
        let (pts, dts, duration) = self.packet_times(sample)?;
        Ok(EncodedAudioPacket { data, pts: Some(pts), dts: Some(dts), duration: Some(duration) })
    }
}

/// A continuous range of the source and how many samples lie in it.
pub struct Span {
    pub start: int,
    pub end: int,
    pub count: int,
}

/// The span with the samples from `index` on that fit into `maximum` bytes.
pub open spec fn span_from(samples: Seq<Sample>, index: int, span: Span, maximum: int) -> Result<
    Span,
>
    decreases samples.len() - index,
{
    if index >= samples.len() {
        Ok(span)
    } else {
        let sample = samples[index];
        let sample_end = sample.offset + sample.size;
        let start = if sample.offset < span.start {
            sample.offset as int
        } else {
            span.start
        };
        let end = if sample_end > span.end {
            sample_end
        } else {
            span.end
        };
        if sample_end > u64::MAX {
            Err(Mp4Error::IntegerOverflow)
        } else if end - start > maximum {
            Ok(span)
        } else {
            span_from(samples, index + 1, Span { start, end, count: span.count + 1 }, maximum)
        }
    }
}

/// The span of upcoming samples: the first whatever its size, and as many
/// behind it as fit.
pub open spec fn span_of(samples: Seq<Sample>, first: usize, maximum: usize) -> Result<
    Option<Span>,
> {
    if maximum == 0 {
        Ok(None)
    } else if first > samples.len() {
        Err(Mp4Error::IndexOutOfRange { kind: "sample cursor", index: first })
    } else if first == samples.len() {
        Ok(None)
    } else {
        let sample = samples[first as int];
        let end = sample.offset + sample.size;
        if end > u64::MAX {
            Err(Mp4Error::IntegerOverflow)
        } else {
            match span_from(
                samples,
                first + 1,
                Span { start: sample.offset as int, end, count: 1 },
                maximum as int,
            ) {
                Err(error) => Err(error),
                Ok(span) => if span.end - span.start > usize::MAX {
                    Err(Mp4Error::IntegerOverflow)
                } else {
                    Ok(Some(span))
                },
            }
        }
    }
}

/// A range of the source that holds upcoming samples.
#[derive(Debug, Clone, Copy, PartialEq, Eq, Structural)]
pub struct PrefetchRange {
    pub offset: u64,
    pub length: usize,
    pub sample_count: usize,
}

/// Finds a continuous source range that holds upcoming samples.
///
/// `maximum_span_bytes` includes gaps occupied by other tracks. The first
/// sample is in the range even when it alone exceeds the budget.
pub fn prefetch_range(
    samples: &[Sample],
    first_sample_index: usize,
    maximum_span_bytes: usize,
) -> (result: Result<Option<PrefetchRange>>)
    ensures
        match span_of(samples@, first_sample_index, maximum_span_bytes) {
            Err(error) => result == Err::<Option<PrefetchRange>, Mp4Error>(error),
            Ok(None) => result == Ok::<Option<PrefetchRange>, Mp4Error>(None),
            Ok(Some(span)) => result matches Ok(Some(range)) && range.offset == span.start
                && range.length == span.end - span.start && range.sample_count == span.count,
        },
{
    if maximum_span_bytes == 0 {
        return Ok(None);
    }
    let count: usize = samples.len();
    if first_sample_index > count {
        return Err(
            Mp4Error::IndexOutOfRange { kind: "sample cursor", index: first_sample_index },
        );
    }
    if first_sample_index == count {
        return Ok(None);
    }
    let maximum: u64 = maximum_span_bytes as u64;
    let first = samples[first_sample_index];
    let mut range_start: u64 = first.offset;
    let mut range_end: u64 = match first.offset.checked_add(first.size as u64) {
        Some(end) => end,
        None => return Err(Mp4Error::IntegerOverflow),
    };
    let ghost whole = span_from(
        samples@,
        first_sample_index + 1,
        Span { start: range_start as int, end: range_end as int, count: 1 },
        maximum as int,
    );
    let mut index: usize = first_sample_index + 1;
    let mut full: bool = false;
    while index < count && !full
        invariant
            first_sample_index < index <= count == samples@.len(),
            range_start <= range_end,
            maximum == maximum_span_bytes,
            maximum_span_bytes != 0,
            samples@[first_sample_index as int].offset + samples@[first_sample_index as int].size
                <= u64::MAX,
            whole == span_from(
                samples@,
                first_sample_index + 1,
                Span {
                    start: samples@[first_sample_index as int].offset as int,
                    end: samples@[first_sample_index as int].offset
                        + samples@[first_sample_index as int].size,
                    count: 1,
                },
                maximum as int,
            ),
            !full ==> whole == span_from(
                samples@,
                index as int,
                Span {
                    start: range_start as int,
                    end: range_end as int,
                    count: index - first_sample_index,
                },
                maximum as int,
            ),
            full ==> whole == Ok::<Span, Mp4Error>(
                Span {
                    start: range_start as int,
                    end: range_end as int,
                    count: index - first_sample_index,
                },
            ),
        decreases
            count - index,
            if full {
                0int
            } else {
                1int
            },
    {
        let sample = samples[index];
        let sample_end: u64 = match sample.offset.checked_add(sample.size as u64) {
            Some(end) => end,
            None => return Err(Mp4Error::IntegerOverflow),
        };
        let candidate_start: u64 = if sample.offset < range_start {
            sample.offset
        } else {
            range_start
        };
        let candidate_end: u64 = if sample_end > range_end {
            sample_end
        } else {
            range_end
        };
        if candidate_end - candidate_start > maximum {
            full = true;
        } else {
            range_start = candidate_start;
            range_end = candidate_end;
            index = index + 1;
        }
    }
    let length: u64 = range_end - range_start;
    if length > usize::MAX as u64 {
        return Err(Mp4Error::IntegerOverflow);
    }
    Ok(
        Some(
            PrefetchRange {
                offset: range_start,
                length: length as usize,
                sample_count: index - first_sample_index,
            },
        ),
    )
}

/// A prefetch announced to the input the range of as many samples as the budget
/// allows, unless the input failed.
pub open spec fn prefetches<I: MediaInput>(
    result: Result<usize>,
    input: &I,
    samples: Seq<Sample>,
    first: usize,
    maximum: usize,
) -> bool {
    match span_of(samples, first, maximum) {
        Err(error) => result == Err::<usize, Mp4Error>(error),
        Ok(None) => result == Ok::<usize, Mp4Error>(0),
        Ok(Some(span)) => {
            let announced = (input, span.start as u64, (span.end - span.start) as usize);
            match result {
                Ok(count) => count == span.count && call_ensures(I::prefetch, announced, Ok(())),
                Err(error) => !input.dependable() && (error matches Mp4Error::Io(fault)
                    && call_ensures(I::prefetch, announced, Err(fault))),
            }
        },
    }
}

fn prefetch_samples<I: MediaInput>(
    input: &I,
    samples: &[Sample],
    first_sample_index: usize,
    maximum_span_bytes: usize,
) -> (result: Result<usize>)
    ensures
        prefetches(result, input, samples@, first_sample_index, maximum_span_bytes),
{
    match prefetch_range(samples, first_sample_index, maximum_span_bytes)? {
        None => Ok(0),
        Some(range) => match input.prefetch(range.offset, range.length) {
            Ok(done) => {
                assert(done == ());
                Ok(range.sample_count)
            },
            Err(error) => Err(Mp4Error::Io(error)),
        },
    }
}

/// An MP4 movie coupled to the random-access input from which its samples are
/// read. Parsing does not retain cursors or require an async runtime.
#[derive(Debug)]
pub struct Mp4Demuxer<I: MediaInput> {
    input: I,
    movie: Movie,
}

/// A demuxer as mathematics.
pub struct DemuxerView {
    pub movie: MovieView,
    pub content: Seq<u8>,
    pub dependable: bool,
}

impl<I: MediaInput> View for Mp4Demuxer<I> {
    type V = DemuxerView;

    closed spec fn view(&self) -> DemuxerView {
        DemuxerView {
            movie: self.movie@,
            content: self.input.content(),
            dependable: self.input.dependable(),
        }
    }
}

/// An input as a file of some length.
pub open spec fn file_of<I: MediaInput>(input: I, length: int) -> FileView {
    FileView { content: input.content(), length, dependable: input.dependable() }
}

/// The error of a track that there is not.
pub open spec fn no_track(index: usize) -> Mp4Error {
    Mp4Error::IndexOutOfRange { kind: "track", index }
}

impl<I: MediaInput> Mp4Demuxer<I> {
    /// The input that is read.
    pub closed spec fn source(self) -> I {
        self.input
    }

    /// Reads the movie of an input.
    pub fn open(input: I) -> (result: Result<Self>)
        ensures
            ({
                ||| result == Err::<Self, Mp4Error>(Mp4Error::UnknownInputLength) && (
                input.dependable() ==> !input.measured())
                ||| !input.dependable() && (result matches Err(error) && error is Io)
                ||| exists|length: int|
                    (input.dependable() ==> length == input.content().len()) && meets_as(
                        result,
                        |demuxer: Self| demuxer@.movie,
                        movie_of(#[trigger] file_of(input, length)),
                        input.dependable(),
                    )
            }),
            result matches Ok(demuxer) ==> demuxer.source() == input && demuxer@.content
                == input.content() && demuxer@.dependable == input.dependable(),
            input.dependable() && !input.measured() ==> result == Err::<Self, Mp4Error>(
                Mp4Error::UnknownInputLength,
            ),
    {
        let file = Mp4File::open(&input)?;
        let ghost view = file@;
        assert(view == file_of(input, view.length));
        let movie = Movie::parse(&file)?;
        Ok(Mp4Demuxer { input, movie })
    }

    #[inline]
    pub fn input(&self) -> (input: &I)
        ensures
            *input == self.source(),
            input.content() == self@.content,
            input.dependable() == self@.dependable,
    {
        &self.input
    }

    #[inline]
    pub fn movie(&self) -> (movie: &Movie)
        ensures
            movie@ == self@.movie,
    {
        &self.movie
    }

    pub fn into_input(self) -> (input: I)
        ensures
            input == self.source(),
    {
        self.input
    }

    fn track_at(&self, track_index: usize) -> (result: Result<&Track>)
        ensures
            if track_index >= self@.movie.tracks.len() {
                result matches Err(error) && error == no_track(track_index)
            } else {
                result matches Ok(track) && track@ == self@.movie.tracks[track_index as int]
            },
    {
        let tracks = self.movie.tracks();
        assert(indexed_views(tracks@).len() == tracks@.len());
        if track_index >= tracks.len() {
            return Err(Mp4Error::IndexOutOfRange { kind: "track", index: track_index });
        }
        assert(indexed_views(tracks@)[track_index as int] == tracks@[track_index as int]@);
        Ok(&tracks[track_index])
    }

    /// Synchronously prefetches a continuous source range containing samples
    /// from one track.
    ///
    /// This index-based form can be scheduled on a separate I/O worker without
    /// sharing a mutable packet cursor. `maximum_span_bytes` includes gaps
    /// occupied by interleaved tracks. The first sample is included even when
    /// it alone exceeds the budget. Returns the number of samples covered.
    pub fn prefetch_track_bytes(
        &self,
        track_index: usize,
        first_sample_index: usize,
        maximum_span_bytes: usize,
    ) -> (result: Result<usize>)
        ensures
            if track_index >= self@.movie.tracks.len() {
                result == Err::<usize, Mp4Error>(no_track(track_index))
            } else {
                prefetches(
                    result,
                    &self.source(),
                    self@.movie.tracks[track_index as int].samples,
                    first_sample_index,
                    maximum_span_bytes,
                )
            },
    {
        let track = self.track_at(track_index)?;
        prefetch_samples(&self.input, track.samples(), first_sample_index, maximum_span_bytes)
    }

    pub fn read_packet(&self, track_index: usize, sample_index: usize) -> (result: Result<
        EncodedVideoPacket,
    >)
        ensures
            if track_index >= self@.movie.tracks.len() {
                result == Err::<EncodedVideoPacket, Mp4Error>(no_track(track_index))
            } else {
                meets_as(
                    result,
                    |packet: EncodedVideoPacket| video_packet_view(packet),
                    video_packet_of(
                        self@.movie.tracks[track_index as int],
                        self@.content,
                        sample_index,
                    ),
                    self@.dependable,
                )
            },
    {
        let track = self.track_at(track_index)?;
        track.read_packet(&self.input, sample_index)
    }

    pub fn packet_cursor<'demuxer>(&'demuxer self, track_index: usize) -> (result: Result<
        PacketCursor<'demuxer, I>,
    >)
        ensures
            if track_index >= self@.movie.tracks.len() {
                result matches Err(error) && error == no_track(track_index)
            } else if kind_of(self@.movie.tracks[track_index as int].handler) != TrackKind::Video {
                result matches Err(error) && error == Mp4Error::UnsupportedFeature(
                    "video packet cursor requires a video track",
                )
            } else {
                result matches Ok(cursor) && cursor@ == (CursorView {
                    source: self.source(),
                    track: self@.movie.tracks[track_index as int],
                    content: self@.content,
                    dependable: self@.dependable,
                    track_index,
                    next_sample_index: 0,
                })
            },
    {
        let track = self.track_at(track_index)?;
        match track.kind() {
            TrackKind::Video => {},
            _ => return Err(
                Mp4Error::UnsupportedFeature("video packet cursor requires a video track"),
            ),
        }
        Ok(PacketCursor { demuxer: self, track_index, next_sample_index: 0 })
    }

    pub fn read_audio_packet(&self, track_index: usize, sample_index: usize) -> (result: Result<
        EncodedAudioPacket,
    >)
        ensures
            if track_index >= self@.movie.tracks.len() {
                result == Err::<EncodedAudioPacket, Mp4Error>(no_track(track_index))
            } else {
                meets_as(
                    result,
                    |packet: EncodedAudioPacket| audio_packet_view(packet),
                    audio_packet_of(
                        self@.movie.tracks[track_index as int],
                        self@.content,
                        sample_index,
                    ),
                    self@.dependable,
                )
            },
    {
        let track = self.track_at(track_index)?;
        track.read_audio_packet(&self.input, sample_index)
    }

    pub fn audio_packet_cursor<'demuxer>(&'demuxer self, track_index: usize) -> (result: Result<
        AudioPacketCursor<'demuxer, I>,
    >)
        ensures
            if track_index >= self@.movie.tracks.len() {
                result matches Err(error) && error == no_track(track_index)
            } else if kind_of(self@.movie.tracks[track_index as int].handler) != TrackKind::Audio {
                result matches Err(error) && error == Mp4Error::UnsupportedFeature(
                    "audio packet cursor requires an audio track",
                )
            } else {
                result matches Ok(cursor) && cursor@ == (CursorView {
                    source: self.source(),
                    track: self@.movie.tracks[track_index as int],
                    content: self@.content,
                    dependable: self@.dependable,
                    track_index,
                    next_sample_index: 0,
                })
            },
    {
        let track = self.track_at(track_index)?;
        match track.kind() {
            TrackKind::Audio => {},
            _ => return Err(
                Mp4Error::UnsupportedFeature("audio packet cursor requires an audio track"),
            ),
        }
        Ok(AudioPacketCursor { demuxer: self, track_index, next_sample_index: 0 })
    }
}

/// A cursor as mathematics.
pub struct CursorView<I> {
    /// The input that is read.
    pub source: I,
    pub track: TrackView,
    pub content: Seq<u8>,
    pub dependable: bool,
    pub track_index: usize,
    pub next_sample_index: usize,
}

impl<I> CursorView<I> {
    /// The cursor before another sample.
    pub open spec fn moved(self, next_sample_index: usize) -> CursorView<I> {
        CursorView { next_sample_index, ..self }
    }

    /// The cursor before the sample that was found, if any was.
    pub open spec fn sought(self, found: Result<Option<usize>>) -> CursorView<I> {
        match found {
            Ok(Some(index)) => self.moved(index),
            _ => self,
        }
    }
}

/// A lightweight sequential view over one track. Multiple cursors can read
/// independently from the same immutable random-access input.
#[derive(Debug)]
pub struct PacketCursor<'demuxer, I: MediaInput> {
    demuxer: &'demuxer Mp4Demuxer<I>,
    track_index: usize,
    next_sample_index: usize,
}

impl<'demuxer, I: MediaInput> View for PacketCursor<'demuxer, I> {
    type V = CursorView<I>;

    closed spec fn view(&self) -> CursorView<I> {
        CursorView {
            source: self.demuxer.source(),
            track: self.demuxer@.movie.tracks[self.track_index as int],
            content: self.demuxer@.content,
            dependable: self.demuxer@.dependable,
            track_index: self.track_index,
            next_sample_index: self.next_sample_index,
        }
    }
}

impl<'demuxer, I: MediaInput> PacketCursor<'demuxer, I> {
    #[verifier::type_invariant]
    spec fn inside(self) -> bool {
        &&& self.track_index < self.demuxer@.movie.tracks.len()
        &&& kind_of(self.demuxer@.movie.tracks[self.track_index as int].handler)
            == TrackKind::Video
        &&& self.next_sample_index <= self.demuxer@.movie.tracks[self.track_index as int].samples.len()
    }

    #[inline]
    pub fn track_index(&self) -> (index: usize)
        ensures
            index == self@.track_index,
    {
        self.track_index
    }

    #[inline]
    pub fn next_sample_index(&self) -> (index: usize)
        ensures
            index == self@.next_sample_index,
            index <= self@.track.samples.len(),
    {
        proof {
            use_type_invariant(self);
        }
        self.next_sample_index
    }

    #[inline]
    pub fn track(&self) -> (track: &Track)
        ensures
            track@ == self@.track,
    {
        proof {
            use_type_invariant(self);
        }
        let tracks = self.demuxer.movie.tracks();
        assert(indexed_views(tracks@).len() == tracks@.len());
        assert(indexed_views(tracks@)[self.track_index as int]
            == tracks@[self.track_index as int]@);
        &tracks[self.track_index]
    }

    pub fn next_packet(&mut self) -> (result: Result<Option<EncodedVideoPacket>>)
        ensures
            if old(self)@.next_sample_index == old(self)@.track.samples.len() {
                result == Ok::<Option<EncodedVideoPacket>, Mp4Error>(None) && final(self)@ == old(self)@
            } else {
                let expected = video_packet_of(
                    old(self)@.track,
                    old(self)@.content,
                    old(self)@.next_sample_index,
                );
                match result {
                    Ok(Some(packet)) => expected matches Ok(wanted) && video_packet_view(packet)
                        == wanted && final(self)@ == old(self)@.moved(
                        (old(self)@.next_sample_index + 1) as usize,
                    ),
                    Ok(None) => false,
                    Err(error) => (expected matches Err(wanted) && error == wanted
                        || !old(self)@.dependable && is_fault(error)) && final(self)@ == old(self)@,
                }
            },
    {
        proof {
            use_type_invariant(&*self);
        }
        let sample_index: usize = self.next_sample_index;
        if sample_index == self.track().samples().len() {
            return Ok(None);
        }
        let packet = self.demuxer.read_packet(self.track_index, sample_index)?;
        self.next_sample_index = sample_index + 1;
        Ok(Some(packet))
    }

    /// Synchronously prefetches a continuous source range containing upcoming
    /// compressed packets.
    ///
    /// `maximum_span_bytes` bounds the complete source range, including gaps
    /// occupied by interleaved tracks. The first packet is included even when
    /// it alone exceeds the budget. Returns the number of upcoming packets
    /// covered by the hint. Network-backed inputs should call this from a
    /// playback worker.
    pub fn prefetch_next_bytes(&self, maximum_span_bytes: usize) -> (result: Result<usize>)
        ensures
            prefetches(
                result,
                &self@.source,
                self@.track.samples,
                self@.next_sample_index,
                maximum_span_bytes,
            ),
    {
        proof {
            use_type_invariant(self);
        }
        self.demuxer.prefetch_track_bytes(
            self.track_index,
            self.next_sample_index,
            maximum_span_bytes,
        )
    }

    pub fn decoder_config(&self) -> (result: Result<Option<VideoDecoderConfig>>)
        ensures
            if self@.next_sample_index >= self@.track.samples.len() {
                result == Ok::<Option<VideoDecoderConfig>, Mp4Error>(None)
            } else {
                let expected = video_config_of(
                    self@.track,
                    self@.track.samples[self@.next_sample_index as int].description_index,
                );
                match result {
                    Ok(Some(config)) => gives_video_config(Ok(config), expected),
                    Ok(None) => false,
                    Err(error) => expected matches Err(wanted) && error == wanted,
                }
            },
    {
        let track = self.track();
        let samples = track.samples();
        if self.next_sample_index >= samples.len() {
            return Ok(None);
        }
        let config = track.decoder_config(samples[self.next_sample_index].description_index)?;
        Ok(Some(config))
    }

    /// Repositions to the closest sync sample at or before `target`.
    ///
    /// After this call, the decoder must be flushed and packets should be
    /// decoded until the first output frame at or after the requested target.
    pub fn seek_to_keyframe(&mut self, target: MediaTime) -> (result: Result<Option<usize>>)
        ensures
            seeks(
                result,
                old(self)@.track,
                target,
                false,
                |offset: int, scale: int, goal: int, found: Option<usize>|
                    is_latest(old(self)@.track.samples, false, offset, scale, goal, found),
            ),
            final(self)@ == old(self)@.sought(result),
    {
        proof {
            use_type_invariant(&*self);
        }
        let found = self.track().keyframe_at_or_before(target)?;
        if let Some(sample_index) = found {
            self.next_sample_index = sample_index;
        }
        Ok(found)
    }

    /// Repositions to the closest sync sample at or after `target`.
    ///
    /// Unlike [`Self::seek_to_keyframe`], this is an approximate forward seek:
    /// it avoids decoder preroll but may start presentation after `target`.
    pub fn seek_to_keyframe_at_or_after(&mut self, target: MediaTime) -> (result: Result<
        Option<usize>,
    >)
        ensures
            seeks(
                result,
                old(self)@.track,
                target,
                false,
                |offset: int, scale: int, goal: int, found: Option<usize>|
                    is_earliest(old(self)@.track.samples, false, offset, scale, goal, found),
            ),
            final(self)@ == old(self)@.sought(result),
    {
        proof {
            use_type_invariant(&*self);
        }
        let found = self.track().keyframe_at_or_after(target)?;
        if let Some(sample_index) = found {
            self.next_sample_index = sample_index;
        }
        Ok(found)
    }

    /// Repositions to the sync sample nearest to `target`.
    ///
    /// This is an approximate preview seek: the selected picture may be
    /// earlier or later than `target`, but decoding can begin without preroll.
    /// Use [`Self::seek_to_keyframe`] for an exact seek.
    pub fn seek_to_nearest_keyframe(&mut self, target: MediaTime) -> (result: Result<
        Option<usize>,
    >)
        ensures
            seeks(
                result,
                old(self)@.track,
                target,
                false,
                |offset: int, scale: int, goal: int, found: Option<usize>|
                    is_nearest(old(self)@.track.samples, false, offset, scale, goal, found),
            ),
            final(self)@ == old(self)@.sought(result),
    {
        proof {
            use_type_invariant(&*self);
        }
        let found = self.track().keyframe_nearest(target)?;
        if let Some(sample_index) = found {
            self.next_sample_index = sample_index;
        }
        Ok(found)
    }

    /// Repositions the cursor to an exact sample boundary.
    ///
    /// Starting at an arbitrary non-sync sample is only decodable when the
    /// codec state that precedes that sample is restored as well. This is
    /// intended for pairing a saved cursor index with a decoder seek
    /// checkpoint. The index one past the final sample is the valid EOF cursor.
    pub fn seek_to_sample(&mut self, sample_index: usize) -> (result: Result<()>)
        ensures
            if sample_index > old(self)@.track.samples.len() {
                result == Err::<(), Mp4Error>(
                    Mp4Error::IndexOutOfRange { kind: "sample cursor", index: sample_index },
                ) && final(self)@ == old(self)@
            } else {
                result == Ok::<(), Mp4Error>(()) && final(self)@ == old(self)@.moved(sample_index)
            },
    {
        proof {
            use_type_invariant(&*self);
        }
        if sample_index > self.track().samples().len() {
            return Err(Mp4Error::IndexOutOfRange { kind: "sample cursor", index: sample_index });
        }
        self.next_sample_index = sample_index;
        Ok(())
    }

    #[inline]
    pub fn rewind(&mut self)
        ensures
            final(self)@ == old(self)@.moved(0),
    {
        proof {
            use_type_invariant(&*self);
        }
        self.next_sample_index = 0;
    }
}

/// A lightweight sequential view over one audio track.
#[derive(Debug)]
pub struct AudioPacketCursor<'demuxer, I: MediaInput> {
    demuxer: &'demuxer Mp4Demuxer<I>,
    track_index: usize,
    next_sample_index: usize,
}

impl<'demuxer, I: MediaInput> View for AudioPacketCursor<'demuxer, I> {
    type V = CursorView<I>;

    closed spec fn view(&self) -> CursorView<I> {
        CursorView {
            source: self.demuxer.source(),
            track: self.demuxer@.movie.tracks[self.track_index as int],
            content: self.demuxer@.content,
            dependable: self.demuxer@.dependable,
            track_index: self.track_index,
            next_sample_index: self.next_sample_index,
        }
    }
}

impl<'demuxer, I: MediaInput> AudioPacketCursor<'demuxer, I> {
    #[verifier::type_invariant]
    spec fn inside(self) -> bool {
        &&& self.track_index < self.demuxer@.movie.tracks.len()
        &&& kind_of(self.demuxer@.movie.tracks[self.track_index as int].handler)
            == TrackKind::Audio
        &&& self.next_sample_index <= self.demuxer@.movie.tracks[self.track_index as int].samples.len()
    }

    #[inline]
    pub fn track_index(&self) -> (index: usize)
        ensures
            index == self@.track_index,
    {
        self.track_index
    }

    #[inline]
    pub fn next_sample_index(&self) -> (index: usize)
        ensures
            index == self@.next_sample_index,
            index <= self@.track.samples.len(),
    {
        proof {
            use_type_invariant(self);
        }
        self.next_sample_index
    }

    #[inline]
    pub fn track(&self) -> (track: &Track)
        ensures
            track@ == self@.track,
    {
        proof {
            use_type_invariant(self);
        }
        let tracks = self.demuxer.movie.tracks();
        assert(indexed_views(tracks@).len() == tracks@.len());
        assert(indexed_views(tracks@)[self.track_index as int]
            == tracks@[self.track_index as int]@);
        &tracks[self.track_index]
    }

    pub fn decoder_config(&self) -> (result: Result<Option<AudioDecoderConfig>>)
        ensures
            if self@.next_sample_index >= self@.track.samples.len() {
                result == Ok::<Option<AudioDecoderConfig>, Mp4Error>(None)
            } else {
                let expected = audio_config_of(
                    self@.track,
                    self@.track.samples[self@.next_sample_index as int].description_index,
                );
                match result {
                    Ok(Some(config)) => gives_audio_config(Ok(config), expected),
                    Ok(None) => false,
                    Err(error) => expected matches Err(wanted) && error == wanted,
                }
            },
    {
        let track = self.track();
        let samples = track.samples();
        if self.next_sample_index >= samples.len() {
            return Ok(None);
        }
        let config = track.audio_decoder_config(
            samples[self.next_sample_index].description_index,
        )?;
        Ok(Some(config))
    }

    pub fn next_packet(&mut self) -> (result: Result<Option<EncodedAudioPacket>>)
        ensures
            if old(self)@.next_sample_index == old(self)@.track.samples.len() {
                result == Ok::<Option<EncodedAudioPacket>, Mp4Error>(None) && final(self)@ == old(self)@
            } else {
                let expected = audio_packet_of(
                    old(self)@.track,
                    old(self)@.content,
                    old(self)@.next_sample_index,
                );
                match result {
                    Ok(Some(packet)) => expected matches Ok(wanted) && audio_packet_view(packet)
                        == wanted && final(self)@ == old(self)@.moved(
                        (old(self)@.next_sample_index + 1) as usize,
                    ),
                    Ok(None) => false,
                    Err(error) => (expected matches Err(wanted) && error == wanted
                        || !old(self)@.dependable && is_fault(error)) && final(self)@ == old(self)@,
                }
            },
    {
        proof {
            use_type_invariant(&*self);
        }
        let sample_index: usize = self.next_sample_index;
        if sample_index == self.track().samples().len() {
            return Ok(None);
        }
        let packet = self.demuxer.read_audio_packet(self.track_index, sample_index)?;
        self.next_sample_index = sample_index + 1;
        Ok(Some(packet))
    }

    /// Synchronously prefetches a continuous source range containing upcoming
    /// compressed audio packets.
    ///
    /// See [`PacketCursor::prefetch_next_bytes`] for budget semantics.
    pub fn prefetch_next_bytes(&self, maximum_span_bytes: usize) -> (result: Result<usize>)
        ensures
            prefetches(
                result,
                &self@.source,
                self@.track.samples,
                self@.next_sample_index,
                maximum_span_bytes,
            ),
    {
        proof {
            use_type_invariant(self);
        }
        self.demuxer.prefetch_track_bytes(
            self.track_index,
            self.next_sample_index,
            maximum_span_bytes,
        )
    }

    /// Repositions to the closest complete audio sample at or before `target`.
    pub fn seek_to_time(&mut self, target: MediaTime) -> (result: Result<Option<usize>>)
        ensures
            seeks(
                result,
                old(self)@.track,
                target,
                true,
                |offset: int, scale: int, goal: int, found: Option<usize>|
                    is_latest(old(self)@.track.samples, true, offset, scale, goal, found),
            ),
            final(self)@ == old(self)@.sought(result),
    {
        proof {
            use_type_invariant(&*self);
        }
        let found = self.track().audio_sample_at_or_before(target)?;
        if let Some(sample_index) = found {
            self.next_sample_index = sample_index;
        }
        Ok(found)
    }

    #[inline]
    pub fn rewind(&mut self)
        ensures
            final(self)@ == old(self)@.moved(0),
    {
        proof {
            use_type_invariant(&*self);
        }
        self.next_sample_index = 0;
    }
}

/// A span holds all its samples, and none but the first may take it over the
/// budget.
pub proof fn law_prefetched_span_holds_its_samples(
    samples: Seq<Sample>,
    first: usize,
    maximum: usize,
    index: int,
)
    requires
        span_of(samples, first, maximum) matches Ok(Some(span)) && first <= index < first
            + span.count,
    ensures
        ({
            let span = span_of(samples, first, maximum)->Ok_0->0;
            &&& index < samples.len()
            &&& span.start <= samples[index].offset
            &&& samples[index].offset + samples[index].size <= span.end
            &&& span.count == 1 || span.end - span.start <= maximum
        }),
{
    let sample = samples[first as int];
    let start = Span {
        start: sample.offset as int,
        end: sample.offset + sample.size,
        count: 1,
    };
    lemma_span_from(samples, first as int, first + 1, start, maximum as int);
}

/// The samples from `first` up to `index` lie in the span, which keeps to the
/// budget if it has more than one.
pub open spec fn spans(samples: Seq<Sample>, first: int, index: int, span: Span, maximum: int) -> bool {
    &&& span.count == index - first
    &&& forall|i: int|
        first <= i < index ==> span.start <= (#[trigger] samples[i]).offset && samples[i].offset
            + samples[i].size <= span.end
    &&& span.count == 1 || span.end - span.start <= maximum
}

/// A span that is extended still holds its samples.
proof fn lemma_span_from(samples: Seq<Sample>, first: int, index: int, span: Span, maximum: int)
    requires
        0 <= first < index <= samples.len(),
        spans(samples, first, index, span, maximum),
    ensures
        span_from(samples, index, span, maximum) matches Ok(whole) ==> first + whole.count
            <= samples.len() && spans(samples, first, first + whole.count, whole, maximum),
    decreases samples.len() - index,
{
    if index < samples.len() {
        let sample = samples[index];
        let sample_end = sample.offset + sample.size;
        let start = if sample.offset < span.start {
            sample.offset as int
        } else {
            span.start
        };
        let end = if sample_end > span.end {
            sample_end
        } else {
            span.end
        };
        if sample_end <= u64::MAX && end - start <= maximum {
            lemma_span_from(
                samples,
                first,
                index + 1,
                Span { start, end, count: span.count + 1 },
                maximum,
            );
        }
    }
}

/// The packet that a seek to a keyframe leads to is a keyframe, and it is
/// presented by the time that was sought.
pub proof fn law_sought_packet_is_a_keyframe_in_time(
    track: TrackView,
    content: Seq<u8>,
    target: MediaTime,
    index: usize,
)
    requires
        seeks(
            Ok(Some(index)),
            track,
            target,
            false,
            |offset: int, scale: int, goal: int, found: Option<usize>|
                is_latest(track.samples, false, offset, scale, goal, found),
        ),
    ensures
        match video_packet_of(track, content, index) {
            Ok(packet) => packet.keyframe && (packet.pts matches Some((pts, scale)) && scale
                == track.media_timescale && pts * target.timescale@ <= target.value * scale),
            Err(_) => true,
        },
{
}

} // verus!
