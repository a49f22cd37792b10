//! Laws of packets and seeks.

use vstd::prelude::*;

use crate::mp4::demuxer::{audio_packet_of, span_from, span_of, video_packet_of, PacketView, Span};
use crate::mp4::error::Mp4Error;
use crate::mp4::sample_table::Sample;
use crate::mp4::timeline::{eligible, is_earliest, is_latest, is_nearest, scaled};
use crate::mp4::track::TrackView;

verus! {

/// A packet has the bytes of its sample, and its times on the timeline of the movie: the
/// presentation and the decode time moved by the same offset, in ticks of the media.
pub proof fn law_packets_hold_their_sample(
    track: TrackView,
    content: Seq<u8>,
    index: usize,
    packet: PacketView,
)
    requires
        index < track.samples.len(),
        video_packet_of(track, content, index) == Ok::<PacketView, Mp4Error>(packet)
            || audio_packet_of(track, content, index) == Ok::<PacketView, Mp4Error>(packet),
    ensures
        ({
            let sample = track.samples[index as int];
            let offset = track.offset()->Ok_0;
            &&& packet.data.len() == sample.size
            &&& sample.size > 0 ==> sample.offset + sample.size <= content.len()
            &&& forall|i: int|
                0 <= i < sample.size ==> #[trigger] packet.data[i] == content[sample.offset + i]
            &&& packet.pts == Some(
                ((sample.presentation_time + offset) as i64, track.media_timescale),
            )
            &&& packet.dts == Some(((sample.decode_time + offset) as i64, track.media_timescale))
            &&& packet.duration == Some((sample.duration as i64, track.media_timescale))
            &&& i64::MIN <= sample.presentation_time + offset <= i64::MAX
            &&& i64::MIN <= sample.decode_time + offset <= i64::MAX
        }),
        video_packet_of(track, content, index) == Ok::<PacketView, Mp4Error>(packet)
            ==> packet.keyframe == track.samples[index as int].sync,
{
}

/// A sample that is presented exactly at a time is found there, whether the last one up
/// to the time is sought, the first one from it on, or the nearest. Elsewhere the last
/// one comes before the time and the first one behind it, and none lies between.
pub proof fn law_seeks_find_exact_times(
    samples: Seq<Sample>,
    every: bool,
    offset: int,
    scale: int,
    goal: int,
    exact: int,
    before: Option<usize>,
    after: Option<usize>,
    nearest: Option<usize>,
)
    requires
        is_latest(samples, every, offset, scale, goal, before),
        is_earliest(samples, every, offset, scale, goal, after),
        is_nearest(samples, every, offset, scale, goal, nearest),
        scale > 0,
    ensures
        0 <= exact < samples.len() && (every || samples[exact].sync) && (
        samples[exact].presentation_time + offset) * scale == goal ==> {
            &&& before is Some && samples[before->0 as int].presentation_time
                == samples[exact].presentation_time
            &&& after is Some && samples[after->0 as int].presentation_time
                == samples[exact].presentation_time
            &&& nearest is Some && samples[nearest->0 as int].presentation_time
                == samples[exact].presentation_time
        },
        before matches Some(found) ==> found < samples.len() && (every || samples[found as int].sync)
            && (samples[found as int].presentation_time + offset) * scale <= goal,
        after matches Some(found) ==> found < samples.len() && (every || samples[found as int].sync)
            && (samples[found as int].presentation_time + offset) * scale >= goal,
        forall|i: int|
            0 <= i < samples.len() && (every || samples[i].sync) && before is Some && after is Some
                ==> (#[trigger] samples[i]).presentation_time
                <= samples[before->0 as int].presentation_time || samples[i].presentation_time
                >= samples[after->0 as int].presentation_time,
{
    if 0 <= exact < samples.len() && (every || samples[exact].sync) && scaled(
        samples[exact],
        offset,
        scale,
    ) == goal {
        assert(eligible(samples, every, exact));
        lemma_scaled(samples, offset, scale, before->0 as int, exact);
        lemma_scaled(samples, offset, scale, after->0 as int, exact);
        lemma_scaled(samples, offset, scale, nearest->0 as int, exact);
    }
    assert forall|i: int|
        0 <= i < samples.len() && (every || samples[i].sync) && before is Some && after is Some implies (
    #[trigger] samples[i]).presentation_time <= samples[before->0 as int].presentation_time
        || samples[i].presentation_time >= samples[after->0 as int].presentation_time by {
        assert(eligible(samples, every, i));
    }
}

/// Later samples have larger numbers of ticks.
proof fn lemma_scaled(samples: Seq<Sample>, offset: int, scale: int, first: int, second: int)
    requires
        scale > 0,
    ensures
        scaled(samples[first], offset, scale) <= scaled(samples[second], offset, scale)
            <==> samples[first].presentation_time <= samples[second].presentation_time,
        scaled(samples[second], offset, scale) <= scaled(samples[first], offset, scale)
            <==> samples[second].presentation_time <= samples[first].presentation_time,
{
    let a = samples[first].presentation_time + offset;
    let b = samples[second].presentation_time + offset;
    assert((a * scale <= b * scale) <==> a <= b) by (nonlinear_arith)
        requires
            scale > 0,
    ;
    assert((b * scale <= a * scale) <==> b <= a) by (nonlinear_arith)
        requires
            scale > 0,
    ;
}

/// How far a number is from zero.
pub open spec fn size_of(number: int) -> int {
    if number < 0 {
        -number
    } else {
        number
    }
}

/// No sample is nearer than the nearest. One as near is not presented earlier, and one
/// that is presented together with it is not decoded earlier.
pub proof fn law_seeks_find_the_nearest(
    samples: Seq<Sample>,
    every: bool,
    offset: int,
    scale: int,
    goal: int,
    nearest: usize,
    other: int,
)
    requires
        is_nearest(samples, every, offset, scale, goal, Some(nearest)),
        0 <= other < samples.len(),
        every || samples[other].sync,
    ensures
        nearest < samples.len(),
        every || samples[nearest as int].sync,
        ({
            let found = samples[nearest as int];
            let near = size_of((found.presentation_time + offset) * scale - goal);
            let far = size_of((samples[other].presentation_time + offset) * scale - goal);
            &&& near <= far
            &&& near == far ==> found.presentation_time <= samples[other].presentation_time
            &&& found.presentation_time == samples[other].presentation_time ==> nearest <= other
        }),
{
    assert(eligible(samples, every, other));
}

/// Of samples that are presented together the one that is decoded first is found.
pub proof fn law_seeks_find_the_first_decoded(
    samples: Seq<Sample>,
    every: bool,
    offset: int,
    scale: int,
    goal: int,
    found: usize,
    other: int,
)
    requires
        is_latest(samples, every, offset, scale, goal, Some(found)) || is_earliest(
            samples,
            every,
            offset,
            scale,
            goal,
            Some(found),
        ),
        0 <= other < samples.len(),
        every || samples[other].sync,
        samples[other].presentation_time == samples[found as int].presentation_time,
    ensures
        found <= other,
{
    assert(eligible(samples, every, other));
}

/// A seek finds nothing only where there is nothing to find.
pub proof fn law_seeks_find_what_there_is(
    samples: Seq<Sample>,
    every: bool,
    offset: int,
    scale: int,
    goal: int,
    other: int,
)
    requires
        0 <= other < samples.len(),
        every || samples[other].sync,
    ensures
        is_latest(samples, every, offset, scale, goal, None) ==> (samples[other].presentation_time
            + offset) * scale > goal,
        is_earliest(samples, every, offset, scale, goal, None) ==> (samples[other].presentation_time
            + offset) * scale < goal,
        !is_nearest(samples, every, offset, scale, goal, None),
{
    assert(eligible(samples, every, other));
}

/// A span together with one more sample is too long.
pub open spec fn is_full(span: Span, sample: Sample, maximum: int) -> bool {
    ||| span.end - span.start > maximum
    ||| span.end - sample.offset > maximum
    ||| sample.offset + sample.size - span.start > maximum
    ||| sample.size > maximum
}

proof fn lemma_filled(samples: Seq<Sample>, first: int, index: int, span: Span, maximum: int)
    requires
        0 <= first < index <= samples.len(),
        span.count == index - first,
        span_from(samples, index, span, maximum) is Ok,
    ensures
        ({
            let whole = span_from(samples, index, span, maximum)->Ok_0;
            &&& index <= first + whole.count <= samples.len()
            &&& first + whole.count < samples.len() ==> is_full(
                whole,
                samples[first + whole.count],
                maximum,
            )
            &&& whole.start == span.start || exists|i: int|
                index <= i < first + whole.count && whole.start == (#[trigger] samples[i]).offset
            &&& whole.end == span.end || exists|i: int|
                index <= i < first + whole.count && whole.end == (#[trigger] samples[i]).offset
                    + samples[i].size
        }),
    decreases samples.len() - index,
{
    if index < samples.len() {
        let sample = samples[index];
        let sample_end = sample.offset + sample.size;
        let start = if sample.offset < span.start {
            sample.offset as int
        } else {
            span.start
        };
        let end = if sample_end > span.end {
            sample_end
        } else {
            span.end
        };
        if end - start <= maximum {
            let next = Span { start, end, count: span.count + 1 };
            lemma_filled(samples, first, index + 1, next, maximum);
            let whole = span_from(samples, index + 1, next, maximum)->Ok_0;
            assert(whole.start == start ==> whole.start == span.start || whole.start
                == samples[index].offset);
        }
    }
}

/// As many samples are fetched ahead as fit: one more would make the span too long. The
/// span begins with one of its samples and ends with one of them.
pub proof fn law_spans_hold_as_many_samples_as_fit(
    samples: Seq<Sample>,
    first: usize,
    maximum: usize,
    span: Span,
)
    requires
        span_of(samples, first, maximum) == Ok::<Option<Span>, Mp4Error>(Some(span)),
    ensures
        span.count >= 1,
        first + span.count <= samples.len(),
        first + span.count < samples.len() ==> is_full(
            span,
            samples[first + span.count],
            maximum as int,
        ),
        exists|i: int|
            first <= i < first + span.count && span.start == (#[trigger] samples[i]).offset,
        exists|i: int|
            first <= i < first + span.count && span.end == (#[trigger] samples[i]).offset
                + samples[i].size,
{
    let sample = samples[first as int];
    let start = Span {
        start: sample.offset as int,
        end: sample.offset + sample.size,
        count: 1,
    };
    lemma_filled(samples, first as int, first + 1, start, maximum as int);
    assert(samples[first as int].offset == start.start);
}

} // verus!
