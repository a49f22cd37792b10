//! Laws of tracks and of what describes their samples.

use vstd::prelude::*;

use super::bytes::{
    flags_at, law_long_is_read, law_version_and_flags_are_read, law_word_is_read, long, word,
};
use crate::mp4::audio::entry_config;
use crate::mp4::boxes::{
    boxes_from, first_of, payload_cursor, range_in, BoxHeader, FileView, Listing,
};
use crate::mp4::edit::Edit;
use crate::mp4::entry::{
    audio_fields, avc_length_size, configuration_in, configuration_of, configuration_scan,
    described, description_count, descriptions_of, entry_of, visual_fields, ConfigurationScan,
    DescriptionView, EntryKind,
};
use crate::mp4::error::Mp4Error;
use crate::mp4::fourcc::FourCc;
use crate::mp4::fragment::{fragmented, movie_extends_of};
use crate::mp4::movie::{audio_config_of, movie_from, tracks_of, video_config_of, MovieView};
use crate::mp4::reader::ByteCursor;
use crate::mp4::track::{
    duration_header, duration_of, handler_of, kind_of, media_from, media_of, media_part_of,
    optional_edits, track_from, track_header, track_header_of, track_of, TrackView,
};

verus! {

/// The 16-bit number at a place, its higher byte first.
pub open spec fn short(content: Seq<u8>, at: int) -> int {
    content[at] * 0x100 + content[at + 1]
}

/// A 16-bit number is read.
pub proof fn law_short_is_read(cursor: ByteCursor)
    requires
        cursor.error is None,
        0 <= cursor.position,
        cursor.u16().1.error is None,
    ensures
        cursor.u16().0 == short(cursor.content, cursor.position),
        cursor.u16().1 == (ByteCursor { position: cursor.position + 2, ..cursor }),
        0 <= short(cursor.content, cursor.position) < 0x1_0000,
{
    let bytes = cursor.content.subrange(cursor.position, cursor.position + 2);
    assert(cursor.bytes(2).0 == bytes);
    assert(bytes[0] == cursor.content[cursor.position]);
    assert(bytes[1] == cursor.content[cursor.position + 1]);
}

/// A movie or media header holds its scale and its duration behind its two times, which
/// take four bytes each, or eight in the second version. The highest number says that
/// the duration is not known. A scale is not zero.
pub proof fn law_durations_stand_behind_the_times(cursor: ByteCursor)
    requires
        cursor.error is None,
        0 <= cursor.position,
        duration_header(cursor).1.error is None,
    ensures
        ({
            let (scale, duration) = duration_header(cursor).0;
            let content = cursor.content;
            let at = cursor.position;
            &&& content[at] == 0 || content[at] == 1
            &&& scale > 0
            &&& content[at] == 0 ==> scale == word(content, at + 12)
            &&& content[at] == 0 ==> (duration is None <==> word(content, at + 16) == 0xffff_ffff)
            &&& content[at] == 0 ==> (duration matches Some(ticks) ==> ticks == word(
                content,
                at + 16,
            ))
            &&& content[at] == 1 ==> scale == word(content, at + 20)
            &&& content[at] == 1 ==> (duration is None <==> long(content, at + 24)
                == 0xffff_ffff_ffff_ffff)
            &&& content[at] == 1 ==> (duration matches Some(ticks) ==> ticks == long(
                content,
                at + 24,
            ))
        }),
{
    law_version_and_flags_are_read(cursor);
    let behind = cursor.full_box().1;
    if cursor.content[cursor.position] == 0 {
        law_word_is_read(behind.skip(8));
        law_word_is_read(behind.skip(8).u32().1);
    } else if cursor.content[cursor.position] == 1 {
        law_word_is_read(behind.skip(16));
        law_long_is_read(behind.skip(16).u32().1);
    }
}

/// A track header holds its flags, the number of the track behind two times and, in its
/// last eight bytes, the width and the height. A number is not zero.
pub proof fn law_track_headers_end_with_the_size(cursor: ByteCursor)
    requires
        cursor.error is None,
        0 <= cursor.position,
        track_header(cursor).1.error is None,
    ensures
        ({
            let (id, flags, width, height) = track_header(cursor).0;
            let content = cursor.content;
            let at = cursor.position;
            &&& content[at] == 0 || content[at] == 1
            &&& id != 0
            &&& flags == flags_at(content, at + 1)
            &&& content[at] == 0 ==> id == word(content, at + 12)
            &&& content[at] == 1 ==> id == word(content, at + 20)
            &&& width == word(content, cursor.end - 8)
            &&& height == word(content, cursor.end - 4)
            &&& content[at] == 0 ==> cursor.end - at >= 84
            &&& content[at] == 1 ==> cursor.end - at >= 96
        }),
{
    law_version_and_flags_are_read(cursor);
    let behind = cursor.full_box().1;
    let number = if cursor.content[cursor.position] == 0 {
        behind.skip(8)
    } else {
        behind.skip(16)
    };
    if cursor.content[cursor.position] <= 1 {
        law_word_is_read(number);
        let place = if cursor.content[cursor.position] == 0 {
            number.u32().1.skip(8)
        } else {
            number.u32().1.skip(12)
        };
        law_word_is_read(place.skip(place.remaining() - 8));
        law_word_is_read(place.skip(place.remaining() - 8).u32().1);
    }
}

/// The handler of a track stands eight bytes into its box and names video or audio by
/// four letters.
pub proof fn law_handlers_name_what_a_track_holds(
    file: FileView,
    header: BoxHeader,
    handler: FourCc,
)
    requires
        handler_of(file, header) == Ok::<FourCc, Mp4Error>(handler),
        0 <= payload_cursor(file, header).position,
    ensures
        ({
            let at = payload_cursor(file, header).position + 8;
            let says = |a: u8, b: u8, c: u8, d: u8|
                file.content[at] == a && file.content[at + 1] == b && file.content[at + 2] == c
                    && file.content[at + 3] == d;
            &&& handler.code == word(file.content, at)
            &&& kind_of(handler) is Video <==> says(0x76, 0x69, 0x64, 0x65)
            &&& kind_of(handler) is Audio <==> says(0x73, 0x6f, 0x75, 0x6e)
        }),
{
    let cursor = payload_cursor(file, header);
    law_version_and_flags_are_read(cursor);
    law_word_is_read(cursor.full_box().1.skip(4));
}

/// The fields of a visual entry: where its data is, its width and its height.
pub proof fn law_visual_entries_hold_their_size(cursor: ByteCursor)
    requires
        cursor.error is None,
        0 <= cursor.position,
        visual_fields(cursor).1.error is None,
    ensures
        ({
            let ((reference, width, height), behind) = visual_fields(cursor);
            let at = cursor.position;
            &&& reference == short(cursor.content, at + 6)
            &&& width == short(cursor.content, at + 24)
            &&& height == short(cursor.content, at + 26)
            &&& behind == (ByteCursor { position: at + 78, ..cursor })
        }),
{
    law_short_is_read(cursor.skip(6));
    law_short_is_read(cursor.skip(6).u16().1.skip(16));
    law_short_is_read(cursor.skip(6).u16().1.skip(16).u16().1);
}

/// The fields of an audio entry: where its data is, its channels, the bits of a sample
/// and its rate, a fixed-point number without a fraction.
pub proof fn law_audio_entries_hold_their_rate(cursor: ByteCursor)
    requires
        cursor.error is None,
        0 <= cursor.position,
        audio_fields(cursor).1.error is None,
    ensures
        ({
            let (fields, behind) = audio_fields(cursor);
            let at = cursor.position;
            &&& fields.data_reference_index == short(cursor.content, at + 6)
            &&& short(cursor.content, at + 8) == 0
            &&& fields.channel_count == short(cursor.content, at + 16)
            &&& fields.channel_count > 0
            &&& fields.sample_size == short(cursor.content, at + 18)
            &&& fields.sample_rate == short(cursor.content, at + 24)
            &&& fields.sample_rate > 0
            &&& short(cursor.content, at + 26) == 0
            &&& behind == (ByteCursor { position: at + 28, ..cursor })
        }),
{
    let a = cursor.skip(6);
    law_short_is_read(a);
    let b = a.u16().1;
    law_short_is_read(b);
    let c = b.u16().1.skip(2).skip(4);
    law_short_is_read(c);
    let d = c.u16().1;
    law_short_is_read(d);
    law_word_is_read(d.u16().1.skip(4));
}

/// The lengths before the units of a sample take one to four bytes, as the fifth byte of
/// the configuration says.
pub proof fn law_unit_lengths_take_one_to_four_bytes(data: Seq<u8>, size: u8)
    requires
        data.len() >= 6,
        data[0] == 1,
        data[5] >= 0xe0,
        1 <= size <= 4,
        data[4] == 0xfb + size,
    ensures
        avc_length_size(data) == Ok::<u8, Mp4Error>(size),
{
}

/// A configuration with another version or with reserved bits that are not set is
/// refused.
pub proof fn law_reserved_bits_are_set(data: Seq<u8>)
    requires
        data.len() < 6 || data[0] != 1 || data[4] < 0xfc || data[5] < 0xe0,
    ensures
        avc_length_size(data) is Err,
{
}

proof fn lemma_scan(
    file: FileView,
    boxes: Seq<BoxHeader>,
    code: u32,
    duplicate: &'static str,
    place: int,
    data: Seq<u8>,
    count: int,
)
    requires
        0 <= place < boxes.len(),
        0 <= count <= boxes.len(),
        boxes[place].kind.code == code,
        configuration_of(file, boxes[place], code) == Ok::<Seq<u8>, Mp4Error>(data),
        forall|i: int|
            0 <= i < boxes.len() && i != place ==> (#[trigger] boxes[i]).kind.code != code,
    ensures
        configuration_scan(file, boxes, code, duplicate, count) == if count > place {
            ConfigurationScan { found: Some(data), error: None }
        } else {
            ConfigurationScan { found: None, error: None }
        },
    decreases count,
{
    if count > 0 {
        lemma_scan(file, boxes, code, duplicate, place, data, count - 1);
        let last = boxes[count - 1];
    }
}

/// The configuration of an entry is that of the one box with its code, wherever it
/// stands among the boxes of the entry.
pub proof fn law_configurations_are_found_by_their_code(
    file: FileView,
    start: int,
    end: int,
    code: u32,
    duplicate: &'static str,
    missing: &'static str,
    place: int,
    data: Seq<u8>,
)
    requires
        range_in(file, start, end) is Ok,
        boxes_from(file.content, start, end).error is None,
        0 <= place < boxes_from(file.content, start, end).boxes.len(),
        boxes_from(file.content, start, end).boxes[place].kind.code == code,
        configuration_of(file, boxes_from(file.content, start, end).boxes[place], code) == Ok::<
            Seq<u8>,
            Mp4Error,
        >(data),
        forall|i: int|
            0 <= i < boxes_from(file.content, start, end).boxes.len() && i != place ==> (
            #[trigger] boxes_from(file.content, start, end).boxes[i]).kind.code != code,
    ensures
        configuration_in(file, start, end, code, duplicate, missing) == Ok::<Seq<u8>, Mp4Error>(
            data,
        ),
{
    let boxes = boxes_from(file.content, start, end).boxes;
    lemma_scan(file, boxes, code, duplicate, place, data, boxes.len() as int);
}

proof fn lemma_described(file: FileView, listing: Listing, kind: EntryKind, count: int)
    requires
        0 <= count,
        described(file, listing, kind, count) is Ok,
    ensures
        ({
            let descriptions = described(file, listing, kind, count)->Ok_0;
            &&& descriptions.len() == count
            &&& count <= listing.boxes.len()
            &&& forall|i: int|
                0 <= i < count ==> entry_of(file, listing.boxes[i], kind) == Ok::<
                    DescriptionView,
                    Mp4Error,
                >(#[trigger] descriptions[i])
        }),
    decreases count,
{
    if count > 0 {
        lemma_described(file, listing, kind, count - 1);
    }
}

/// The descriptions of samples are as many as their table announces, each what the entry
/// at its place describes.
pub proof fn law_descriptions_are_listed(file: FileView, header: BoxHeader, kind: EntryKind)
    requires
        descriptions_of(file, header, kind) is Ok,
        0 <= payload_cursor(file, header).position,
        payload_cursor(file, header).error is None,
    ensures
        ({
            let start = payload_cursor(file, header);
            let descriptions = descriptions_of(file, header, kind)->Ok_0;
            let entries = boxes_from(file.content, start.position + 8, start.end).boxes;
            &&& descriptions.len() == word(file.content, start.position + 4)
            &&& entries.len() == descriptions.len()
            &&& forall|i: int|
                0 <= i < descriptions.len() ==> entry_of(file, entries[i], kind) == Ok::<
                    DescriptionView,
                    Mp4Error,
                >(#[trigger] descriptions[i])
        }),
{
    let start = payload_cursor(file, header);
    let (count, cursor) = description_count(start);
    law_version_and_flags_are_read(start);
    law_word_is_read(start.full_box().1);
    let listing = boxes_from(file.content, cursor.position, cursor.end);
    lemma_described(file, listing, kind, count as int);
}

/// A track is what its header, its media and its edits say.
pub proof fn law_tracks_hold_their_parts(
    file: FileView,
    found: Seq<Seq<BoxHeader>>,
    scale: nat,
    track: TrackView,
)
    requires
        track_from(file, found, scale) == Ok::<TrackView, Mp4Error>(track),
    ensures
        first_of(found[0]) matches Some(header) && track_header_of(file, header) == Ok::<
            (u32, u32, u32, u32),
            Mp4Error,
        >((track.id, track.flags, track.display_width_16_16, track.display_height_16_16)),
        first_of(found[1]) matches Some(media_box) && (media_part_of(file, media_box) matches Ok(
            media,
        ) && track.media_timescale == media.timescale && track.media_duration == media.duration
            && track.handler == media.handler && track.descriptions == media.descriptions
            && track.samples == media.samples),
        optional_edits(file, first_of(found[2])) == Ok::<Seq<Edit>, Mp4Error>(
            track.edits,
        ),
        track.movie_timescale == scale,
{
}

/// Media is what its header, its handler and its information say. Only video and audio
/// hold samples.
pub proof fn law_media_holds_its_parts(file: FileView, found: Seq<Seq<BoxHeader>>)
    requires
        media_from(file, found) is Ok,
    ensures
        ({
            let media = media_from(file, found)->Ok_0;
            &&& first_of(found[0]) matches Some(header) && duration_of(
                file,
                header,
            ) == Ok::<(u32, Option<u64>), Mp4Error>((media.timescale, media.duration))
            &&& first_of(found[1]) matches Some(handler) && handler_of(file, handler) == Ok::<
                FourCc,
                Mp4Error,
            >(media.handler)
            &&& kind_of(media.handler) is Other ==> media.descriptions.len() == 0
                && media.samples.len() == 0
            &&& kind_of(media.handler) is Video ==> media_of(
                file,
                first_of(found[2]),
                EntryKind::Video,
            ) == Ok::<_, Mp4Error>((media.descriptions, media.samples))
            &&& kind_of(media.handler) is Audio ==> media_of(
                file,
                first_of(found[2]),
                EntryKind::Audio,
            ) == Ok::<_, Mp4Error>((media.descriptions, media.samples))
        }),
{
}

/// A description of video gives its configuration, with the size of the lengths in its
/// samples.
pub proof fn law_descriptions_configure_video(track: TrackView, index: usize)
    ensures
        match video_config_of(track, index) {
            Ok((size, data)) => {
                &&& index < track.descriptions.len()
                &&& 1 <= size <= 4
                &&& data[4] == 0xfb + size
                &&& track.descriptions[index as int] matches DescriptionView::Avc(entry)
                    && entry.codec_configuration == data
            },
            Err(error) => {
                ||| index >= track.descriptions.len()
                ||| !(track.descriptions[index as int] is Avc)
                ||| avc_length_size(
                    track.descriptions[index as int]->Avc_0.codec_configuration,
                ) is Err
            },
        },
{
}

/// A description of audio gives its configuration, with its rate and its channels.
pub proof fn law_descriptions_configure_audio(track: TrackView, index: usize)
    ensures
        match audio_config_of(track, index) {
            Ok((parsed, data)) => {
                &&& index < track.descriptions.len()
                &&& track.descriptions[index as int] matches DescriptionView::Aac(entry) && {
                    &&& entry.audio_specific_config == data
                    &&& entry.sample_rate == parsed.sample_rate
                    &&& entry.channel_count == 1 <==> parsed.channel_layout is Mono
                    &&& entry.channel_count == 2 <==> parsed.channel_layout is Stereo
                }
            },
            Err(error) => {
                ||| index >= track.descriptions.len()
                ||| !(track.descriptions[index as int] is Aac)
                ||| entry_config(track.descriptions[index as int]->Aac_0) is Err
            },
        },
{
}

/// A movie is what its header says and the tracks of its boxes, with what fragments add.
pub proof fn law_movies_hold_their_parts(
    file: FileView,
    movie_box: BoxHeader,
    found: Seq<Seq<BoxHeader>>,
    movie: MovieView,
)
    requires
        movie_from(file, movie_box, found) == Ok::<MovieView, Mp4Error>(movie),
    ensures
        first_of(found[0]) matches Some(header) && (duration_of(file, header) matches Ok(
            (scale, duration),
        ) && scale == movie.timescale && duration == movie.duration),
        tracks_of(file, found[1], movie.timescale, found[1].len() as int) matches Ok(tracks) && (
        movie_extends_of(file, movie_box) matches Ok(extends) && fragmented(file, extends, tracks)
            == Ok::<Seq<TrackView>, Mp4Error>(movie.tracks)),
{
}

/// The tracks of a movie are those of its boxes, in their order.
pub proof fn law_tracks_keep_their_order(
    file: FileView,
    boxes: Seq<BoxHeader>,
    scale: nat,
    count: int,
)
    requires
        0 <= count,
        tracks_of(file, boxes, scale, count) is Ok,
    ensures
        tracks_of(file, boxes, scale, count)->Ok_0.len() == count,
        forall|i: int|
            0 <= i < count ==> track_of(file, boxes[i], scale) == Ok::<TrackView, Mp4Error>(
                #[trigger] tracks_of(file, boxes, scale, count)->Ok_0[i],
            ),
    decreases count,
{
    if count > 0 {
        law_tracks_keep_their_order(file, boxes, scale, count - 1);
    }
}

} // verus!
