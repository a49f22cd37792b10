//! Laws of AAC configurations.

use vstd::arithmetic::power2::lemma2_to64;
use vstd::prelude::*;

use crate::h264::bits::{bits_value, lemma_bits_bound};
use crate::mp4::audio::{
    decoder_specific, descriptor_at, descriptor_length, descriptor_with, entry_config,
    es_header_end, esds_config, specific_config, AacEntryView, DescriptorView,
};
use crate::mp4::error::Mp4Error;

verus! {

/// The sample rate that an index stands for.
pub open spec fn is_named_rate(index: nat, rate: u32) -> bool {
    ||| index == 0 && rate == 96_000
    ||| index == 1 && rate == 88_200
    ||| index == 2 && rate == 64_000
    ||| index == 3 && rate == 48_000
    ||| index == 4 && rate == 44_100
    ||| index == 5 && rate == 32_000
    ||| index == 6 && rate == 24_000
    ||| index == 7 && rate == 22_050
    ||| index == 8 && rate == 16_000
    ||| index == 9 && rate == 12_000
    ||| index == 10 && rate == 11_025
    ||| index == 11 && rate == 8_000
    ||| index == 12 && rate == 7_350
}

proof fn lemma_widths(data: Seq<u8>)
    ensures
        bits_value(data, 0, 5) < 32,
        bits_value(data, 5, 6) < 64,
        bits_value(data, 5, 4) < 16,
        bits_value(data, 9, 24) < 0x100_0000,
        bits_value(data, 9, 4) < 16,
        bits_value(data, 33, 4) < 16,
{
    lemma2_to64();
    lemma_bits_bound(data, 0, 5);
    lemma_bits_bound(data, 5, 6);
    lemma_bits_bound(data, 5, 4);
    lemma_bits_bound(data, 9, 24);
    lemma_bits_bound(data, 9, 4);
    lemma_bits_bound(data, 33, 4);
}

/// A configuration with an index of its rate: five bits say AAC-LC, four bits the rate
/// and four bits one or two channels. Anything else is refused.
pub proof fn law_rates_are_named_by_an_index(data: Seq<u8>)
    requires
        data.len() >= 2,
        bits_value(data, 5, 4) != 15,
    ensures
        ({
            let kind = bits_value(data, 0, 5);
            let index = bits_value(data, 5, 4);
            let channels = bits_value(data, 9, 4);
            match specific_config(data) {
                Ok(config) => {
                    &&& kind == 2
                    &&& is_named_rate(index, config.sample_rate)
                    &&& channels == 1 && config.channel_layout is Mono || channels == 2
                        && config.channel_layout is Stereo
                },
                Err(_) => kind != 2 || index > 12 || channels == 0 || channels > 2,
            }
        }),
{
    lemma_widths(data);
}

/// A configuration may write its rate out in 24 bits, which are not zero.
pub proof fn law_rates_may_be_written_out(data: Seq<u8>)
    requires
        data.len() >= 5,
        bits_value(data, 5, 4) == 15,
    ensures
        ({
            let kind = bits_value(data, 0, 5);
            let rate = bits_value(data, 9, 24);
            let channels = bits_value(data, 33, 4);
            match specific_config(data) {
                Ok(config) => {
                    &&& kind == 2
                    &&& rate != 0
                    &&& config.sample_rate == rate
                    &&& channels == 1 && config.channel_layout is Mono || channels == 2
                        && config.channel_layout is Stereo
                },
                Err(_) => kind != 2 || rate == 0 || channels == 0 || channels > 2,
            }
        }),
{
    lemma_widths(data);
}

/// A length of one to four bytes: each byte holds seven bits, and all but the last have
/// their highest bit set.
pub proof fn law_lengths_have_seven_bits_a_byte(data: Seq<u8>, at: int)
    requires
        0 <= at,
    ensures
        at < data.len() && data[at] < 128 ==> descriptor_length(data, at, 0, 0) == Ok::<
            (int, int),
            Mp4Error,
        >((data[at] as int, at + 1)),
        at + 1 < data.len() && data[at] >= 128 && data[at + 1] < 128 ==> descriptor_length(
            data,
            at,
            0,
            0,
        ) == Ok::<(int, int), Mp4Error>(((data[at] - 128) * 128 + data[at + 1], at + 2)),
        at + 2 < data.len() && data[at] >= 128 && data[at + 1] >= 128 && data[at + 2] < 128
            ==> descriptor_length(data, at, 0, 0) == Ok::<(int, int), Mp4Error>(
            ((data[at] - 128) * 0x4000 + (data[at + 1] - 128) * 128 + data[at + 2], at + 3),
        ),
        at + 3 < data.len() && data[at] >= 128 && data[at + 1] >= 128 && data[at + 2] >= 128
            && data[at + 3] < 128 ==> descriptor_length(data, at, 0, 0) == Ok::<
            (int, int),
            Mp4Error,
        >(
            (
                (data[at] - 128) * 0x20_0000 + (data[at + 1] - 128) * 0x4000 + (data[at + 2] - 128)
                    * 128 + data[at + 3],
                at + 4,
            ),
        ),
        at + 3 < data.len() && data[at] >= 128 && data[at + 1] >= 128 && data[at + 2] >= 128
            && data[at + 3] >= 128 ==> descriptor_length(data, at, 0, 0) is Err,
{
    reveal_with_fuel(descriptor_length, 5);
}

/// A descriptor is its tag, its length and a body of that length, which lies in the
/// data.
pub proof fn law_descriptors_hold_their_length(data: Seq<u8>, at: int)
    requires
        0 <= at < data.len(),
    ensures
        match descriptor_length(data, at + 1, 0, 0) {
            Ok((length, start)) => match descriptor_at(data, at) {
                Ok(descriptor) => {
                    &&& descriptor.tag == data[at]
                    &&& descriptor.start == start
                    &&& descriptor.end - descriptor.start == length
                    &&& descriptor.end <= data.len()
                },
                Err(_) => start + length > data.len(),
            },
            Err(_) => descriptor_at(data, at) is Err,
        },
{
}

proof fn lemma_searched(
    data: Seq<u8>,
    places: Seq<int>,
    tag: u8,
    found: DescriptorView,
    done: int,
)
    requires
        0 <= done < places.len(),
        forall|i: int| 0 <= i < places.len() ==> 0 <= #[trigger] places[i] < data.len(),
        forall|i: int|
            0 <= i < places.len() - 1 ==> (descriptor_at(data, #[trigger] places[i]) matches Ok(
                passed,
            ) && passed.tag != tag && passed.end == places[i + 1]),
        descriptor_at(data, places.last()) == Ok::<DescriptorView, Mp4Error>(found),
        found.tag == tag,
    ensures
        descriptor_with(data, places[done], tag) == Ok::<Option<DescriptorView>, Mp4Error>(
            Some(found),
        ),
    decreases places.len() - done,
{
    assert(places[done] < data.len());
    if done < places.len() - 1 {
        lemma_searched(data, places, tag, found, done + 1);
    }
}

/// Descriptors stand one behind the other, and the first with a tag is found.
pub proof fn law_the_first_descriptor_with_a_tag_is_found(
    data: Seq<u8>,
    places: Seq<int>,
    tag: u8,
    found: DescriptorView,
)
    requires
        places.len() > 0,
        forall|i: int| 0 <= i < places.len() ==> 0 <= #[trigger] places[i] < data.len(),
        forall|i: int|
            0 <= i < places.len() - 1 ==> (descriptor_at(data, #[trigger] places[i]) matches Ok(
                passed,
            ) && passed.tag != tag && passed.end == places[i + 1]),
        descriptor_at(data, places.last()) == Ok::<DescriptorView, Mp4Error>(found),
        found.tag == tag,
    ensures
        descriptor_with(data, places[0], tag) == Ok::<Option<DescriptorView>, Mp4Error>(
            Some(found),
        ),
{
    lemma_searched(data, places, tag, found, 0);
}

/// The header of a stream has three bytes, two more where it depends on another, a text
/// behind its length where there is one, and two more where it names a clock.
pub proof fn law_stream_headers_hold_what_they_announce(
    body: Seq<u8>,
    depends: bool,
    text: bool,
    clock: bool,
    rest: int,
)
    requires
        body.len() >= 3,
        0 <= rest < 32,
        body[2] == (if depends {
            128int
        } else {
            0
        }) + (if text {
            64int
        } else {
            0
        }) + (if clock {
            32int
        } else {
            0
        }) + rest,
    ensures
        ({
            let place = if depends {
                5int
            } else {
                3
            };
            let length = if text {
                1 + body[place]
            } else {
                0
            };
            let end = place + length + if clock {
                2int
            } else {
                0
            };
            match es_header_end(body) {
                Ok(found) => found == end && end <= body.len(),
                Err(_) => end > body.len() || text && place >= body.len(),
            }
        }),
{
}

/// The configuration of a decoder names MPEG-4 audio and an audio stream. Behind its 13
/// bytes the descriptor with tag 5 holds what the decoder needs.
pub proof fn law_decoders_are_configured(body: Seq<u8>, info: DescriptorView)
    requires
        body.len() >= 13,
        descriptor_with(body, 13, 5) == Ok::<Option<DescriptorView>, Mp4Error>(Some(info)),
    ensures
        match decoder_specific(body) {
            Ok(data) => {
                &&& body[0] == 64
                &&& body[1] == 21 || body[1] == 23
                &&& data == body.subrange(info.start, info.end)
                &&& info.start != info.end
            },
            Err(_) => body[0] != 64 || !(body[1] == 21 || body[1] == 23) || info.start == info.end,
        },
{
}

/// What the decoder needs stands in the descriptor with tag 5, in that with tag 4, in
/// that with tag 3, which is all there is.
pub proof fn law_configurations_are_nested(
    data: Seq<u8>,
    root: DescriptorView,
    behind: int,
    config: DescriptorView,
)
    requires
        descriptor_at(data, 0) == Ok::<DescriptorView, Mp4Error>(root),
        es_header_end(data.subrange(root.start, root.end)) == Ok::<int, Mp4Error>(behind),
        descriptor_with(data.subrange(root.start, root.end), behind, 4) == Ok::<
            Option<DescriptorView>,
            Mp4Error,
        >(Some(config)),
    ensures
        root.tag == 3 && root.end == data.len() ==> esds_config(data) == decoder_specific(
            data.subrange(root.start, root.end).subrange(config.start, config.end),
        ),
        !(root.tag == 3 && root.end == data.len()) ==> esds_config(data) is Err,
{
}

/// An entry is taken where its rate and its number of channels are those of its
/// configuration.
pub proof fn law_entries_agree_with_their_configuration(entry: AacEntryView)
    ensures
        match specific_config(entry.audio_specific_config) {
            Ok(parsed) => match entry_config(entry) {
                Ok(config) => {
                    &&& config == parsed
                    &&& entry.sample_rate == parsed.sample_rate
                    &&& parsed.channel_layout is Mono ==> entry.channel_count == 1
                    &&& parsed.channel_layout is Stereo ==> entry.channel_count == 2
                },
                Err(_) => {
                    ||| entry.sample_rate != parsed.sample_rate
                    ||| parsed.channel_layout is Mono && entry.channel_count != 1
                    ||| parsed.channel_layout is Stereo && entry.channel_count != 2
                },
            },
            Err(_) => entry_config(entry) is Err,
        },
{
    if let Ok(parsed) = specific_config(entry.audio_specific_config) {
        assert(parsed.channel_layout is Mono || parsed.channel_layout is Stereo);
    }
}

} // verus!
