//! AAC sample entries.

use std::sync::Arc;

use vstd::prelude::*;
use vstd::slice::slice_subrange;

use super::boxes::{payload_cursor, payload_reader, BoxHeader, FileView, Mp4File};
use super::error::{meets_view, Mp4Error, Result};
use super::fourcc::FourCc;
use super::reader::ByteCursor;
use crate::h264::bits::{bits_value, lemma_bits_bound, BitReader};
use crate::input::MediaInput;
use crate::media::{AudioCodec, AudioDecoderConfig, ChannelLayout};
use crate::shared::share;

verus! {

pub const MP4A: u32 = 0x6d70_3461;

pub const ESDS: u32 = 0x6573_6473;

pub const MAX_CODEC_CONFIGURATION_SIZE: usize = 1_048_576;

/// The `width` bits from `position` on as a number.
pub open spec fn audio_bits(data: Seq<u8>, position: int, width: int) -> Result<u32> {
    if position + width > 8 * data.len() {
        Err(Mp4Error::InvalidData("AAC AudioSpecificConfig is truncated"))
    } else {
        Ok(bits_value(data, position, width as nat) as u32)
    }
}

/// What an AudioSpecificConfig says.
#[derive(Debug, Clone, Copy, PartialEq, Eq, Structural)]
pub struct ParsedAudioSpecificConfig {
    pub sample_rate: u32,
    pub channel_layout: ChannelLayout,
}

pub const SAMPLE_RATES: [u32; 13] = [
    96_000,
    88_200,
    64_000,
    48_000,
    44_100,
    32_000,
    24_000,
    22_050,
    16_000,
    12_000,
    11_025,
    8_000,
    7_350,
];

/// The kind of AAC and the place behind it.
pub open spec fn object_type(data: Seq<u8>) -> Result<(u32, int)> {
    match audio_bits(data, 0, 5) {
        Err(error) => Err(error),
        Ok(value) => if value == 31 {
            match audio_bits(data, 5, 6) {
                Err(error) => Err(error),
                Ok(more) => Ok(((more + 32) as u32, 11)),
            }
        } else {
            Ok((value, 5))
        },
    }
}

/// A sample rate, from the table or written out, and the place behind it.
pub open spec fn rate_at(data: Seq<u8>, position: int) -> Result<(u32, int)> {
    match audio_bits(data, position, 4) {
        Err(error) => Err(error),
        Ok(index) => if index == 15 {
            match audio_bits(data, position + 4, 24) {
                Err(error) => Err(error),
                Ok(0) => Err(Mp4Error::InvalidData("AAC sample rate is zero")),
                Ok(rate) => Ok((rate, position + 28)),
            }
        } else if index < 13 {
            Ok((SAMPLE_RATES[index as int], position + 4))
        } else {
            Err(Mp4Error::InvalidData("AAC sampling-frequency index is reserved"))
        },
    }
}

/// The channels that a number stands for.
pub open spec fn layout_at(data: Seq<u8>, position: int) -> Result<ChannelLayout> {
    match audio_bits(data, position, 4) {
        Err(error) => Err(error),
        Ok(1) => Ok(ChannelLayout::Mono),
        Ok(2) => Ok(ChannelLayout::Stereo),
        Ok(0) => Err(Mp4Error::UnsupportedFeature("AAC program-config-element channel layout")),
        Ok(_) => Err(
            Mp4Error::UnsupportedFeature("AAC channel configuration is not mono or stereo"),
        ),
    }
}

/// What an AudioSpecificConfig says, which must be of AAC-LC.
pub open spec fn specific_config(data: Seq<u8>) -> Result<ParsedAudioSpecificConfig> {
    match object_type(data) {
        Err(error) => Err(error),
        Ok((kind, position)) => if kind != 2 {
            Err(Mp4Error::UnsupportedFeature("AAC object type is not AAC-LC"))
        } else {
            match rate_at(data, position) {
                Err(error) => Err(error),
                Ok((sample_rate, position)) => match layout_at(data, position) {
                    Err(error) => Err(error),
                    Ok(channel_layout) => Ok(
                        ParsedAudioSpecificConfig { sample_rate, channel_layout },
                    ),
                },
            }
        },
    }
}

fn read_audio_bits<'a>(bits: &mut BitReader<'a>, width: u32) -> (result: Result<u32>)
    requires
        width <= 32,
    ensures
        result == audio_bits(old(bits).data(), old(bits).position(), width as int),
        final(bits).data() == old(bits).data(),
        result is Ok ==> final(bits).position() == old(bits).position() + width,
{
    match bits.read_bits(width) {
        Ok(value) => Ok(value),
        Err(_) => Err(Mp4Error::InvalidData("AAC AudioSpecificConfig is truncated")),
    }
}

fn read_audio_object_type<'a>(bits: &mut BitReader<'a>) -> (result: Result<u32>)
    requires
        old(bits).position() == 0,
    ensures
        final(bits).data() == old(bits).data(),
        match object_type(old(bits).data()) {
            Err(error) => result == Err::<u32, Mp4Error>(error),
            Ok((kind, position)) => result == Ok::<u32, Mp4Error>(kind)
                && final(bits).position() == position,
        },
{
    let value: u32 = read_audio_bits(bits, 5)?;
    if value == 31 {
        proof {
            lemma_bits_bound(bits.data(), 5, 6);
            vstd::arithmetic::power2::lemma2_to64();
        }
        let more: u32 = read_audio_bits(bits, 6)?;
        Ok(more + 32)
    } else {
        Ok(value)
    }
}

fn read_sample_rate<'a>(bits: &mut BitReader<'a>) -> (result: Result<u32>)
    ensures
        final(bits).data() == old(bits).data(),
        match rate_at(old(bits).data(), old(bits).position()) {
            Err(error) => result == Err::<u32, Mp4Error>(error),
            Ok((rate, position)) => result == Ok::<u32, Mp4Error>(rate) && final(bits).position()
                == position && rate != 0,
        },
{
    let index: u32 = read_audio_bits(bits, 4)?;
    if index == 15 {
        let rate: u32 = read_audio_bits(bits, 24)?;
        if rate == 0 {
            return Err(Mp4Error::InvalidData("AAC sample rate is zero"));
        }
        Ok(rate)
    } else if index < 13 {
        Ok(SAMPLE_RATES[index as usize])
    } else {
        Err(Mp4Error::InvalidData("AAC sampling-frequency index is reserved"))
    }
}

/// Reads an AudioSpecificConfig of AAC-LC.
pub fn parse_audio_specific_config(data: &[u8]) -> (result: Result<ParsedAudioSpecificConfig>)
    ensures
        result == specific_config(data@),
        result matches Ok(config) ==> config.sample_rate != 0,
{
    let mut bits = BitReader::new(data);
    let kind: u32 = read_audio_object_type(&mut bits)?;
    if kind != 2 {
        return Err(Mp4Error::UnsupportedFeature("AAC object type is not AAC-LC"));
    }
    let sample_rate: u32 = read_sample_rate(&mut bits)?;
    let channels: u32 = read_audio_bits(&mut bits, 4)?;
    let channel_layout = if channels == 1 {
        ChannelLayout::Mono
    } else if channels == 2 {
        ChannelLayout::Stereo
    } else if channels == 0 {
        return Err(Mp4Error::UnsupportedFeature("AAC program-config-element channel layout"));
    } else {
        return Err(
            Mp4Error::UnsupportedFeature("AAC channel configuration is not mono or stereo"),
        );
    };
    Ok(ParsedAudioSpecificConfig { sample_rate, channel_layout })
}

/// A descriptor: its tag, and where its body starts and ends.
pub struct DescriptorView {
    pub tag: u8,
    pub start: int,
    pub end: int,
}

/// The length of a descriptor, seven bits to a byte, and where it ends. `count`
/// of its bytes have been read and say `length`.
pub open spec fn descriptor_length(data: Seq<u8>, position: int, count: int, length: int) -> Result<
    (int, int),
>
    decreases 4 - count,
{
    if count >= 4 {
        Err(Mp4Error::InvalidData("esds descriptor length exceeds four bytes"))
    } else if position >= data.len() {
        Err(Mp4Error::InvalidData("esds descriptor length is truncated"))
    } else {
        let longer = length * 128 + data[position] % 128;
        if data[position] < 128 {
            Ok((longer, position + 1))
        } else {
            descriptor_length(data, position + 1, count + 1, longer)
        }
    }
}

/// The descriptor at `position`.
pub open spec fn descriptor_at(data: Seq<u8>, position: int) -> Result<DescriptorView> {
    if position >= data.len() {
        Err(Mp4Error::InvalidData("esds descriptor is truncated"))
    } else {
        match descriptor_length(data, position + 1, 0, 0) {
            Err(error) => Err(error),
            Ok((length, start)) => if start + length > data.len() {
                Err(Mp4Error::InvalidData("esds descriptor body is truncated"))
            } else {
                Ok(DescriptorView { tag: data[position], start, end: start + length })
            },
        }
    }
}

/// The first descriptor with a tag from `position` on.
pub open spec fn descriptor_with(data: Seq<u8>, position: int, tag: u8) -> Result<
    Option<DescriptorView>,
>
    decreases data.len() - position,
{
    if position >= data.len() {
        Ok(None)
    } else {
        match descriptor_at(data, position) {
            Err(error) => Err(error),
            Ok(descriptor) => if descriptor.tag == tag {
                Ok(Some(descriptor))
            } else {
                proof {
                    lemma_descriptor_length(data, position + 1, 0, 0);
                }
                descriptor_with(data, descriptor.end, tag)
            },
        }
    }
}

/// Where the descriptors inside an ES descriptor start: behind its number, its
/// flags and what they announce.
pub open spec fn es_header_end(body: Seq<u8>) -> Result<int> {
    let flags = body[2];
    let position = if flags / 128 % 2 == 1 {
        5
    } else {
        3int
    };
    let behind_url = if flags / 64 % 2 == 1 {
        position + 1 + body[position]
    } else {
        position
    };
    let end = if flags / 32 % 2 == 1 {
        behind_url + 2
    } else {
        behind_url
    };
    if body.len() < 3 {
        Err(Mp4Error::InvalidData("esds ES descriptor is truncated"))
    } else if flags / 64 % 2 == 1 && position >= body.len() {
        Err(Mp4Error::InvalidData("esds URL descriptor is truncated"))
    } else if end > body.len() {
        Err(Mp4Error::InvalidData("esds ES descriptor flags exceed its body"))
    } else {
        Ok(end)
    }
}

/// The AudioSpecificConfig of a decoder configuration.
pub open spec fn decoder_specific(body: Seq<u8>) -> Result<Seq<u8>> {
    if body.len() < 13 {
        Err(Mp4Error::InvalidData("esds DecoderConfigDescriptor is truncated"))
    } else if body[0] != 0x40 {
        Err(Mp4Error::UnsupportedFeature("esds object type is not MPEG-4 Audio"))
    } else if body[1] / 4 != 5 || body[1] % 2 == 0 {
        Err(Mp4Error::InvalidData("esds decoder configuration is not an audio stream"))
    } else {
        match descriptor_with(body, 13, 0x05) {
            Err(error) => Err(error),
            Ok(None) => Err(Mp4Error::InvalidData("esds has no DecoderSpecificInfo")),
            Ok(Some(info)) => if info.start == info.end {
                Err(Mp4Error::InvalidData("esds DecoderSpecificInfo is empty"))
            } else {
                Ok(body.subrange(info.start, info.end))
            },
        }
    }
}

/// The AudioSpecificConfig of an ES descriptor's body.
pub open spec fn es_config(body: Seq<u8>) -> Result<Seq<u8>> {
    match es_header_end(body) {
        Err(error) => Err(error),
        Ok(position) => match descriptor_with(body, position, 0x04) {
            Err(error) => Err(error),
            Ok(None) => Err(Mp4Error::InvalidData("esds has no DecoderConfigDescriptor")),
            Ok(Some(config)) => decoder_specific(body.subrange(config.start, config.end)),
        },
    }
}

/// The AudioSpecificConfig of one complete ES descriptor.
pub open spec fn esds_config(data: Seq<u8>) -> Result<Seq<u8>> {
    match descriptor_at(data, 0) {
        Err(error) => Err(error),
        Ok(root) => if root.tag != 0x03 || root.end != data.len() {
            Err(Mp4Error::InvalidData("esds does not contain one complete ES descriptor"))
        } else {
            es_config(data.subrange(root.start, root.end))
        },
    }
}

/// The bytes of an esds box behind its version and flags.
pub open spec fn esds_syntax(cursor: ByteCursor) -> (Seq<u8>, ByteCursor) {
    let ((version, flags), cursor) = cursor.full_box();
    let cursor = cursor.require(
        version == 0 && flags == 0,
        Mp4Error::InvalidData("unsupported esds version or flags"),
    );
    cursor.vector(cursor.remaining(), MAX_CODEC_CONFIGURATION_SIZE as int)
}

/// The AudioSpecificConfig of an esds box.
pub open spec fn esds_of(file: FileView, header: BoxHeader) -> Result<Seq<u8>> {
    let (data, cursor) = esds_syntax(payload_cursor(file, header));
    match cursor.error {
        Some(error) => Err(error),
        None => esds_config(data),
    }
}

/// A descriptor: its tag, and where its body starts and ends.
#[derive(Clone, Copy)]
struct Descriptor {
    tag: u8,
    start: usize,
    end: usize,
}

impl View for Descriptor {
    type V = DescriptorView;

    closed spec fn view(&self) -> DescriptorView {
        DescriptorView { tag: self.tag, start: self.start as int, end: self.end as int }
    }
}

/// Two results are alike, but for the view of the value.
spec fn agrees<T: View>(result: Result<T>, expected: Result<T::V>) -> bool {
    match (result, expected) {
        (Ok(value), Ok(wanted)) => value@ == wanted,
        (Err(error), Err(wanted)) => error == wanted,
        _ => false,
    }
}

/// A descriptor ends behind where it starts.
pub proof fn lemma_descriptor_length(data: Seq<u8>, position: int, count: int, length: int)
    requires
        count >= 0,
        length >= 0,
    ensures
        descriptor_length(data, position, count, length) matches Ok((found, start)) ==> found >= 0
            && start > position && start <= data.len(),
    decreases 4 - count,
{
    if count < 4 && position < data.len() {
        lemma_descriptor_length(
            data,
            position + 1,
            count + 1,
            length * 128 + data[position] % 128,
        );
    }
}

impl Descriptor {
    fn parse_at(data: &[u8], position: usize) -> (result: Result<Self>)
        requires
            data@.len() <= MAX_CODEC_CONFIGURATION_SIZE,
        ensures
            agrees(result, descriptor_at(data@, position as int)),
            result matches Ok(descriptor) ==> position < descriptor.start <= descriptor.end
                <= data@.len(),
    {
        if position >= data.len() {
            return Err(Mp4Error::InvalidData("esds descriptor is truncated"));
        }
        let ghost whole = descriptor_length(data@, position + 1, 0, 0);
        let mut start: usize = position + 1;
        let mut length: usize = 0;
        let mut count: usize = 0;
        let mut terminated: bool = false;
        while count < 4 && !terminated
            invariant
                count <= 4,
                data@.len() <= MAX_CODEC_CONFIGURATION_SIZE,
                position < start <= data@.len(),
                whole == descriptor_length(data@, position + 1, 0, 0),
                !terminated ==> whole == descriptor_length(
                    data@,
                    start as int,
                    count as int,
                    length as int,
                ),
                terminated ==> whole == Ok::<(int, int), Mp4Error>((length as int, start as int)),
                count == 0 ==> length == 0,
                count == 1 ==> length < 0x80,
                count == 2 ==> length < 0x4000,
                count == 3 ==> length < 0x20_0000,
                count == 4 ==> length < 0x1000_0000,
                descriptor_at(data@, position as int) == (match whole {
                    Err(error) => Err(error),
                    Ok((length, start)) => if start + length > data@.len() {
                        Err(Mp4Error::InvalidData("esds descriptor body is truncated"))
                    } else {
                        Ok(
                            DescriptorView {
                                tag: data@[position as int],
                                start,
                                end: start + length,
                            },
                        )
                    },
                }),
            decreases 4 - count,
        {
            proof {
                reveal_with_fuel(descriptor_length, 2);
            }
            if start >= data.len() {
                return Err(Mp4Error::InvalidData("esds descriptor length is truncated"));
            }
            let byte: u8 = data[start];
            start = start + 1;
            length = length * 128 + (byte % 128) as usize;
            count = count + 1;
            terminated = byte < 128;
        }
        if !terminated {
            return Err(Mp4Error::InvalidData("esds descriptor length exceeds four bytes"));
        }
        let end: usize = start + length;
        if end > data.len() {
            return Err(Mp4Error::InvalidData("esds descriptor body is truncated"));
        }
        Ok(Descriptor { tag: data[position], start, end })
    }
}

fn find_descriptor(data: &[u8], position: usize, wanted_tag: u8) -> (result: Result<
    Option<Descriptor>,
>)
    requires
        data@.len() <= MAX_CODEC_CONFIGURATION_SIZE,
    ensures
        match (result, descriptor_with(data@, position as int, wanted_tag)) {
            (Ok(None), Ok(None)) => true,
            (Ok(Some(found)), Ok(Some(wanted))) => found@ == wanted && found.start <= found.end
                <= data@.len(),
            (Err(error), Err(wanted)) => error == wanted,
            _ => false,
        },
{
    let ghost whole = descriptor_with(data@, position as int, wanted_tag);
    let mut place: usize = position;
    while place < data.len()
        invariant
            data@.len() <= MAX_CODEC_CONFIGURATION_SIZE,
            whole == descriptor_with(data@, position as int, wanted_tag),
            whole == descriptor_with(data@, place as int, wanted_tag),
        decreases data@.len() - place,
    {
        proof {
            reveal_with_fuel(descriptor_with, 2);
        }
        let descriptor = Descriptor::parse_at(data, place)?;
        if descriptor.tag == wanted_tag {
            return Ok(Some(descriptor));
        }
        place = descriptor.end;
    }
    Ok(None)
}

fn skip_es_descriptor_header(body: &[u8]) -> (result: Result<usize>)
    requires
        body@.len() <= MAX_CODEC_CONFIGURATION_SIZE,
    ensures
        match (result, es_header_end(body@)) {
            (Ok(position), Ok(wanted)) => position == wanted,
            (Err(error), Err(wanted)) => error == wanted,
            _ => false,
        },
{
    if body.len() < 3 {
        return Err(Mp4Error::InvalidData("esds ES descriptor is truncated"));
    }
    let flags: u8 = body[2];
    let mut position: usize = 3;
    if flags / 128 % 2 == 1 {
        position = position + 2;
    }
    if flags / 64 % 2 == 1 {
        if position >= body.len() {
            return Err(Mp4Error::InvalidData("esds URL descriptor is truncated"));
        }
        position = position + 1 + body[position] as usize;
    }
    if flags / 32 % 2 == 1 {
        position = position + 2;
    }
    if position > body.len() {
        return Err(Mp4Error::InvalidData("esds ES descriptor flags exceed its body"));
    }
    Ok(position)
}

fn bytes_of(data: &[u8]) -> (bytes: Vec<u8>)
    ensures
        bytes@ == data@,
{
    let mut bytes: Vec<u8> = Vec::with_capacity(data.len());
    let mut index: usize = 0;
    while index < data.len()
        invariant
            index <= data@.len(),
            bytes@ == data@.take(index as int),
        decreases data@.len() - index,
    {
        bytes.push(data[index]);
        index = index + 1;
        assert(bytes@ =~= data@.take(index as int));
    }
    assert(bytes@ =~= data@);
    bytes
}

fn parse_decoder_config(body: &[u8]) -> (result: Result<Vec<u8>>)
    requires
        body@.len() <= MAX_CODEC_CONFIGURATION_SIZE,
    ensures
        agrees(result, decoder_specific(body@)),
{
    if body.len() < 13 {
        return Err(Mp4Error::InvalidData("esds DecoderConfigDescriptor is truncated"));
    }
    if body[0] != 0x40 {
        return Err(Mp4Error::UnsupportedFeature("esds object type is not MPEG-4 Audio"));
    }
    let stream_type: u8 = body[1];
    if stream_type / 4 != 5 || stream_type % 2 == 0 {
        return Err(Mp4Error::InvalidData("esds decoder configuration is not an audio stream"));
    }
    let info = match find_descriptor(body, 13, 0x05)? {
        Some(info) => info,
        None => return Err(Mp4Error::InvalidData("esds has no DecoderSpecificInfo")),
    };
    if info.start == info.end {
        return Err(Mp4Error::InvalidData("esds DecoderSpecificInfo is empty"));
    }
    Ok(bytes_of(slice_subrange(body, info.start, info.end)))
}

fn parse_es_descriptor(data: &[u8]) -> (result: Result<Vec<u8>>)
    requires
        data@.len() <= MAX_CODEC_CONFIGURATION_SIZE,
    ensures
        agrees(result, esds_config(data@)),
{
    let root = Descriptor::parse_at(data, 0)?;
    if root.tag != 0x03 || root.end != data.len() {
        return Err(Mp4Error::InvalidData("esds does not contain one complete ES descriptor"));
    }
    let body = slice_subrange(data, root.start, root.end);
    let position: usize = skip_es_descriptor_header(body)?;
    let config = match find_descriptor(body, position, 0x04)? {
        Some(config) => config,
        None => return Err(Mp4Error::InvalidData("esds has no DecoderConfigDescriptor")),
    };
    parse_decoder_config(slice_subrange(body, config.start, config.end))
}

/// Reads the AudioSpecificConfig of an esds box.
pub fn parse_esds<'input, I: MediaInput>(file: &Mp4File<'input, I>, header: BoxHeader) -> (result:
    Result<Vec<u8>>)
    ensures
        meets_view(result, esds_of(file@, header), file@.dependable),
{
    let mut reader = payload_reader(file, header)?;
    let (version, flags) = reader.read_full_box()?;
    if version != 0 || flags != 0 {
        return Err(Mp4Error::InvalidData("unsupported esds version or flags"));
    }
    let remaining: u64 = reader.remaining();
    let data = reader.read_vec(remaining, MAX_CODEC_CONFIGURATION_SIZE)?;
    parse_es_descriptor(data.as_slice())
}

/// An AAC sample entry as mathematics.
pub struct AacEntryView {
    pub format: FourCc,
    pub data_reference_index: u16,
    pub channel_count: u16,
    pub sample_size: u16,
    pub sample_rate: u32,
    pub audio_specific_config: Seq<u8>,
}

/// Why an entry gives no decoder configuration: what it says of the audio
/// differs from what its AudioSpecificConfig says.
pub open spec fn entry_config(entry: AacEntryView) -> Result<ParsedAudioSpecificConfig> {
    match specific_config(entry.audio_specific_config) {
        Err(error) => Err(error),
        Ok(parsed) => if parsed.sample_rate != entry.sample_rate {
            Err(
                Mp4Error::InvalidData(
                    "AAC sample rate differs between mp4a and AudioSpecificConfig",
                ),
            )
        } else if parsed.channel_layout.channel_count() != entry.channel_count {
            Err(
                Mp4Error::InvalidData(
                    "AAC channel count differs between mp4a and AudioSpecificConfig",
                ),
            )
        } else {
            Ok(parsed)
        },
    }
}

/// The description of AAC samples.
#[derive(Debug, PartialEq, Eq)]
pub struct AacSampleEntry {
    pub(crate) format: FourCc,
    pub(crate) data_reference_index: u16,
    pub(crate) channel_count: u16,
    pub(crate) sample_size: u16,
    pub(crate) sample_rate: u32,
    pub(crate) audio_specific_config: Arc<Vec<u8>>,
}

impl View for AacSampleEntry {
    type V = AacEntryView;

    closed spec fn view(&self) -> AacEntryView {
        AacEntryView {
            format: self.format,
            data_reference_index: self.data_reference_index,
            channel_count: self.channel_count,
            sample_size: self.sample_size,
            sample_rate: self.sample_rate,
            audio_specific_config: self.audio_specific_config@,
        }
    }
}

impl Clone for AacSampleEntry {
    fn clone(&self) -> (copy: Self)
        ensures
            copy@ == self@,
    {
        AacSampleEntry {
            format: self.format,
            data_reference_index: self.data_reference_index,
            channel_count: self.channel_count,
            sample_size: self.sample_size,
            sample_rate: self.sample_rate,
            audio_specific_config: share(&self.audio_specific_config),
        }
    }
}

impl AacSampleEntry {
    pub fn new(
        format: FourCc,
        data_reference_index: u16,
        channel_count: u16,
        sample_size: u16,
        sample_rate: u32,
        audio_specific_config: Vec<u8>,
    ) -> (entry: Self)
        ensures
            entry@ == (AacEntryView {
                format,
                data_reference_index,
                channel_count,
                sample_size,
                sample_rate,
                audio_specific_config: audio_specific_config@,
            }),
    {
        AacSampleEntry {
            format,
            data_reference_index,
            channel_count,
            sample_size,
            sample_rate,
            audio_specific_config: Arc::new(audio_specific_config),
        }
    }

    #[inline]
    pub fn format(&self) -> (format: FourCc)
        ensures
            format == self@.format,
    {
        self.format
    }

    #[inline]
    pub fn data_reference_index(&self) -> (index: u16)
        ensures
            index == self@.data_reference_index,
    {
        self.data_reference_index
    }

    #[inline]
    pub fn channel_count(&self) -> (count: u16)
        ensures
            count == self@.channel_count,
    {
        self.channel_count
    }

    #[inline]
    pub fn sample_size(&self) -> (size: u16)
        ensures
            size == self@.sample_size,
    {
        self.sample_size
    }

    #[inline]
    pub fn sample_rate(&self) -> (rate: u32)
        ensures
            rate == self@.sample_rate,
    {
        self.sample_rate
    }

    #[inline]
    pub fn audio_specific_config(&self) -> (config: &Arc<Vec<u8>>)
        ensures
            config@ == self@.audio_specific_config,
    {
        &self.audio_specific_config
    }

    pub fn decoder_config(&self) -> (result: Result<AudioDecoderConfig>)
        ensures
            match entry_config(self@) {
                Err(error) => result == Err::<AudioDecoderConfig, Mp4Error>(error),
                Ok(parsed) => result matches Ok(config) && config.codec == AudioCodec::Aac
                    && config.sample_rate == parsed.sample_rate && config.channel_layout
                    == parsed.channel_layout && (config.codec_data matches Some(data) && data@
                    == self@.audio_specific_config),
            },
    {
        let parsed = parse_audio_specific_config(self.audio_specific_config.as_slice())?;
        if parsed.sample_rate != self.sample_rate {
            return Err(
                Mp4Error::InvalidData(
                    "AAC sample rate differs between mp4a and AudioSpecificConfig",
                ),
            );
        }
        if parsed.channel_layout.channels() != self.channel_count {
            return Err(
                Mp4Error::InvalidData(
                    "AAC channel count differs between mp4a and AudioSpecificConfig",
                ),
            );
        }
        let config = AudioDecoderConfig::new(
            AudioCodec::Aac,
            parsed.sample_rate,
            parsed.channel_layout,
        ).with_codec_data(share(&self.audio_specific_config));
        match config.validate() {
            Ok(()) => Ok(config),
            Err(_) => Err(Mp4Error::InvalidData("invalid AAC decoder configuration")),
        }
    }
}

} // verus!
