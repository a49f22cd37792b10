//! Sample descriptions.

use std::sync::Arc;

use vstd::prelude::*;

use super::audio::{
    entry_config, esds_of, parse_esds, AacEntryView, AacSampleEntry, ESDS,
    MAX_CODEC_CONFIGURATION_SIZE, MP4A,
};
use super::boxes::{
    boxes_from, lists, payload_cursor, payload_reader, range_in, BoxHeader, FileView, Listing,
    Mp4File,
};
use super::error::{meets_as, meets_view, Mp4Error, Result};
use super::fourcc::FourCc;
use super::reader::{reads, BoundedReader, ByteCursor};
use crate::input::MediaInput;
use crate::media::{BitstreamFormat, VideoCodec, VideoDecoderConfig};
use crate::shared::share;

verus! {

pub const AVC1: u32 = 0x6176_6331;

pub const AVC3: u32 = 0x6176_6333;

pub const AVCC: u32 = 0x6176_6343;

pub const VISUAL_SAMPLE_ENTRY_FIELDS_SIZE: u64 = 78;

pub const AUDIO_SAMPLE_ENTRY_FIELDS_SIZE: u64 = 28;

pub const MAX_SAMPLE_DESCRIPTION_COUNT: usize = 1024;

/// An AVC sample entry as mathematics.
pub struct AvcEntryView {
    pub format: FourCc,
    pub data_reference_index: u16,
    pub width: u16,
    pub height: u16,
    pub codec_configuration: Seq<u8>,
}

/// A sample description as mathematics.
pub enum DescriptionView {
    Avc(AvcEntryView),
    Aac(AacEntryView),
    Unsupported { format: FourCc },
}

/// What a sample entry describes.
#[derive(Debug, Clone, Copy)]
pub enum EntryKind {
    Video,
    Audio,
}

/// How many bytes the lengths of a codec configuration take.
pub open spec fn avc_length_size(data: Seq<u8>) -> Result<u8> {
    if data.len() < 6 || data[0] != 1 {
        Err(Mp4Error::InvalidData("invalid AVCDecoderConfigurationRecord header"))
    } else if data[4] < 0xfc || data[5] < 0xe0 {
        Err(Mp4Error::InvalidData("avcC reserved bits do not have their required values"))
    } else {
        Ok((data[4] % 4 + 1) as u8)
    }
}

/// The description of AVC samples.
#[derive(Debug, PartialEq, Eq)]
pub struct AvcSampleEntry {
    format: FourCc,
    data_reference_index: u16,
    width: u16,
    height: u16,
    codec_configuration: Arc<Vec<u8>>,
}

impl View for AvcSampleEntry {
    type V = AvcEntryView;

    closed spec fn view(&self) -> AvcEntryView {
        AvcEntryView {
            format: self.format,
            data_reference_index: self.data_reference_index,
            width: self.width,
            height: self.height,
            codec_configuration: self.codec_configuration@,
        }
    }
}

impl Clone for AvcSampleEntry {
    fn clone(&self) -> (copy: Self)
        ensures
            copy@ == self@,
    {
        AvcSampleEntry {
            format: self.format,
            data_reference_index: self.data_reference_index,
            width: self.width,
            height: self.height,
            codec_configuration: share(&self.codec_configuration),
        }
    }
}

impl AvcSampleEntry {
    pub fn new(
        format: FourCc,
        data_reference_index: u16,
        width: u16,
        height: u16,
        codec_configuration: Vec<u8>,
    ) -> (entry: Self)
        ensures
            entry@ == (AvcEntryView {
                format,
                data_reference_index,
                width,
                height,
                codec_configuration: codec_configuration@,
            }),
    {
        AvcSampleEntry {
            format,
            data_reference_index,
            width,
            height,
            codec_configuration: Arc::new(codec_configuration),
        }
    }

    #[inline]
    pub fn format(&self) -> (format: FourCc)
        ensures
            format == self@.format,
    {
        self.format
    }

    #[inline]
    pub fn data_reference_index(&self) -> (index: u16)
        ensures
            index == self@.data_reference_index,
    {
        self.data_reference_index
    }

    #[inline]
    pub fn width(&self) -> (width: u16)
        ensures
            width == self@.width,
    {
        self.width
    }

    #[inline]
    pub fn height(&self) -> (height: u16)
        ensures
            height == self@.height,
    {
        self.height
    }

    #[inline]
    pub fn codec_configuration(&self) -> (configuration: &Arc<Vec<u8>>)
        ensures
            configuration@ == self@.codec_configuration,
    {
        &self.codec_configuration
    }

    pub fn decoder_config(&self) -> (result: Result<VideoDecoderConfig>)
        ensures
            match avc_length_size(self@.codec_configuration) {
                Err(error) => result == Err::<VideoDecoderConfig, Mp4Error>(error),
                Ok(length_size) => result matches Ok(config) && config.codec == VideoCodec::H264
                    && config.bitstream_format == (BitstreamFormat::LengthPrefixed { length_size })
                    && (config.codec_data matches Some(data) && data@
                    == self@.codec_configuration),
            },
    {
        let data = self.codec_configuration.as_slice();
        if data.len() < 6 || data[0] != 1 {
            return Err(Mp4Error::InvalidData("invalid AVCDecoderConfigurationRecord header"));
        }
        if data[4] < 0xfc || data[5] < 0xe0 {
            return Err(
                Mp4Error::InvalidData("avcC reserved bits do not have their required values"),
            );
        }
        Ok(
            VideoDecoderConfig::new(
                VideoCodec::H264,
                BitstreamFormat::LengthPrefixed { length_size: data[4] % 4 + 1 },
            ).with_codec_data(share(&self.codec_configuration)),
        )
    }
}

/// How samples of a track are to be read.
#[derive(Debug, PartialEq, Eq)]
#[non_exhaustive]
pub enum SampleDescription {
    Avc(AvcSampleEntry),
    Aac(AacSampleEntry),
    Unsupported { format: FourCc },
}

impl View for SampleDescription {
    type V = DescriptionView;

    open spec fn view(&self) -> DescriptionView {
        match self {
            SampleDescription::Avc(entry) => DescriptionView::Avc(entry@),
            SampleDescription::Aac(entry) => DescriptionView::Aac(entry@),
            SampleDescription::Unsupported { format } => DescriptionView::Unsupported {
                format: *format,
            },
        }
    }
}

impl DescriptionView {
    /// The format of the samples.
    pub open spec fn format(self) -> FourCc {
        match self {
            DescriptionView::Avc(entry) => entry.format,
            DescriptionView::Aac(entry) => entry.format,
            DescriptionView::Unsupported { format } => format,
        }
    }
}

impl Clone for SampleDescription {
    fn clone(&self) -> (copy: Self)
        ensures
            copy@ == self@,
    {
        match self {
            SampleDescription::Avc(entry) => SampleDescription::Avc(entry.clone()),
            SampleDescription::Aac(entry) => SampleDescription::Aac(entry.clone()),
            SampleDescription::Unsupported { format } => SampleDescription::Unsupported {
                format: *format,
            },
        }
    }
}

impl SampleDescription {
    pub fn format(&self) -> (format: FourCc)
        ensures
            format == self@.format(),
    {
        match self {
            SampleDescription::Avc(entry) => entry.format(),
            SampleDescription::Aac(entry) => entry.format(),
            SampleDescription::Unsupported { format } => *format,
        }
    }
}

/// Descriptions as mathematics.
pub open spec fn description_views(descriptions: Seq<SampleDescription>) -> Seq<DescriptionView> {
    descriptions.map_values(|description: SampleDescription| description@)
}

/// The codec configuration of an avcC box.
pub open spec fn avcc_of(file: FileView, header: BoxHeader) -> Result<Seq<u8>> {
    let start = payload_cursor(file, header);
    let (data, cursor) = start.vector(start.remaining(), MAX_CODEC_CONFIGURATION_SIZE as int);
    cursor.outcome(data)
}

/// The codec configuration of an avcC or an esds box.
pub open spec fn configuration_of(file: FileView, header: BoxHeader, code: u32) -> Result<Seq<u8>> {
    if code == ESDS {
        esds_of(file, header)
    } else {
        avcc_of(file, header)
    }
}

/// The codec configuration among some boxes, and the error that was met.
pub struct ConfigurationScan {
    pub found: Option<Seq<u8>>,
    pub error: Option<Mp4Error>,
}

/// The codec configuration among the first `count` boxes.
pub open spec fn configuration_scan(
    file: FileView,
    boxes: Seq<BoxHeader>,
    code: u32,
    duplicate: &'static str,
    count: int,
) -> ConfigurationScan
    decreases count,
{
    if count <= 0 {
        ConfigurationScan { found: None, error: None }
    } else {
        let before = configuration_scan(file, boxes, code, duplicate, count - 1);
        if before.error is Some || boxes[count - 1].kind.code != code {
            before
        } else if before.found is Some {
            ConfigurationScan { error: Some(Mp4Error::InvalidData(duplicate)), ..before }
        } else {
            match configuration_of(file, boxes[count - 1], code) {
                Err(error) => ConfigurationScan { error: Some(error), ..before },
                Ok(data) => ConfigurationScan { found: Some(data), error: None },
            }
        }
    }
}

/// The one codec configuration in a range of boxes.
pub open spec fn configuration_in(
    file: FileView,
    start: int,
    end: int,
    code: u32,
    duplicate: &'static str,
    missing: &'static str,
) -> Result<Seq<u8>> {
    match range_in(file, start, end) {
        Err(error) => Err(error),
        Ok(_) => {
            let listing = boxes_from(file.content, start, end);
            let scan = configuration_scan(
                file,
                listing.boxes,
                code,
                duplicate,
                listing.boxes.len() as int,
            );
            match (scan.error, listing.error, scan.found) {
                (Some(error), _, _) => Err(error),
                (None, Some(error), _) => Err(error),
                (None, None, None) => Err(Mp4Error::InvalidData(missing)),
                (None, None, Some(data)) => Ok(data),
            }
        },
    }
}

/// The fields of a visual sample entry.
pub open spec fn visual_fields(cursor: ByteCursor) -> ((u16, u16, u16), ByteCursor) {
    let (data_reference_index, cursor) = cursor.skip(6).u16();
    let (width, cursor) = cursor.skip(16).u16();
    let (height, cursor) = cursor.u16();
    ((data_reference_index, width, height), cursor.skip(50))
}

/// What a visual sample entry describes.
pub open spec fn video_entry_of(file: FileView, entry: BoxHeader) -> Result<DescriptionView> {
    if entry.kind.code != AVC1 && entry.kind.code != AVC3 {
        Ok(DescriptionView::Unsupported { format: entry.kind })
    } else if entry.size - entry.header_size < VISUAL_SAMPLE_ENTRY_FIELDS_SIZE {
        Err(Mp4Error::InvalidData("visual sample entry is truncated"))
    } else {
        let ((data_reference_index, width, height), cursor) = visual_fields(
            payload_cursor(file, entry),
        );
        match cursor.error {
            Some(error) => Err(error),
            None => match configuration_in(
                file,
                cursor.position,
                cursor.end,
                AVCC,
                "AVC sample entry has multiple avcC boxes",
                "AVC sample entry is missing avcC",
            ) {
                Err(error) => Err(error),
                Ok(codec_configuration) => Ok(
                    DescriptionView::Avc(
                        AvcEntryView {
                            format: entry.kind,
                            data_reference_index,
                            width,
                            height,
                            codec_configuration,
                        },
                    ),
                ),
            },
        }
    }
}

/// The fields of an audio sample entry.
pub struct AudioFields {
    pub data_reference_index: u16,
    pub channel_count: u16,
    pub sample_size: u16,
    pub sample_rate: u32,
}

/// The fields of an audio sample entry.
pub open spec fn audio_fields(cursor: ByteCursor) -> (AudioFields, ByteCursor) {
    let (data_reference_index, cursor) = cursor.skip(6).u16();
    let (version, cursor) = cursor.u16();
    let (channel_count, cursor) = cursor.skip(2).skip(4).u16();
    let (sample_size, cursor) = cursor.u16();
    let (rate, cursor) = cursor.skip(4).u32();
    (
        AudioFields {
            data_reference_index,
            channel_count,
            sample_size,
            sample_rate: (rate / 0x1_0000) as u32,
        },
        cursor.require(
            version == 0,
            Mp4Error::UnsupportedFeature("versioned mp4a sample entries"),
        ).require(
            channel_count != 0,
            Mp4Error::InvalidData("mp4a channel count is zero"),
        ).require(
            rate % 0x1_0000 == 0,
            Mp4Error::UnsupportedFeature("fractional mp4a sample rates"),
        ).require(rate / 0x1_0000 != 0, Mp4Error::InvalidData("mp4a sample rate is zero")),
    )
}

/// What an audio sample entry describes.
pub open spec fn audio_entry_of(file: FileView, entry: BoxHeader) -> Result<DescriptionView> {
    if entry.kind.code != MP4A {
        Ok(DescriptionView::Unsupported { format: entry.kind })
    } else {
        match aac_entry_of(file, entry) {
            Err(error) => Err(error),
            Ok(view) => Ok(DescriptionView::Aac(view)),
        }
    }
}

/// What an AAC sample entry describes, which must agree with its codec
/// configuration.
pub open spec fn aac_entry_of(file: FileView, entry: BoxHeader) -> Result<AacEntryView> {
    if entry.size - entry.header_size < AUDIO_SAMPLE_ENTRY_FIELDS_SIZE {
        Err(Mp4Error::InvalidData("audio sample entry is truncated"))
    } else {
        let (fields, cursor) = audio_fields(payload_cursor(file, entry));
        match cursor.error {
            Some(error) => Err(error),
            None => match configuration_in(
                file,
                cursor.position,
                cursor.end,
                ESDS,
                "mp4a sample entry has multiple esds boxes",
                "mp4a sample entry is missing esds",
            ) {
                Err(error) => Err(error),
                Ok(audio_specific_config) => {
                    let view = AacEntryView {
                        format: entry.kind,
                        data_reference_index: fields.data_reference_index,
                        channel_count: fields.channel_count,
                        sample_size: fields.sample_size,
                        sample_rate: fields.sample_rate,
                        audio_specific_config,
                    };
                    match entry_config(view) {
                        Err(error) => Err(error),
                        Ok(_) => Ok(view),
                    }
                },
            },
        }
    }
}

/// What a sample entry describes.
pub open spec fn entry_of(file: FileView, entry: BoxHeader, kind: EntryKind) -> Result<
    DescriptionView,
> {
    match kind {
        EntryKind::Video => video_entry_of(file, entry),
        EntryKind::Audio => audio_entry_of(file, entry),
    }
}

/// What the first `count` of the listed entries describe.
pub open spec fn described(
    file: FileView,
    listing: Listing,
    kind: EntryKind,
    count: int,
) -> Result<Seq<DescriptionView>>
    decreases count,
{
    if count <= 0 {
        Ok(Seq::empty())
    } else {
        match described(file, listing, kind, count - 1) {
            Err(error) => Err(error),
            Ok(done) => if count - 1 < listing.boxes.len() {
                match entry_of(file, listing.boxes[count - 1], kind) {
                    Err(error) => Err(error),
                    Ok(description) => Ok(done.push(description)),
                }
            } else if let Some(error) = listing.error {
                Err(error)
            } else {
                Err(Mp4Error::InvalidData("stsd has fewer entries than declared"))
            },
        }
    }
}

/// The number of sample descriptions.
pub open spec fn description_count(cursor: ByteCursor) -> (u32, ByteCursor) {
    let ((version, _), cursor) = cursor.full_box();
    let (count, cursor) = cursor.require(
        version == 0,
        Mp4Error::InvalidData("unsupported stsd version"),
    ).u32();
    (
        count,
        cursor.require(
            count <= MAX_SAMPLE_DESCRIPTION_COUNT,
            Mp4Error::InvalidData("sample-description count exceeds its limit"),
        ),
    )
}

/// The sample descriptions of an stsd box.
pub open spec fn descriptions_of(file: FileView, header: BoxHeader, kind: EntryKind) -> Result<
    Seq<DescriptionView>,
> {
    let (count, cursor) = description_count(payload_cursor(file, header));
    match cursor.error {
        Some(error) => Err(error),
        None => match range_in(file, cursor.position, cursor.end) {
            Err(error) => Err(error),
            Ok(_) => {
                let listing = boxes_from(file.content, cursor.position, cursor.end);
                match described(file, listing, kind, count as int) {
                    Err(error) => Err(error),
                    Ok(descriptions) => if listing.boxes.len() > count || listing.error is Some {
                        Err(Mp4Error::InvalidData("stsd has more entries than declared"))
                    } else {
                        Ok(descriptions)
                    },
                }
            },
        },
    }
}

fn read_avcc<'input, I: MediaInput>(file: &Mp4File<'input, I>, header: BoxHeader) -> (result: Result<
    Vec<u8>,
>)
    ensures
        meets_view(result, avcc_of(file@, header), file@.dependable),
{
    let mut reader = payload_reader(file, header)?;
    let remaining: u64 = reader.remaining();
    reader.read_vec(remaining, MAX_CODEC_CONFIGURATION_SIZE)
}

fn read_configuration<'input, I: MediaInput>(
    file: &Mp4File<'input, I>,
    header: BoxHeader,
    code: u32,
) -> (result: Result<Vec<u8>>)
    ensures
        meets_view(result, configuration_of(file@, header, code), file@.dependable),
{
    if code == ESDS {
        parse_esds(file, header)
    } else {
        read_avcc(file, header)
    }
}

/// Only the boxes that are scanned matter.
proof fn lemma_scan_prefix(
    file: FileView,
    boxes: Seq<BoxHeader>,
    prefix: Seq<BoxHeader>,
    code: u32,
    duplicate: &'static str,
    count: int,
)
    requires
        count <= prefix.len() <= boxes.len(),
        prefix == boxes.take(prefix.len() as int),
    ensures
        configuration_scan(file, prefix, code, duplicate, count) == configuration_scan(
            file,
            boxes,
            code,
            duplicate,
            count,
        ),
    decreases count,
{
    if count > 0 {
        lemma_scan_prefix(file, boxes, prefix, code, duplicate, count - 1);
        assert(prefix[count - 1] == boxes[count - 1]);
    }
}

/// An error of the first boxes is the error of all.
proof fn lemma_scan_error(
    file: FileView,
    boxes: Seq<BoxHeader>,
    code: u32,
    duplicate: &'static str,
    part: int,
    count: int,
)
    requires
        part <= count,
        configuration_scan(file, boxes, code, duplicate, part).error is Some,
    ensures
        configuration_scan(file, boxes, code, duplicate, count).error == configuration_scan(
            file,
            boxes,
            code,
            duplicate,
            part,
        ).error,
    decreases count - part,
{
    if part < count {
        lemma_scan_error(file, boxes, code, duplicate, part, count - 1);
    }
}

/// Finds the one codec configuration in a range of boxes.
fn find_configuration<'input, I: MediaInput>(
    file: &Mp4File<'input, I>,
    start: u64,
    end: u64,
    code: u32,
    duplicate: &'static str,
    missing: &'static str,
) -> (result: Result<Vec<u8>>)
    ensures
        meets_view(
            result,
            configuration_in(file@, start as int, end as int, code, duplicate, missing),
            file@.dependable,
        ),
{
    let iter = file.boxes_in(start..end)?;
    let listing = iter.collect();
    let boxes = listing.boxes;
    let ghost whole = boxes_from(file@.content, start as int, end as int);
    let mut found: Option<Vec<u8>> = None;
    let mut index: usize = 0;
    while index < boxes.len()
        invariant
            index <= boxes@.len() <= whole.boxes.len(),
            boxes@ == whole.boxes.take(boxes@.len() as int),
            whole == boxes_from(file@.content, start as int, end as int),
            range_in(file@, start as int, end as int) is Ok,
            configuration_scan(file@, boxes@, code, duplicate, index as int) == (
            ConfigurationScan {
                found: match found {
                    Some(data) => Some(data@),
                    None => None,
                },
                error: None,
            }),
        decreases boxes@.len() - index,
    {
        proof {
            lemma_scan_prefix(file@, whole.boxes, boxes@, code, duplicate, index + 1);
            if configuration_scan(file@, boxes@, code, duplicate, index + 1).error is Some {
                lemma_scan_error(
                    file@,
                    whole.boxes,
                    code,
                    duplicate,
                    index + 1,
                    whole.boxes.len() as int,
                );
            }
        }
        if boxes[index].kind.code == code {
            if found.is_some() {
                return Err(Mp4Error::InvalidData(duplicate));
            }
            found = Some(read_configuration(file, boxes[index], code)?);
        }
        index = index + 1;
    }
    match (listing.error, found) {
        (Some(error), _) => Err(error),
        (None, Some(data)) => Ok(data),
        (None, None) => Err(Mp4Error::InvalidData(missing)),
    }
}

fn read_visual_fields<'input, I: MediaInput>(reader: &mut BoundedReader<'input, I>) -> (result:
    Result<(u16, u16, u16)>)
    requires
        old(reader).well_formed(),
    ensures
        final(reader).well_formed(),
        final(reader).dependable() == old(reader).dependable(),
        reads(result, final(reader)@, visual_fields(old(reader)@), old(reader).dependable()),
{
    reader.skip(6)?;
    let data_reference_index: u16 = reader.read_u16()?;
    reader.skip(16)?;
    let width: u16 = reader.read_u16()?;
    let height: u16 = reader.read_u16()?;
    reader.skip(50)?;
    Ok((data_reference_index, width, height))
}

/// Reads a visual sample entry.
pub fn parse_video_sample_entry<'input, I: MediaInput>(
    file: &Mp4File<'input, I>,
    entry: BoxHeader,
) -> (result: Result<SampleDescription>)
    requires
        entry.valid(),
    ensures
        meets_view(result, video_entry_of(file@, entry), file@.dependable),
{
    if entry.kind.code != AVC1 && entry.kind.code != AVC3 {
        return Ok(SampleDescription::Unsupported { format: entry.kind });
    }
    if entry.payload_size() < VISUAL_SAMPLE_ENTRY_FIELDS_SIZE {
        return Err(Mp4Error::InvalidData("visual sample entry is truncated"));
    }
    let mut reader = payload_reader(file, entry)?;
    let (data_reference_index, width, height) = read_visual_fields(&mut reader)?;
    let start: u64 = reader.position();
    let end: u64 = start + reader.remaining();
    let codec_configuration = find_configuration(
        file,
        start,
        end,
        AVCC,
        "AVC sample entry has multiple avcC boxes",
        "AVC sample entry is missing avcC",
    )?;
    Ok(
        SampleDescription::Avc(
            AvcSampleEntry::new(
                entry.kind,
                data_reference_index,
                width,
                height,
                codec_configuration,
            ),
        ),
    )
}

fn read_audio_fields<'input, I: MediaInput>(reader: &mut BoundedReader<'input, I>) -> (result: Result<
    AudioFields,
>)
    requires
        old(reader).well_formed(),
    ensures
        final(reader).well_formed(),
        final(reader).dependable() == old(reader).dependable(),
        reads(result, final(reader)@, audio_fields(old(reader)@), old(reader).dependable()),
{
    reader.skip(6)?;
    let data_reference_index: u16 = reader.read_u16()?;
    let version: u16 = reader.read_u16()?;
    reader.skip(2)?;
    reader.skip(4)?;
    let channel_count: u16 = reader.read_u16()?;
    let sample_size: u16 = reader.read_u16()?;
    reader.skip(4)?;
    let rate: u32 = reader.read_u32()?;
    if version != 0 {
        return Err(Mp4Error::UnsupportedFeature("versioned mp4a sample entries"));
    }
    if channel_count == 0 {
        return Err(Mp4Error::InvalidData("mp4a channel count is zero"));
    }
    if rate % 0x1_0000 != 0 {
        return Err(Mp4Error::UnsupportedFeature("fractional mp4a sample rates"));
    }
    let sample_rate: u32 = rate / 0x1_0000;
    if sample_rate == 0 {
        return Err(Mp4Error::InvalidData("mp4a sample rate is zero"));
    }
    Ok(AudioFields { data_reference_index, channel_count, sample_size, sample_rate })
}

/// Reads an AAC sample entry.
pub fn parse_aac_sample_entry<'input, I: MediaInput>(
    file: &Mp4File<'input, I>,
    entry: BoxHeader,
) -> (result: Result<AacSampleEntry>)
    requires
        entry.valid(),
    ensures
        meets_view(result, aac_entry_of(file@, entry), file@.dependable),
{
    if entry.payload_size() < AUDIO_SAMPLE_ENTRY_FIELDS_SIZE {
        return Err(Mp4Error::InvalidData("audio sample entry is truncated"));
    }
    let mut reader = payload_reader(file, entry)?;
    let fields = read_audio_fields(&mut reader)?;
    let start: u64 = reader.position();
    let end: u64 = start + reader.remaining();
    let audio_specific_config = find_configuration(
        file,
        start,
        end,
        ESDS,
        "mp4a sample entry has multiple esds boxes",
        "mp4a sample entry is missing esds",
    )?;
    let value = AacSampleEntry::new(
        entry.kind,
        fields.data_reference_index,
        fields.channel_count,
        fields.sample_size,
        fields.sample_rate,
        audio_specific_config,
    );
    match value.decoder_config() {
        Ok(_) => Ok(value),
        Err(error) => Err(error),
    }
}

fn parse_entry<'input, I: MediaInput>(
    file: &Mp4File<'input, I>,
    entry: BoxHeader,
    kind: EntryKind,
) -> (result: Result<SampleDescription>)
    requires
        entry.valid(),
    ensures
        meets_view(result, entry_of(file@, entry, kind), file@.dependable),
{
    match kind {
        EntryKind::Video => parse_video_sample_entry(file, entry),
        EntryKind::Audio => if entry.kind.code != MP4A {
            Ok(SampleDescription::Unsupported { format: entry.kind })
        } else {
            Ok(SampleDescription::Aac(parse_aac_sample_entry(file, entry)?))
        },
    }
}

/// An error of the first entries is the error of all.
proof fn lemma_described_error(
    file: FileView,
    listing: Listing,
    kind: EntryKind,
    part: int,
    count: int,
)
    requires
        part <= count,
        described(file, listing, kind, part) is Err,
    ensures
        described(file, listing, kind, count) == described(file, listing, kind, part),
    decreases count - part,
{
    if part < count {
        lemma_described_error(file, listing, kind, part, count - 1);
    }
}

fn describe_entries<'input, I: MediaInput>(
    file: &Mp4File<'input, I>,
    start: u64,
    end: u64,
    kind: EntryKind,
    count: usize,
) -> (result: Result<Vec<SampleDescription>>)
    requires
        range_in(file@, start as int, end as int) is Ok,
    ensures
        ({
            let listing = boxes_from(file@.content, start as int, end as int);
            meets_as(
                result,
                |descriptions: Vec<SampleDescription>| description_views(descriptions@),
                match described(file@, listing, kind, count as int) {
                    Err(error) => Err(error),
                    Ok(descriptions) => if listing.boxes.len() > count || listing.error is Some {
                        Err(Mp4Error::InvalidData("stsd has more entries than declared"))
                    } else {
                        Ok(descriptions)
                    },
                },
                file@.dependable,
            )
        }),
{
    let iter = file.boxes_in(start..end)?;
    let listing = iter.collect();
    let ghost whole = boxes_from(file@.content, start as int, end as int);
    let mut descriptions: Vec<SampleDescription> = Vec::with_capacity(count);
    assert(description_views(descriptions@) =~= Seq::<DescriptionView>::empty());
    let mut index: usize = 0;
    while index < count
        invariant
            index <= count,
            whole == boxes_from(file@.content, start as int, end as int),
            lists(listing, whole, file@.dependable),
            forall|i: int|
                0 <= i < listing.boxes@.len() ==> (#[trigger] listing.boxes@[i]).valid(),
            index <= listing.boxes@.len(),
            described(file@, whole, kind, index as int) == Ok::<Seq<DescriptionView>, Mp4Error>(
                description_views(descriptions@),
            ),
        decreases count - index,
    {
        proof {
            if described(file@, whole, kind, index + 1) is Err {
                lemma_described_error(file@, whole, kind, index + 1, count as int);
            }
        }
        if index >= listing.boxes.len() {
            return match listing.error {
                Some(error) => Err(error),
                None => Err(Mp4Error::InvalidData("stsd has fewer entries than declared")),
            };
        }
        let description = parse_entry(file, listing.boxes[index], kind)?;
        let ghost before = descriptions@;
        descriptions.push(description);
        assert(description_views(descriptions@) =~= description_views(before).push(description@));
        index = index + 1;
    }
    if listing.boxes.len() > count || listing.error.is_some() {
        return Err(Mp4Error::InvalidData("stsd has more entries than declared"));
    }
    Ok(descriptions)
}

/// Reads the sample descriptions of an stsd box.
#[verifier::rlimit(40)]
pub fn parse_sample_description_box<'input, I: MediaInput>(
    file: &Mp4File<'input, I>,
    description_box: BoxHeader,
    kind: EntryKind,
) -> (result: Result<Vec<SampleDescription>>)
    ensures
        meets_as(
            result,
            |descriptions: Vec<SampleDescription>| description_views(descriptions@),
            descriptions_of(file@, description_box, kind),
            file@.dependable,
        ),
{
    let mut reader = payload_reader(file, description_box)?;
    let (version, _flags) = reader.read_full_box()?;
    if version != 0 {
        return Err(Mp4Error::InvalidData("unsupported stsd version"));
    }
    let count: u32 = reader.read_u32()?;
    if count as usize > MAX_SAMPLE_DESCRIPTION_COUNT {
        return Err(Mp4Error::InvalidData("sample-description count exceeds its limit"));
    }
    let start: u64 = reader.position();
    let end: u64 = start + reader.remaining();
    if start > end || end > file.length() {
        return Err(Mp4Error::InvalidData("box range exceeds the input"));
    }
    describe_entries(file, start, end, kind, count as usize)
}

} // verus!
