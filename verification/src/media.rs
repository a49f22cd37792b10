//! Codec-independent sizes, times, colors and frames.

use std::sync::Arc;
use vstd::prelude::*;

verus! {

/// A width and a height in samples.
#[derive(Debug, Clone, Copy, PartialEq, Eq, Structural)]
pub struct Size {
    pub width: u32,
    pub height: u32,
}

impl Size {
    pub fn new(width: u32, height: u32) -> (size: Self)
        ensures
            size.width == width,
            size.height == height,
    {
        Size { width, height }
    }
}

/// A rectangle of samples, by its top left corner and its size.
#[derive(Debug, Clone, Copy, PartialEq, Eq, Structural)]
pub struct Rect {
    pub x: u32,
    pub y: u32,
    pub width: u32,
    pub height: u32,
}

impl Rect {
    pub fn new(x: u32, y: u32, width: u32, height: u32) -> (rect: Self)
        ensures
            rect == (Rect { x, y, width, height }),
    {
        Rect { x, y, width, height }
    }

    pub fn size(self) -> (size: Size)
        ensures
            size == (Size { width: self.width, height: self.height }),
    {
        Size { width: self.width, height: self.height }
    }
}

/// Which part of the code range samples use.
#[derive(Debug, Clone, Copy, PartialEq, Eq, Structural)]
#[non_exhaustive]
pub enum ColorRange {
    Unspecified,
    Limited,
    Full,
}

#[derive(Debug, Clone, Copy, PartialEq, Eq, Structural)]
#[non_exhaustive]
pub enum ColorPrimaries {
    Unspecified,
    Bt709,
    Bt601_625,
    Bt601_525,
    Bt2020,
    Other(u8),
}

#[derive(Debug, Clone, Copy, PartialEq, Eq, Structural)]
#[non_exhaustive]
pub enum TransferFunction {
    Unspecified,
    Bt709,
    Bt470Bg,
    Smpte170M,
    Linear,
    Srgb,
    Bt2020TenBit,
    Bt2020TwelveBit,
    Other(u8),
}

#[derive(Debug, Clone, Copy, PartialEq, Eq, Structural)]
#[non_exhaustive]
pub enum ColorMatrix {
    Unspecified,
    Identity,
    Bt709,
    Bt470Bg,
    Smpte170M,
    Bt2020NonConstantLuminance,
    Bt2020ConstantLuminance,
    Other(u8),
}

/// How sample values map to colors.
#[derive(Debug, Clone, Copy, PartialEq, Eq, Structural)]
pub struct ColorInfo {
    pub range: ColorRange,
    pub primaries: ColorPrimaries,
    pub transfer: TransferFunction,
    pub matrix: ColorMatrix,
}

impl ColorInfo {
    /// Nothing is known of the colors.
    pub open spec fn unspecified() -> ColorInfo {
        ColorInfo {
            range: ColorRange::Unspecified,
            primaries: ColorPrimaries::Unspecified,
            transfer: TransferFunction::Unspecified,
            matrix: ColorMatrix::Unspecified,
        }
    }
}

impl Default for ColorInfo {
    fn default() -> (info: Self)
        ensures
            info == ColorInfo::unspecified(),
    {
        ColorInfo {
            range: ColorRange::Unspecified,
            primaries: ColorPrimaries::Unspecified,
            transfer: TransferFunction::Unspecified,
            matrix: ColorMatrix::Unspecified,
        }
    }
}

/// A number of ticks in a second, never zero.
#[derive(Debug, Clone, Copy, PartialEq, Eq)]
pub struct Timescale {
    ticks: u32,
}

impl View for Timescale {
    type V = nat;

    closed spec fn view(&self) -> nat {
        self.ticks as nat
    }
}

impl Timescale {
    #[verifier::type_invariant]
    spec fn positive(self) -> bool {
        self.ticks > 0
    }

    pub fn new(ticks: u32) -> (timescale: Option<Self>)
        ensures
            match timescale {
                Some(timescale) => timescale@ == ticks && ticks > 0,
                None => ticks == 0,
            },
    {
        if ticks == 0 {
            None
        } else {
            Some(Timescale { ticks })
        }
    }

    pub fn get(self) -> (ticks: u32)
        ensures
            ticks == self@,
            ticks > 0,
    {
        proof {
            use_type_invariant(&self);
        }
        self.ticks
    }
}

/// A time in ticks of its scale.
#[derive(Debug, Clone, Copy, PartialEq, Eq)]
pub struct MediaTime {
    pub value: i64,
    pub timescale: Timescale,
}

impl MediaTime {
    pub fn new(value: i64, timescale: Timescale) -> (time: Self)
        ensures
            time.value == value,
            time.timescale == timescale,
    {
        MediaTime { value, timescale }
    }

    /// A time in ticks of a scale that may be zero, which no time has.
    pub fn from_parts(value: i64, timescale: u32) -> (time: Option<Self>)
        ensures
            match time {
                Some(time) => time.value == value && time.timescale@ == timescale && timescale > 0,
                None => timescale == 0,
            },
    {
        match Timescale::new(timescale) {
            Some(timescale) => Some(MediaTime { value, timescale }),
            None => None,
        }
    }
}

/// How samples are laid out.
#[derive(Debug, Clone, Copy, PartialEq, Eq, Structural)]
#[non_exhaustive]
pub enum PixelFormat {
    /// A plane of luma samples and one of interleaved chroma samples.
    Nv12,
    /// Three planes.
    I420,
}

/// What is wrong with a format or a frame.
#[derive(Debug, Clone, Copy, PartialEq, Eq)]
pub enum MediaError {
    InvalidFormat(&'static str),
    InvalidFrame(&'static str),
}

/// The size, layout and colors of video frames.
#[derive(Debug, Clone, Copy, PartialEq, Eq, Structural)]
pub struct VideoFormat {
    pub coded_size: Size,
    pub visible_rect: Rect,
    pub display_size: Size,
    pub pixel_format: PixelFormat,
    pub color: ColorInfo,
}

impl VideoFormat {
    /// What is wrong with the format.
    pub open spec fn error(self) -> Option<MediaError> {
        if self.coded_size.width == 0 || self.coded_size.height == 0 {
            Some(MediaError::InvalidFormat("coded size must be non-zero"))
        } else if self.visible_rect.width == 0 || self.visible_rect.height == 0 {
            Some(MediaError::InvalidFormat("visible rectangle must be non-empty"))
        } else if self.visible_rect.x + self.visible_rect.width > self.coded_size.width
            || self.visible_rect.y + self.visible_rect.height > self.coded_size.height {
            Some(MediaError::InvalidFormat("visible rectangle exceeds the coded size"))
        } else if self.display_size.width == 0 || self.display_size.height == 0 {
            Some(MediaError::InvalidFormat("display size must be non-zero"))
        } else {
            None
        }
    }

    pub fn validate(&self) -> (result: Result<(), MediaError>)
        ensures
            result == match self.error() {
                Some(error) => Err::<(), MediaError>(error),
                None => Ok(()),
            },
    {
        if self.coded_size.width == 0 || self.coded_size.height == 0 {
            return Err(MediaError::InvalidFormat("coded size must be non-zero"));
        }
        let rect = self.visible_rect;
        if rect.width == 0 || rect.height == 0 {
            return Err(MediaError::InvalidFormat("visible rectangle must be non-empty"));
        }
        if rect.x as u64 + rect.width as u64 > self.coded_size.width as u64 || rect.y as u64
            + rect.height as u64 > self.coded_size.height as u64 {
            return Err(MediaError::InvalidFormat("visible rectangle exceeds the coded size"));
        }
        if self.display_size.width == 0 || self.display_size.height == 0 {
            return Err(MediaError::InvalidFormat("display size must be non-zero"));
        }
        Ok(())
    }
}

/// Rows of samples in memory that planes may share.
#[derive(Debug, Clone)]
pub struct CpuPlane {
    pub bytes: Arc<Vec<u8>>,
    /// Where the first row begins.
    pub offset: usize,
    /// How far rows are apart.
    pub stride: usize,
    pub rows: usize,
}

impl CpuPlane {
    /// The rows lie inside the bytes and are as long as the picture is wide.
    pub open spec fn holds(self, width: int, rows: int) -> bool {
        &&& self.stride >= width
        &&& self.rows >= rows
        &&& self.offset + self.stride * self.rows <= self.bytes@.len()
    }

    fn check(&self, width: usize, rows: usize) -> (fine: bool)
        ensures
            fine == self.holds(width as int, rows as int),
    {
        if self.stride < width || self.rows < rows {
            return false;
        }
        let available: usize = self.bytes.len();
        match self.stride.checked_mul(self.rows) {
            Some(length) => match self.offset.checked_add(length) {
                Some(end) => end <= available,
                None => false,
            },
            None => false,
        }
    }
}

/// A frame in memory.
#[derive(Debug, Clone)]
pub struct CpuFrame {
    pub planes: Vec<CpuPlane>,
}

/// Where the samples of a frame are.
#[derive(Debug, Clone)]
#[non_exhaustive]
pub enum FrameStorage {
    Cpu(CpuFrame),
}

/// A frame that came out of a decoder.
#[derive(Debug, Clone)]
pub struct DecodedVideoFrame {
    pub id: u64,
    pub pts: Option<MediaTime>,
    pub duration: Option<MediaTime>,
    pub format: VideoFormat,
    pub storage: FrameStorage,
}

impl DecodedVideoFrame {
    /// What is wrong with the frame.
    pub open spec fn error(self) -> Option<MediaError> {
        match self.format.error() {
            Some(error) => Some(error),
            None => match self.storage {
                FrameStorage::Cpu(frame) => {
                    let width = self.format.coded_size.width as int;
                    let height = self.format.coded_size.height as int;
                    let planes = frame.planes@;
                    let fits = match self.format.pixel_format {
                        PixelFormat::Nv12 => {
                            &&& planes.len() == 2
                            &&& planes[0].holds(width, height)
                            &&& planes[1].holds((width + 1) / 2 * 2, (height + 1) / 2)
                        },
                        PixelFormat::I420 => {
                            &&& planes.len() == 3
                            &&& planes[0].holds(width, height)
                            &&& planes[1].holds((width + 1) / 2, (height + 1) / 2)
                            &&& planes[2].holds((width + 1) / 2, (height + 1) / 2)
                        },
                    };
                    if fits {
                        None
                    } else {
                        Some(MediaError::InvalidFrame("planes do not hold the picture"))
                    }
                },
            },
        }
    }

    pub fn validate(&self) -> (result: Result<(), MediaError>)
        ensures
            result == match self.error() {
                Some(error) => Err::<(), MediaError>(error),
                None => Ok(()),
            },
    {
        self.format.validate()?;
        match &self.storage {
            FrameStorage::Cpu(frame) => {
                let width: usize = self.format.coded_size.width as usize;
                let height: usize = self.format.coded_size.height as usize;
                let half_width: usize = width / 2 + width % 2;
                let half_height: usize = height / 2 + height % 2;
                let fits: bool = match self.format.pixel_format {
                    PixelFormat::Nv12 => frame.planes.len() == 2 && frame.planes[0].check(
                        width,
                        height,
                    ) && half_width <= frame.planes[1].stride / 2 && frame.planes[1].check(
                        width,
                        half_height,
                    ),
                    PixelFormat::I420 => frame.planes.len() == 3 && frame.planes[0].check(
                        width,
                        height,
                    ) && frame.planes[1].check(half_width, half_height) && frame.planes[2].check(
                        half_width,
                        half_height,
                    ),
                };
                if fits {
                    Ok(())
                } else {
                    Err(MediaError::InvalidFrame("planes do not hold the picture"))
                }
            },
        }
    }
}

/// How video is compressed.
#[derive(Debug, Clone, Copy, PartialEq, Eq, Structural)]
#[non_exhaustive]
pub enum VideoCodec {
    H264,
}

/// How the units of a bitstream are set apart.
#[derive(Debug, Clone, Copy, PartialEq, Eq, Structural)]
#[non_exhaustive]
pub enum BitstreamFormat {
    AnnexB,
    LengthPrefixed { length_size: u8 },
}

/// What a video decoder has to know in advance.
#[derive(Debug, Clone)]
pub struct VideoDecoderConfig {
    pub codec: VideoCodec,
    pub bitstream_format: BitstreamFormat,
    pub codec_data: Option<Arc<Vec<u8>>>,
}

impl VideoDecoderConfig {
    pub fn new(codec: VideoCodec, bitstream_format: BitstreamFormat) -> (config: Self)
        ensures
            config.codec == codec,
            config.bitstream_format == bitstream_format,
            config.codec_data is None,
    {
        VideoDecoderConfig { codec, bitstream_format, codec_data: None }
    }

    pub fn with_codec_data(self, codec_data: Arc<Vec<u8>>) -> (config: Self)
        ensures
            config.codec == self.codec,
            config.bitstream_format == self.bitstream_format,
            config.codec_data == Some(codec_data),
    {
        VideoDecoderConfig {
            codec: self.codec,
            bitstream_format: self.bitstream_format,
            codec_data: Some(codec_data),
        }
    }
}

/// How audio is compressed.
#[derive(Debug, Clone, Copy, PartialEq, Eq, Structural)]
#[non_exhaustive]
pub enum AudioCodec {
    Aac,
}

/// Which channels audio has.
#[derive(Debug, Clone, Copy, PartialEq, Eq, Structural)]
#[non_exhaustive]
pub enum ChannelLayout {
    Mono,
    Stereo,
}

impl ChannelLayout {
    pub open spec fn channel_count(self) -> u16 {
        match self {
            ChannelLayout::Mono => 1,
            ChannelLayout::Stereo => 2,
        }
    }

    pub fn channels(self) -> (count: u16)
        ensures
            count == self.channel_count(),
    {
        match self {
            ChannelLayout::Mono => 1,
            ChannelLayout::Stereo => 2,
        }
    }
}

/// What an audio decoder has to know in advance.
#[derive(Debug, Clone)]
pub struct AudioDecoderConfig {
    pub codec: AudioCodec,
    pub sample_rate: u32,
    pub channel_layout: ChannelLayout,
    pub codec_data: Option<Arc<Vec<u8>>>,
}

impl AudioDecoderConfig {
    pub fn new(codec: AudioCodec, sample_rate: u32, channel_layout: ChannelLayout) -> (config:
        Self)
        ensures
            config.codec == codec,
            config.sample_rate == sample_rate,
            config.channel_layout == channel_layout,
            config.codec_data is None,
    {
        AudioDecoderConfig { codec, sample_rate, channel_layout, codec_data: None }
    }

    pub fn with_codec_data(self, codec_data: Arc<Vec<u8>>) -> (config: Self)
        ensures
            config.codec == self.codec,
            config.sample_rate == self.sample_rate,
            config.channel_layout == self.channel_layout,
            config.codec_data == Some(codec_data),
    {
        AudioDecoderConfig {
            codec: self.codec,
            sample_rate: self.sample_rate,
            channel_layout: self.channel_layout,
            codec_data: Some(codec_data),
        }
    }

    /// A rate of zero is none.
    pub fn validate(&self) -> (result: Result<(), MediaError>)
        ensures
            result is Ok <==> self.sample_rate != 0,
            result matches Err(error) ==> error is InvalidFormat,
    {
        if self.sample_rate == 0 {
            Err(MediaError::InvalidFormat("audio sample rate is zero"))
        } else {
            Ok(())
        }
    }
}

/// A compressed picture, or several.
#[derive(Debug, Clone)]
pub struct EncodedVideoPacket {
    pub data: Arc<Vec<u8>>,
    pub pts: Option<MediaTime>,
    pub dts: Option<MediaTime>,
    pub duration: Option<MediaTime>,
    pub keyframe: bool,
}

/// A compressed piece of audio.
#[derive(Debug, Clone)]
pub struct EncodedAudioPacket {
    pub data: Arc<Vec<u8>>,
    pub pts: Option<MediaTime>,
    pub dts: Option<MediaTime>,
    pub duration: Option<MediaTime>,
}

/// A plane that holds a picture has room for each of its samples.
pub proof fn law_planes_have_room_for_each_sample(
    plane: CpuPlane,
    width: int,
    rows: int,
    x: int,
    y: int,
)
    requires
        plane.holds(width, rows),
        0 <= x < width,
        0 <= y < rows,
    ensures
        plane.offset + y * plane.stride + x < plane.bytes@.len(),
{
    assert(y * plane.stride + x < plane.stride * plane.rows) by (nonlinear_arith)
        requires
            0 <= x < plane.stride,
            0 <= y < plane.rows,
    ;
}

/// A picture that is found right is not empty and lies in what is coded of it.
pub proof fn law_visible_samples_are_coded(format: VideoFormat, x: int, y: int)
    requires
        format.error() is None,
        0 <= x < format.visible_rect.width,
        0 <= y < format.visible_rect.height,
    ensures
        format.visible_rect.x + x < format.coded_size.width,
        format.visible_rect.y + y < format.coded_size.height,
        format.display_size.width > 0,
        format.display_size.height > 0,
{
}

/// A frame that is found right has a luma sample for each place and, for each two by two
/// of them, a sample of both chroma components, side by side or in planes of their own.
pub proof fn law_frames_have_chroma_for_two_by_two(frame: DecodedVideoFrame, x: int, y: int)
    requires
        frame.error() is None,
        0 <= x < frame.format.coded_size.width,
        0 <= y < frame.format.coded_size.height,
    ensures
        ({
            let FrameStorage::Cpu(storage) = frame.storage;
            let planes = storage.planes@;
            let room = |plane: CpuPlane, column: int, row: int|
                plane.offset + row * plane.stride + column < plane.bytes@.len();
            &&& room(planes[0], x, y)
            &&& frame.format.pixel_format is Nv12 ==> planes.len() == 2 && room(
                planes[1],
                x / 2 * 2,
                y / 2,
            ) && room(planes[1], x / 2 * 2 + 1, y / 2)
            &&& frame.format.pixel_format is I420 ==> planes.len() == 3 && room(
                planes[1],
                x / 2,
                y / 2,
            ) && room(planes[2], x / 2, y / 2)
        }),
{
    let FrameStorage::Cpu(storage) = frame.storage;
    let planes = storage.planes@;
    let width = frame.format.coded_size.width as int;
    let height = frame.format.coded_size.height as int;
    law_planes_have_room_for_each_sample(planes[0], width, height, x, y);
    let rows = (height + 1) / 2;
    if frame.format.pixel_format is Nv12 {
        let wide = (width + 1) / 2 * 2;
        law_planes_have_room_for_each_sample(planes[1], wide, rows, x / 2 * 2, y / 2);
        law_planes_have_room_for_each_sample(planes[1], wide, rows, x / 2 * 2 + 1, y / 2);
    } else {
        let wide = (width + 1) / 2;
        law_planes_have_room_for_each_sample(planes[1], wide, rows, x / 2, y / 2);
        law_planes_have_room_for_each_sample(planes[2], wide, rows, x / 2, y / 2);
    }
}

} // verus!
