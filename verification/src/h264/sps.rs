//! Sequence Parameter Set syntax, validation, and derived image metadata.

use vstd::prelude::*;

use super::bits::{follows, follows_view, BitReader, Cursor};
use super::error::{H264Error, Result};
use super::rbsp::{consume_rbsp_trailing_bits, trailing_bits};
use crate::media::{
    ColorInfo, ColorMatrix, ColorPrimaries, ColorRange, Rect, Size, TransferFunction,
};

verus! {

#[derive(Debug, Clone, Copy, PartialEq, Eq, Structural)]
#[non_exhaustive]
pub enum Profile {
    Baseline,
    Main,
    High,
}

impl Profile {
    /// The profile that `profile_idc` names.
    pub open spec fn named(profile_idc: u8) -> Option<Profile> {
        if profile_idc == 66 {
            Some(Profile::Baseline)
        } else if profile_idc == 77 {
            Some(Profile::Main)
        } else if profile_idc == 100 {
            Some(Profile::High)
        } else {
            None
        }
    }

    fn from_idc(profile_idc: u8) -> (result: Result<Self>)
        ensures
            result == match Profile::named(profile_idc) {
                Some(profile) => Ok::<Profile, H264Error>(profile),
                None => Err(H264Error::UnsupportedProfile(profile_idc)),
            },
    {
        match profile_idc {
            66 => Ok(Profile::Baseline),
            77 => Ok(Profile::Main),
            100 => Ok(Profile::High),
            profile => Err(H264Error::UnsupportedProfile(profile)),
        }
    }
}

#[derive(Debug, Clone, PartialEq, Eq)]
pub struct ScalingList {
    pub values: Vec<u8>,
    pub use_default: bool,
}

/// A scaling list with its values as a sequence.
pub struct ScalingListView {
    pub values: Seq<u8>,
    pub use_default: bool,
}

impl View for ScalingList {
    type V = ScalingListView;

    open spec fn view(&self) -> ScalingListView {
        ScalingListView { values: self.values@, use_default: self.use_default }
    }
}

#[derive(Debug, Clone, PartialEq, Eq)]
pub struct ScalingMatrices {
    /// Six 4x4 lists followed by two 8x8 lists for 4:2:0 streams.
    ///
    /// A `None` entry means `seq_scaling_list_present_flag` was zero and the
    /// normative fallback rule must be applied when the matrix is used.
    pub lists: Vec<Option<ScalingList>>,
}

/// The view of an optional scaling list.
pub open spec fn list_view(list: Option<ScalingList>) -> Option<ScalingListView> {
    match list {
        Some(list) => Some(list@),
        None => None,
    }
}

impl View for ScalingMatrices {
    type V = Seq<Option<ScalingListView>>;

    open spec fn view(&self) -> Seq<Option<ScalingListView>> {
        self.lists@.map_values(|list: Option<ScalingList>| list_view(list))
    }
}

impl Default for ScalingMatrices {
    fn default() -> (matrices: Self)
        ensures
            matrices@ == Seq::<Option<ScalingListView>>::empty(),
    {
        let matrices = ScalingMatrices { lists: Vec::new() };
        assert(matrices@ =~= Seq::<Option<ScalingListView>>::empty());
        matrices
    }
}

#[derive(Debug, Clone, PartialEq, Eq)]
pub enum PicOrderCount {
    Type0 { log2_max_pic_order_cnt_lsb: u8 },
    Type1 {
        delta_pic_order_always_zero: bool,
        offset_for_non_ref_pic: i32,
        offset_for_top_to_bottom_field: i32,
        offset_for_ref_frame: Vec<i32>,
    },
    Type2,
}

/// Picture order count parameters with the offsets as a sequence.
pub enum PicOrderCountView {
    Type0 { log2_max_pic_order_cnt_lsb: u8 },
    Type1 {
        delta_pic_order_always_zero: bool,
        offset_for_non_ref_pic: i32,
        offset_for_top_to_bottom_field: i32,
        offset_for_ref_frame: Seq<i32>,
    },
    Type2,
}

impl View for PicOrderCount {
    type V = PicOrderCountView;

    open spec fn view(&self) -> PicOrderCountView {
        match self {
            PicOrderCount::Type0 { log2_max_pic_order_cnt_lsb } => PicOrderCountView::Type0 {
                log2_max_pic_order_cnt_lsb: *log2_max_pic_order_cnt_lsb,
            },
            PicOrderCount::Type1 {
                delta_pic_order_always_zero,
                offset_for_non_ref_pic,
                offset_for_top_to_bottom_field,
                offset_for_ref_frame,
            } => PicOrderCountView::Type1 {
                delta_pic_order_always_zero: *delta_pic_order_always_zero,
                offset_for_non_ref_pic: *offset_for_non_ref_pic,
                offset_for_top_to_bottom_field: *offset_for_top_to_bottom_field,
                offset_for_ref_frame: offset_for_ref_frame@,
            },
            PicOrderCount::Type2 => PicOrderCountView::Type2,
        }
    }
}

#[derive(Debug, Clone, Copy, PartialEq, Eq, Structural)]
pub struct SampleAspectRatio {
    pub width: u16,
    pub height: u16,
}

impl Default for SampleAspectRatio {
    fn default() -> (ratio: Self)
        ensures
            ratio == (SampleAspectRatio { width: 1, height: 1 }),
    {
        SampleAspectRatio { width: 1, height: 1 }
    }
}

#[derive(Debug, Clone, Copy, PartialEq, Eq, Structural)]
pub struct TimingInfo {
    pub num_units_in_tick: u32,
    pub time_scale: u32,
    pub fixed_frame_rate: bool,
}

#[derive(Debug, Clone, Copy, PartialEq, Eq, Structural)]
pub struct BitstreamRestrictions {
    pub motion_vectors_over_pic_boundaries: bool,
    pub max_bytes_per_pic_denom: u32,
    pub max_bits_per_mb_denom: u32,
    pub log2_max_mv_length_horizontal: u32,
    pub log2_max_mv_length_vertical: u32,
    pub max_num_reorder_frames: u32,
    pub max_dec_frame_buffering: u32,
}

#[derive(Debug, Clone, Copy, PartialEq, Eq)]
pub struct VuiParameters {
    pub sample_aspect_ratio: Option<SampleAspectRatio>,
    pub overscan_appropriate: Option<bool>,
    pub video_format: Option<u8>,
    pub color: ColorInfo,
    pub chroma_sample_loc_type_top_field: Option<u32>,
    pub chroma_sample_loc_type_bottom_field: Option<u32>,
    pub timing: Option<TimingInfo>,
    pub pic_struct_present: bool,
    pub bitstream_restrictions: Option<BitstreamRestrictions>,
}

impl Default for VuiParameters {
    fn default() -> (vui: Self)
        ensures
            vui == (VuiParameters {
                sample_aspect_ratio: None,
                overscan_appropriate: None,
                video_format: None,
                color: ColorInfo::unspecified(),
                chroma_sample_loc_type_top_field: None,
                chroma_sample_loc_type_bottom_field: None,
                timing: None,
                pic_struct_present: false,
                bitstream_restrictions: None,
            }),
    {
        VuiParameters {
            sample_aspect_ratio: None,
            overscan_appropriate: None,
            video_format: None,
            color: ColorInfo::default(),
            chroma_sample_loc_type_top_field: None,
            chroma_sample_loc_type_bottom_field: None,
            timing: None,
            pic_struct_present: false,
            bitstream_restrictions: None,
        }
    }
}

#[derive(Debug, Clone, PartialEq, Eq)]
pub struct SequenceParameterSet {
    pub id: u32,
    pub profile: Profile,
    pub profile_idc: u8,
    /// Constraint-set flags in bits 7 through 2, exactly as signalled.
    pub constraint_flags: u8,
    pub level_idc: u8,
    pub bit_depth_luma: u8,
    pub bit_depth_chroma: u8,
    pub qpprime_y_zero_transform_bypass: bool,
    pub scaling_matrices: Option<ScalingMatrices>,
    pub log2_max_frame_num: u8,
    pub pic_order_count: PicOrderCount,
    pub max_num_ref_frames: u32,
    pub gaps_in_frame_num_value_allowed: bool,
    pub pic_width_in_mbs: u32,
    pub pic_height_in_map_units: u32,
    pub frame_mbs_only: bool,
    pub mb_adaptive_frame_field: bool,
    pub direct_8x8_inference: bool,
    pub coded_size: Size,
    pub visible_rect: Rect,
    pub display_size: Size,
    pub vui: Option<VuiParameters>,
}

/// A sequence parameter set with its lists as sequences.
pub struct SequenceView {
    pub id: u32,
    pub profile: Profile,
    pub profile_idc: u8,
    pub constraint_flags: u8,
    pub level_idc: u8,
    pub bit_depth_luma: u8,
    pub bit_depth_chroma: u8,
    pub qpprime_y_zero_transform_bypass: bool,
    pub scaling_matrices: Option<Seq<Option<ScalingListView>>>,
    pub log2_max_frame_num: u8,
    pub pic_order_count: PicOrderCountView,
    pub max_num_ref_frames: u32,
    pub gaps_in_frame_num_value_allowed: bool,
    pub pic_width_in_mbs: u32,
    pub pic_height_in_map_units: u32,
    pub frame_mbs_only: bool,
    pub mb_adaptive_frame_field: bool,
    pub direct_8x8_inference: bool,
    pub coded_size: Size,
    pub visible_rect: Rect,
    pub display_size: Size,
    pub vui: Option<VuiParameters>,
}

/// The view of optional scaling matrices.
pub open spec fn matrices_view(matrices: Option<ScalingMatrices>) -> Option<
    Seq<Option<ScalingListView>>,
> {
    match matrices {
        Some(matrices) => Some(matrices@),
        None => None,
    }
}

impl View for SequenceParameterSet {
    type V = SequenceView;

    open spec fn view(&self) -> SequenceView {
        SequenceView {
            id: self.id,
            profile: self.profile,
            profile_idc: self.profile_idc,
            constraint_flags: self.constraint_flags,
            level_idc: self.level_idc,
            bit_depth_luma: self.bit_depth_luma,
            bit_depth_chroma: self.bit_depth_chroma,
            qpprime_y_zero_transform_bypass: self.qpprime_y_zero_transform_bypass,
            scaling_matrices: matrices_view(self.scaling_matrices),
            log2_max_frame_num: self.log2_max_frame_num,
            pic_order_count: self.pic_order_count@,
            max_num_ref_frames: self.max_num_ref_frames,
            gaps_in_frame_num_value_allowed: self.gaps_in_frame_num_value_allowed,
            pic_width_in_mbs: self.pic_width_in_mbs,
            pic_height_in_map_units: self.pic_height_in_map_units,
            frame_mbs_only: self.frame_mbs_only,
            mb_adaptive_frame_field: self.mb_adaptive_frame_field,
            direct_8x8_inference: self.direct_8x8_inference,
            coded_size: self.coded_size,
            visible_rect: self.visible_rect,
            display_size: self.display_size,
            vui: self.vui,
        }
    }
}

/// Reads a scaling list of `size` values, `values` of which are read. Each
/// value is the one before it plus a signed difference, modulo 256; a zero
/// repeats the last value to the end, and as the first it asks for the default.
pub open spec fn scaling_list_syntax(
    cursor: Cursor,
    size: nat,
    values: Seq<u8>,
    last: i32,
    next: i32,
    use_default: bool,
) -> (ScalingListView, Cursor)
    decreases size - values.len(),
{
    if cursor.error is Some || values.len() >= size {
        (ScalingListView { values, use_default }, cursor)
    } else if next == 0 {
        scaling_list_syntax(cursor, size, values.push(last as u8), last, 0, use_default)
    } else {
        let (delta, cursor) = cursor.se();
        let cursor = cursor.require(
            -128 <= delta <= 127,
            H264Error::InvalidSyntax("scaling-list delta_scale is outside -128..127"),
        );
        let sum = ((last + delta) % 256) as i32;
        let scale = if sum == 0 {
            last
        } else {
            sum
        };
        scaling_list_syntax(
            cursor,
            size,
            values.push(scale as u8),
            scale,
            sum,
            use_default || (values.len() == 0 && sum == 0),
        )
    }
}

/// Reads the lists from index `lists.len()` up to `count`.
pub open spec fn scaling_matrices_syntax(
    cursor: Cursor,
    count: nat,
    lists: Seq<Option<ScalingListView>>,
) -> (Seq<Option<ScalingListView>>, Cursor)
    decreases count - lists.len(),
{
    if cursor.error is Some || lists.len() >= count {
        (lists, cursor)
    } else {
        let (present, cursor) = cursor.flag();
        if present {
            let size = if lists.len() < 6 {
                16nat
            } else {
                64nat
            };
            let (list, cursor) = scaling_list_syntax(cursor, size, Seq::empty(), 8, 8, false);
            scaling_matrices_syntax(cursor, count, lists.push(Some(list)))
        } else {
            scaling_matrices_syntax(cursor, count, lists.push(None))
        }
    }
}

/// Parses `list_count` scaling lists, the first six of which are 4x4 lists.
pub fn parse_scaling_matrices(reader: &mut BitReader<'_>, list_count: usize) -> (result: Result<
    ScalingMatrices,
>)
    ensures
        follows_view(
            result,
            *final(reader),
            scaling_matrices_syntax(old(reader).cursor(), list_count as nat, Seq::empty()),
        ),
        final(reader).data() == old(reader).data(),
{
    let mut matrices = ScalingMatrices { lists: Vec::with_capacity(list_count) };
    assert(matrices@ =~= Seq::<Option<ScalingListView>>::empty());
    let mut index: usize = 0;
    while index < list_count
        invariant
            index <= list_count,
            matrices@.len() == index,
            matrices.lists@.len() == index,
            reader.data() == old(reader).data(),
            scaling_matrices_syntax(old(reader).cursor(), list_count as nat, Seq::empty())
                == scaling_matrices_syntax(reader.cursor(), list_count as nat, matrices@),
        decreases list_count - index,
    {
        proof {
            reveal_with_fuel(scaling_matrices_syntax, 2);
        }
        let ghost before = matrices@;
        if reader.read_bit()? {
            let size: usize = if index < 6 {
                16
            } else {
                64
            };
            let list = parse_scaling_list(reader, size)?;
            matrices.lists.push(Some(list));
            assert(matrices@ =~= before.push(Some(list@)));
        } else {
            matrices.lists.push(None);
            assert(matrices@ =~= before.push(None));
        }
        index = index + 1;
    }
    Ok(matrices)
}

fn parse_scaling_list(reader: &mut BitReader<'_>, size: usize) -> (result: Result<ScalingList>)
    ensures
        follows_view(
            result,
            *final(reader),
            scaling_list_syntax(old(reader).cursor(), size as nat, Seq::empty(), 8, 8, false),
        ),
        final(reader).data() == old(reader).data(),
{
    let mut values: Vec<u8> = Vec::with_capacity(size);
    let mut last_scale: i32 = 8;
    let mut next_scale: i32 = 8;
    let mut use_default = false;
    while values.len() < size
        invariant
            values@.len() <= size,
            1 <= last_scale <= 255,
            0 <= next_scale <= 255,
            reader.data() == old(reader).data(),
            scaling_list_syntax(old(reader).cursor(), size as nat, Seq::empty(), 8, 8, false)
                == scaling_list_syntax(
                reader.cursor(),
                size as nat,
                values@,
                last_scale,
                next_scale,
                use_default,
            ),
        decreases size - values@.len(),
    {
        proof {
            reveal_with_fuel(scaling_list_syntax, 2);
        }
        if next_scale != 0 {
            let delta_scale: i32 = reader.read_se()?;
            if delta_scale < -128 || delta_scale > 127 {
                return Err(
                    H264Error::InvalidSyntax("scaling-list delta_scale is outside -128..127"),
                );
            }
            next_scale = (last_scale + delta_scale + 256) % 256;
            assert(next_scale == (last_scale + delta_scale) % 256);
            if values.len() == 0 && next_scale == 0 {
                use_default = true;
            }
        }
        let scale: i32 = if next_scale == 0 {
            last_scale
        } else {
            next_scale
        };
        values.push(scale as u8);
        last_scale = scale;
    }
    Ok(ScalingList { values, use_default })
}

/// The sample aspect ratio that `aspect_ratio_idc` names, if it names one.
pub open spec fn named_aspect_ratio(aspect_ratio_idc: u8) -> Option<SampleAspectRatio> {
    let ratios: Seq<(u16, u16)> = seq![
        (1, 1), (12, 11), (10, 11), (16, 11), (40, 33), (24, 11), (20, 11), (32, 11),
        (80, 33), (18, 11), (15, 11), (64, 33), (160, 99), (4, 3), (3, 2), (2, 1),
    ];
    if 1 <= aspect_ratio_idc <= 16 {
        let ratio = ratios[aspect_ratio_idc - 1];
        Some(SampleAspectRatio { width: ratio.0, height: ratio.1 })
    } else {
        None
    }
}

/// Reads a sample aspect ratio. Code 0 leaves it unspecified, code 255 spells
/// it out, and the codes that name none are reserved.
pub open spec fn aspect_ratio_syntax(cursor: Cursor) -> (Option<SampleAspectRatio>, Cursor) {
    let (code, cursor) = cursor.bits(8);
    let idc = code as u8;
    if cursor.error is Some || idc == 0 {
        (None, cursor)
    } else if idc == 255 {
        let (width, cursor) = cursor.bits(16);
        let (height, cursor) = cursor.bits(16);
        let ratio = SampleAspectRatio { width: width as u16, height: height as u16 };
        (
            Some(ratio),
            cursor.require(
                ratio.width != 0 && ratio.height != 0,
                H264Error::InvalidSyntax("sample aspect ratio must be non-zero"),
            ),
        )
    } else {
        let ratio = named_aspect_ratio(idc);
        (
            ratio,
            cursor.require(
                ratio is Some,
                H264Error::InvalidSyntax("reserved aspect_ratio_idc"),
            ),
        )
    }
}

/// Parses `aspect_ratio_idc` and the ratio that follows it.
pub fn parse_sample_aspect_ratio(reader: &mut BitReader<'_>) -> (result: Result<
    Option<SampleAspectRatio>,
>)
    ensures
        follows(result, *final(reader), aspect_ratio_syntax(old(reader).cursor())),
        final(reader).data() == old(reader).data(),
        result matches Ok(Some(ratio)) ==> ratio.width != 0 && ratio.height != 0,
{
    let aspect_ratio_idc: u8 = reader.read_bits(8)? as u8;
    let (width, height): (u16, u16) = match aspect_ratio_idc {
        0 => return Ok(None),
        1 => (1, 1),
        2 => (12, 11),
        3 => (10, 11),
        4 => (16, 11),
        5 => (40, 33),
        6 => (24, 11),
        7 => (20, 11),
        8 => (32, 11),
        9 => (80, 33),
        10 => (18, 11),
        11 => (15, 11),
        12 => (64, 33),
        13 => (160, 99),
        14 => (4, 3),
        15 => (3, 2),
        16 => (2, 1),
        255 => {
            let width: u16 = reader.read_bits(16)? as u16;
            let height: u16 = reader.read_bits(16)? as u16;
            (width, height)
        },
        _ => {
            return Err(H264Error::InvalidSyntax("reserved aspect_ratio_idc"));
        },
    };
    if width == 0 || height == 0 {
        return Err(H264Error::InvalidSyntax("sample aspect ratio must be non-zero"));
    }
    Ok(Some(SampleAspectRatio { width, height }))
}

/// The primaries that a code names.
pub open spec fn primaries_of(value: u8) -> ColorPrimaries {
    match value {
        1 => ColorPrimaries::Bt709,
        2 => ColorPrimaries::Unspecified,
        5 => ColorPrimaries::Bt601_625,
        6 => ColorPrimaries::Bt601_525,
        9 => ColorPrimaries::Bt2020,
        _ => ColorPrimaries::Other(value),
    }
}

/// The transfer function that a code names.
pub open spec fn transfer_of(value: u8) -> TransferFunction {
    match value {
        1 => TransferFunction::Bt709,
        2 => TransferFunction::Unspecified,
        5 => TransferFunction::Bt470Bg,
        6 => TransferFunction::Smpte170M,
        8 => TransferFunction::Linear,
        13 => TransferFunction::Srgb,
        14 => TransferFunction::Bt2020TenBit,
        15 => TransferFunction::Bt2020TwelveBit,
        _ => TransferFunction::Other(value),
    }
}

/// The matrix that a code names.
pub open spec fn matrix_of(value: u8) -> ColorMatrix {
    match value {
        0 => ColorMatrix::Identity,
        1 => ColorMatrix::Bt709,
        2 => ColorMatrix::Unspecified,
        5 => ColorMatrix::Bt470Bg,
        6 => ColorMatrix::Smpte170M,
        9 => ColorMatrix::Bt2020NonConstantLuminance,
        10 => ColorMatrix::Bt2020ConstantLuminance,
        _ => ColorMatrix::Other(value),
    }
}

fn map_color_primaries(value: u8) -> (primaries: ColorPrimaries)
    ensures
        primaries == primaries_of(value),
{
    match value {
        2 => ColorPrimaries::Unspecified,
        1 => ColorPrimaries::Bt709,
        5 => ColorPrimaries::Bt601_625,
        6 => ColorPrimaries::Bt601_525,
        9 => ColorPrimaries::Bt2020,
        value => ColorPrimaries::Other(value),
    }
}

fn map_transfer_function(value: u8) -> (transfer: TransferFunction)
    ensures
        transfer == transfer_of(value),
{
    match value {
        2 => TransferFunction::Unspecified,
        1 => TransferFunction::Bt709,
        5 => TransferFunction::Bt470Bg,
        6 => TransferFunction::Smpte170M,
        8 => TransferFunction::Linear,
        13 => TransferFunction::Srgb,
        14 => TransferFunction::Bt2020TenBit,
        15 => TransferFunction::Bt2020TwelveBit,
        value => TransferFunction::Other(value),
    }
}

fn map_color_matrix(value: u8) -> (matrix: ColorMatrix)
    ensures
        matrix == matrix_of(value),
{
    match value {
        2 => ColorMatrix::Unspecified,
        0 => ColorMatrix::Identity,
        1 => ColorMatrix::Bt709,
        5 => ColorMatrix::Bt470Bg,
        6 => ColorMatrix::Smpte170M,
        9 => ColorMatrix::Bt2020NonConstantLuminance,
        10 => ColorMatrix::Bt2020ConstantLuminance,
        value => ColorMatrix::Other(value),
    }
}

/// Reads the video format and the color description.
pub open spec fn video_signal_syntax(cursor: Cursor) -> ((Option<u8>, ColorInfo), Cursor) {
    let (present, cursor) = cursor.flag();
    if !present {
        ((None, ColorInfo::unspecified()), cursor)
    } else {
        let (video_format, cursor) = cursor.bits(3);
        let (full, cursor) = cursor.flag();
        let range = if full {
            ColorRange::Full
        } else {
            ColorRange::Limited
        };
        let (described, cursor) = cursor.flag();
        if !described {
            ((Some(video_format as u8), ColorInfo { range, ..ColorInfo::unspecified() }), cursor)
        } else {
            let (primaries, cursor) = cursor.bits(8);
            let (transfer, cursor) = cursor.bits(8);
            let (matrix, cursor) = cursor.bits(8);
            (
                (
                    Some(video_format as u8),
                    ColorInfo {
                        range,
                        primaries: primaries_of(primaries as u8),
                        transfer: transfer_of(transfer as u8),
                        matrix: matrix_of(matrix as u8),
                    },
                ),
                cursor,
            )
        }
    }
}

fn parse_video_signal(reader: &mut BitReader<'_>) -> (result: Result<(Option<u8>, ColorInfo)>)
    ensures
        follows(result, *final(reader), video_signal_syntax(old(reader).cursor())),
        final(reader).data() == old(reader).data(),
{
    let mut color = ColorInfo::default();
    if !reader.read_bit()? {
        return Ok((None, color));
    }
    let video_format: u8 = reader.read_bits(3)? as u8;
    color.range = if reader.read_bit()? {
        ColorRange::Full
    } else {
        ColorRange::Limited
    };
    if reader.read_bit()? {
        color.primaries = map_color_primaries(reader.read_bits(8)? as u8);
        color.transfer = map_transfer_function(reader.read_bits(8)? as u8);
        color.matrix = map_color_matrix(reader.read_bits(8)? as u8);
    }
    Ok((Some(video_format), color))
}

/// Reads the timing information.
pub open spec fn timing_syntax(cursor: Cursor) -> (Option<TimingInfo>, Cursor) {
    let (present, cursor) = cursor.flag();
    if !present {
        (None, cursor)
    } else {
        let (num_units_in_tick, cursor) = cursor.bits(32);
        let (time_scale, cursor) = cursor.bits(32);
        let cursor = cursor.require(
            num_units_in_tick != 0 && time_scale != 0,
            H264Error::InvalidSyntax("VUI timing values must be non-zero"),
        );
        let (fixed_frame_rate, cursor) = cursor.flag();
        (Some(TimingInfo { num_units_in_tick, time_scale, fixed_frame_rate }), cursor)
    }
}

fn parse_timing(reader: &mut BitReader<'_>) -> (result: Result<Option<TimingInfo>>)
    ensures
        follows(result, *final(reader), timing_syntax(old(reader).cursor())),
        final(reader).data() == old(reader).data(),
{
    if !reader.read_bit()? {
        return Ok(None);
    }
    let num_units_in_tick: u32 = reader.read_bits(32)?;
    let time_scale: u32 = reader.read_bits(32)?;
    if num_units_in_tick == 0 || time_scale == 0 {
        return Err(H264Error::InvalidSyntax("VUI timing values must be non-zero"));
    }
    let fixed_frame_rate = reader.read_bit()?;
    Ok(Some(TimingInfo { num_units_in_tick, time_scale, fixed_frame_rate }))
}

/// Skips the parameters of `count` coded picture buffers.
pub open spec fn coded_buffers_syntax(cursor: Cursor, count: nat) -> Cursor
    decreases count,
{
    if cursor.error is Some || count == 0 {
        cursor
    } else {
        coded_buffers_syntax(cursor.ue().1.ue().1.flag().1, (count - 1) as nat)
    }
}

/// Skips hypothetical reference decoder parameters.
pub open spec fn hrd_syntax(cursor: Cursor) -> ((), Cursor) {
    let (cpb_count_minus1, cursor) = cursor.ue();
    let cursor = cursor.require(
        cpb_count_minus1 <= 31,
        H264Error::InvalidSyntax("cpb_cnt_minus1 exceeds 31"),
    );
    let cursor = cursor.bits(4).1.bits(4).1;
    let cursor = coded_buffers_syntax(cursor, cpb_count_minus1 as nat + 1);
    ((), cursor.bits(5).1.bits(5).1.bits(5).1.bits(5).1)
}

fn parse_hrd_parameters(reader: &mut BitReader<'_>) -> (result: Result<()>)
    ensures
        follows(result, *final(reader), hrd_syntax(old(reader).cursor())),
        final(reader).data() == old(reader).data(),
{
    let cpb_count_minus1: u32 = reader.read_ue()?;
    if cpb_count_minus1 > 31 {
        return Err(H264Error::InvalidSyntax("cpb_cnt_minus1 exceeds 31"));
    }
    reader.read_bits(4)?;
    reader.read_bits(4)?;
    let mut left: u32 = cpb_count_minus1 + 1;
    let ghost start = reader.cursor();
    while left > 0
        invariant
            left <= cpb_count_minus1 + 1,
            cpb_count_minus1 <= 31,
            reader.data() == old(reader).data(),
            hrd_syntax(old(reader).cursor()).1 == coded_buffers_syntax(
                reader.cursor(),
                left as nat,
            ).bits(5).1.bits(5).1.bits(5).1.bits(5).1,
        decreases left,
    {
        proof {
            reveal_with_fuel(coded_buffers_syntax, 2);
        }
        reader.read_ue()?;
        reader.read_ue()?;
        reader.read_bit()?;
        left = left - 1;
    }
    reader.read_bits(5)?;
    reader.read_bits(5)?;
    reader.read_bits(5)?;
    reader.read_bits(5)?;
    Ok(())
}

/// Reads the bitstream restrictions.
pub open spec fn restrictions_syntax(cursor: Cursor) -> (Option<BitstreamRestrictions>, Cursor) {
    let (present, cursor) = cursor.flag();
    if !present {
        (None, cursor)
    } else {
        let (motion_vectors_over_pic_boundaries, cursor) = cursor.flag();
        let (max_bytes_per_pic_denom, cursor) = cursor.ue();
        let (max_bits_per_mb_denom, cursor) = cursor.ue();
        let (log2_max_mv_length_horizontal, cursor) = cursor.ue();
        let (log2_max_mv_length_vertical, cursor) = cursor.ue();
        let (max_num_reorder_frames, cursor) = cursor.ue();
        let (max_dec_frame_buffering, cursor) = cursor.ue();
        (
            Some(
                BitstreamRestrictions {
                    motion_vectors_over_pic_boundaries,
                    max_bytes_per_pic_denom,
                    max_bits_per_mb_denom,
                    log2_max_mv_length_horizontal,
                    log2_max_mv_length_vertical,
                    max_num_reorder_frames,
                    max_dec_frame_buffering,
                },
            ),
            cursor,
        )
    }
}

fn parse_bitstream_restrictions(reader: &mut BitReader<'_>) -> (result: Result<
    Option<BitstreamRestrictions>,
>)
    ensures
        follows(result, *final(reader), restrictions_syntax(old(reader).cursor())),
        final(reader).data() == old(reader).data(),
{
    if !reader.read_bit()? {
        return Ok(None);
    }
    let motion_vectors_over_pic_boundaries = reader.read_bit()?;
    let max_bytes_per_pic_denom: u32 = reader.read_ue()?;
    let max_bits_per_mb_denom: u32 = reader.read_ue()?;
    let log2_max_mv_length_horizontal: u32 = reader.read_ue()?;
    let log2_max_mv_length_vertical: u32 = reader.read_ue()?;
    let max_num_reorder_frames: u32 = reader.read_ue()?;
    let max_dec_frame_buffering: u32 = reader.read_ue()?;
    Ok(
        Some(
            BitstreamRestrictions {
                motion_vectors_over_pic_boundaries,
                max_bytes_per_pic_denom,
                max_bits_per_mb_denom,
                log2_max_mv_length_horizontal,
                log2_max_mv_length_vertical,
                max_num_reorder_frames,
                max_dec_frame_buffering,
            },
        ),
    )
}

/// Reads video usability information.
pub open spec fn vui_syntax(cursor: Cursor) -> (VuiParameters, Cursor) {
    let (ratio_present, cursor) = cursor.flag();
    let (sample_aspect_ratio, cursor) = if ratio_present {
        aspect_ratio_syntax(cursor)
    } else {
        (None, cursor)
    };
    let (overscan_present, cursor) = cursor.flag();
    let (overscan_appropriate, cursor) = if overscan_present {
        (Some(cursor.flag().0), cursor.flag().1)
    } else {
        (None, cursor)
    };
    let ((video_format, color), cursor) = video_signal_syntax(cursor);
    let (location_present, cursor) = cursor.flag();
    let (top, bottom, cursor) = if location_present {
        let (top, cursor) = cursor.ue();
        let (bottom, cursor) = cursor.ue();
        (Some(top), Some(bottom), cursor)
    } else {
        (None, None, cursor)
    };
    let (timing, cursor) = timing_syntax(cursor);
    let (nal_hrd_present, cursor) = cursor.flag();
    let cursor = if nal_hrd_present {
        hrd_syntax(cursor).1
    } else {
        cursor
    };
    let (vcl_hrd_present, cursor) = cursor.flag();
    let cursor = if vcl_hrd_present {
        hrd_syntax(cursor).1
    } else {
        cursor
    };
    let cursor = if nal_hrd_present || vcl_hrd_present {
        cursor.flag().1
    } else {
        cursor
    };
    let (pic_struct_present, cursor) = cursor.flag();
    let (bitstream_restrictions, cursor) = restrictions_syntax(cursor);
    (
        VuiParameters {
            sample_aspect_ratio,
            overscan_appropriate,
            video_format,
            color,
            chroma_sample_loc_type_top_field: top,
            chroma_sample_loc_type_bottom_field: bottom,
            timing,
            pic_struct_present,
            bitstream_restrictions,
        },
        cursor,
    )
}

fn parse_vui(reader: &mut BitReader<'_>) -> (result: Result<VuiParameters>)
    ensures
        follows(result, *final(reader), vui_syntax(old(reader).cursor())),
        final(reader).data() == old(reader).data(),
        result matches Ok(vui) ==> (vui.sample_aspect_ratio matches Some(ratio) ==> ratio.height
            != 0),
{
    let sample_aspect_ratio = if reader.read_bit()? {
        parse_sample_aspect_ratio(reader)?
    } else {
        None
    };
    let overscan_appropriate = if reader.read_bit()? {
        Some(reader.read_bit()?)
    } else {
        None
    };
    let (video_format, color) = parse_video_signal(reader)?;
    let (top, bottom): (Option<u32>, Option<u32>) = if reader.read_bit()? {
        let top: u32 = reader.read_ue()?;
        let bottom: u32 = reader.read_ue()?;
        (Some(top), Some(bottom))
    } else {
        (None, None)
    };
    let timing = parse_timing(reader)?;
    let nal_hrd_present = reader.read_bit()?;
    if nal_hrd_present {
        parse_hrd_parameters(reader)?;
    }
    let vcl_hrd_present = reader.read_bit()?;
    if vcl_hrd_present {
        parse_hrd_parameters(reader)?;
    }
    if nal_hrd_present || vcl_hrd_present {
        reader.read_bit()?;
    }
    let pic_struct_present = reader.read_bit()?;
    let bitstream_restrictions = parse_bitstream_restrictions(reader)?;
    Ok(
        VuiParameters {
            sample_aspect_ratio,
            overscan_appropriate,
            video_format,
            color,
            chroma_sample_loc_type_top_field: top,
            chroma_sample_loc_type_bottom_field: bottom,
            timing,
            pic_struct_present,
            bitstream_restrictions,
        },
    )
}

/// The size in samples of a picture of `width_in_mbs` by `height_in_map_units`
/// macroblocks, twice as high when it may be coded as fields.
pub open spec fn coded_size_of(
    width_in_mbs: u32,
    height_in_map_units: u32,
    frame_mbs_only: bool,
) -> Result<Size> {
    let width = width_in_mbs * 16;
    let height = height_in_map_units * if frame_mbs_only {
        16
    } else {
        32int
    };
    if width > u32::MAX || height > u32::MAX {
        Err(H264Error::IntegerOverflow)
    } else {
        Ok(Size { width: width as u32, height: height as u32 })
    }
}

fn derive_coded_size(
    width_in_mbs: u32,
    height_in_map_units: u32,
    frame_mbs_only: bool,
) -> (result: Result<Size>)
    ensures
        result == coded_size_of(width_in_mbs, height_in_map_units, frame_mbs_only),
{
    let width: u32 = width_in_mbs.checked_mul(16).ok_or(H264Error::IntegerOverflow)?;
    let frame_height_factor: u32 = if frame_mbs_only {
        1
    } else {
        2
    };
    let height: u32 = height_in_map_units.checked_mul(frame_height_factor).ok_or(
        H264Error::IntegerOverflow,
    )?;
    let height: u32 = height.checked_mul(16).ok_or(H264Error::IntegerOverflow)?;
    Ok(Size::new(width, height))
}

/// How much is cut off at each side, in units of the chroma grid.
#[derive(Debug, Clone, Copy, PartialEq, Eq, Structural)]
pub struct CropOffsets {
    pub left: u32,
    pub right: u32,
    pub top: u32,
    pub bottom: u32,
}

/// What remains of a picture of `coded_size` after cropping.
pub open spec fn visible_rect_of(
    coded_size: Size,
    frame_mbs_only: bool,
    crop: Option<CropOffsets>,
) -> Result<Rect> {
    match crop {
        None => Ok(Rect { x: 0, y: 0, width: coded_size.width, height: coded_size.height }),
        Some(crop) => {
            let unit_y = if frame_mbs_only {
                2int
            } else {
                4int
            };
            let horizontal = 2 * (crop.left + crop.right);
            let vertical = unit_y * (crop.top + crop.bottom);
            if horizontal > u32::MAX || vertical > u32::MAX {
                Err(H264Error::IntegerOverflow)
            } else if horizontal > coded_size.width {
                Err(H264Error::InvalidSyntax("SPS crop exceeds coded width"))
            } else if vertical > coded_size.height {
                Err(H264Error::InvalidSyntax("SPS crop exceeds coded height"))
            } else if horizontal == coded_size.width || vertical == coded_size.height {
                Err(H264Error::InvalidSyntax("SPS crop produces an empty visible rectangle"))
            } else {
                Ok(
                    Rect {
                        x: (2 * crop.left) as u32,
                        y: (unit_y * crop.top) as u32,
                        width: (coded_size.width - horizontal) as u32,
                        height: (coded_size.height - vertical) as u32,
                    },
                )
            }
        },
    }
}

fn derive_visible_rect(
    coded_size: Size,
    frame_mbs_only: bool,
    crop_offsets: Option<CropOffsets>,
) -> (result: Result<Rect>)
    ensures
        result == visible_rect_of(coded_size, frame_mbs_only, crop_offsets),
{
    let crop = match crop_offsets {
        None => {
            return Ok(Rect::new(0, 0, coded_size.width, coded_size.height));
        },
        Some(crop) => crop,
    };
    // Only 4:2:0 streams come this far.
    let crop_unit_x: u32 = 2;
    let crop_unit_y: u32 = if frame_mbs_only {
        2
    } else {
        4
    };
    let x: u32 = crop.left.checked_mul(crop_unit_x).ok_or(H264Error::IntegerOverflow)?;
    let y: u32 = crop.top.checked_mul(crop_unit_y).ok_or(H264Error::IntegerOverflow)?;
    let columns: u32 = crop.left.checked_add(crop.right).ok_or(H264Error::IntegerOverflow)?;
    let horizontal_crop: u32 = columns.checked_mul(crop_unit_x).ok_or(
        H264Error::IntegerOverflow,
    )?;
    let rows: u32 = crop.top.checked_add(crop.bottom).ok_or(H264Error::IntegerOverflow)?;
    let vertical_crop: u32 = rows.checked_mul(crop_unit_y).ok_or(H264Error::IntegerOverflow)?;
    let width: u32 = coded_size.width.checked_sub(horizontal_crop).ok_or(
        H264Error::InvalidSyntax("SPS crop exceeds coded width"),
    )?;
    let height: u32 = coded_size.height.checked_sub(vertical_crop).ok_or(
        H264Error::InvalidSyntax("SPS crop exceeds coded height"),
    )?;
    if width == 0 || height == 0 {
        return Err(H264Error::InvalidSyntax("SPS crop produces an empty visible rectangle"));
    }
    Ok(Rect::new(x, y, width, height))
}

/// The size at which a picture is shown: its width is scaled by the sample
/// aspect ratio and rounded to the nearest integer.
pub open spec fn display_size_of(visible: Size, ratio: SampleAspectRatio) -> Result<Size> {
    let width = (visible.width * ratio.width + ratio.height as int / 2) / ratio.height as int;
    if width > u32::MAX {
        Err(H264Error::IntegerOverflow)
    } else if width == 0 {
        Err(H264Error::InvalidSyntax("sample aspect ratio produces an empty display size"))
    } else {
        Ok(Size { width: width as u32, height: visible.height })
    }
}

fn derive_display_size(visible_size: Size, sar: SampleAspectRatio) -> (result: Result<Size>)
    requires
        sar.height != 0,
    ensures
        result == display_size_of(visible_size, sar),
{
    assert(visible_size.width * sar.width <= 0xffff_ffff * 0xffff) by (nonlinear_arith)
        requires
            0 <= visible_size.width <= 0xffff_ffff,
            0 <= sar.width <= 0xffff,
    ;
    assert(0 <= visible_size.width * sar.width) by (nonlinear_arith);
    let numerator: u64 = visible_size.width as u64 * sar.width as u64;
    let denominator: u64 = sar.height as u64;
    let display_width: u64 = (numerator + denominator / 2) / denominator;
    if display_width > 0xffff_ffff {
        return Err(H264Error::IntegerOverflow);
    }
    if display_width == 0 {
        return Err(
            H264Error::InvalidSyntax("sample aspect ratio produces an empty display size"),
        );
    }
    Ok(Size::new(display_width as u32, visible_size.height))
}

/// What an SPS begins with.
pub struct SequenceHeader {
    pub profile: Profile,
    pub profile_idc: u8,
    pub constraint_flags: u8,
    pub level_idc: u8,
    pub id: u32,
}

/// Reads the profile, the level and the identifier.
pub open spec fn sequence_header_syntax(cursor: Cursor) -> (SequenceHeader, Cursor) {
    let (profile_code, cursor) = cursor.bits(8);
    let profile_idc = profile_code as u8;
    let profile = Profile::named(profile_idc);
    let cursor = cursor.require(profile is Some, H264Error::UnsupportedProfile(profile_idc));
    let (constraints, cursor) = cursor.bits(8);
    let constraint_and_reserved = constraints as u8;
    let cursor = cursor.require(
        constraint_and_reserved & 0b11 == 0,
        H264Error::InvalidSyntax("reserved_zero_2bits in SPS must be zero"),
    );
    let (level, cursor) = cursor.bits(8);
    let (id, cursor) = cursor.ue();
    let cursor = cursor.require(
        id <= 31,
        H264Error::InvalidSyntax("seq_parameter_set_id exceeds 31"),
    );
    (
        SequenceHeader {
            profile: match profile {
                Some(profile) => profile,
                None => Profile::Baseline,
            },
            profile_idc,
            constraint_flags: constraint_and_reserved & 0b1111_1100,
            level_idc: level as u8,
            id,
        },
        cursor,
    )
}

fn parse_sequence_header(reader: &mut BitReader<'_>) -> (result: Result<SequenceHeader>)
    ensures
        follows(result, *final(reader), sequence_header_syntax(old(reader).cursor())),
        final(reader).data() == old(reader).data(),
{
    let profile_idc: u8 = reader.read_bits(8)? as u8;
    let profile = Profile::from_idc(profile_idc)?;
    let constraint_and_reserved: u8 = reader.read_bits(8)? as u8;
    if constraint_and_reserved & 0b11 != 0 {
        return Err(H264Error::InvalidSyntax("reserved_zero_2bits in SPS must be zero"));
    }
    let constraint_flags: u8 = constraint_and_reserved & 0b1111_1100;
    let level_idc: u8 = reader.read_bits(8)? as u8;
    let id: u32 = reader.read_ue()?;
    if id > 31 {
        return Err(H264Error::InvalidSyntax("seq_parameter_set_id exceeds 31"));
    }
    Ok(SequenceHeader { profile, profile_idc, constraint_flags, level_idc, id })
}

/// The extended format of the High profile. Only 8-bit 4:2:0 is accepted.
pub struct SequenceFormat {
    pub qpprime_y_zero_transform_bypass: bool,
    pub scaling_matrices: Option<ScalingMatrices>,
}

/// Reads the extended format, which only the High profile has.
pub open spec fn format_syntax(cursor: Cursor, profile: Profile) -> (
    (bool, Option<Seq<Option<ScalingListView>>>),
    Cursor,
) {
    if profile != Profile::High {
        ((false, None), cursor)
    } else {
        let (chroma_format_idc, cursor) = cursor.ue();
        let cursor = cursor.require(
            chroma_format_idc == 1,
            H264Error::UnsupportedFeature("only 4:2:0 chroma_format_idc is currently supported"),
        );
        let (luma_minus8, cursor) = cursor.ue();
        let (chroma_minus8, cursor) = cursor.ue();
        let cursor = cursor.require(
            luma_minus8 <= 247 && chroma_minus8 <= 247,
            H264Error::IntegerOverflow,
        );
        let cursor = cursor.require(
            luma_minus8 == 0 && chroma_minus8 == 0,
            H264Error::UnsupportedFeature("only 8-bit H.264 pictures are currently supported"),
        );
        let (bypass, cursor) = cursor.flag();
        let (present, cursor) = cursor.flag();
        if present {
            let (lists, cursor) = scaling_matrices_syntax(cursor, 8, Seq::empty());
            ((bypass, Some(lists)), cursor)
        } else {
            ((bypass, None), cursor)
        }
    }
}

fn parse_format(reader: &mut BitReader<'_>, profile: Profile) -> (result: Result<SequenceFormat>)
    ensures
        ({
            let step = format_syntax(old(reader).cursor(), profile);
            match result {
                Ok(format) => step.1.error is None && final(reader).cursor() == step.1 && step.0
                    == (format.qpprime_y_zero_transform_bypass, matrices_view(
                    format.scaling_matrices,
                )),
                Err(error) => step.1.error == Some(error),
            }
        }),
        final(reader).data() == old(reader).data(),
{
    if profile != Profile::High {
        return Ok(
            SequenceFormat { qpprime_y_zero_transform_bypass: false, scaling_matrices: None },
        );
    }
    let chroma_format_idc: u32 = reader.read_ue()?;
    if chroma_format_idc != 1 {
        return Err(
            H264Error::UnsupportedFeature("only 4:2:0 chroma_format_idc is currently supported"),
        );
    }
    let bit_depth_luma_minus8: u32 = reader.read_ue()?;
    let bit_depth_chroma_minus8: u32 = reader.read_ue()?;
    let bit_depth_luma: u8 = add_u8(bit_depth_luma_minus8, 8)?;
    let bit_depth_chroma: u8 = add_u8(bit_depth_chroma_minus8, 8)?;
    if bit_depth_luma != 8 || bit_depth_chroma != 8 {
        return Err(
            H264Error::UnsupportedFeature("only 8-bit H.264 pictures are currently supported"),
        );
    }
    let qpprime_y_zero_transform_bypass = reader.read_bit()?;
    let scaling_matrices = if reader.read_bit()? {
        Some(parse_scaling_matrices(reader, 8)?)
    } else {
        None
    };
    Ok(SequenceFormat { qpprime_y_zero_transform_bypass, scaling_matrices })
}

fn add_u8(value: u32, addend: u8) -> (result: Result<u8>)
    ensures
        result == if value + addend > 255 {
            Err::<u8, H264Error>(H264Error::IntegerOverflow)
        } else {
            Ok((value + addend) as u8)
        },
{
    match value.checked_add(addend as u32) {
        Some(sum) => if sum <= 255 {
            Ok(sum as u8)
        } else {
            Err(H264Error::IntegerOverflow)
        },
        None => Err(H264Error::IntegerOverflow),
    }
}

fn add_u32(value: u32, addend: u32) -> (result: Result<u32>)
    ensures
        result == if value + addend > u32::MAX {
            Err::<u32, H264Error>(H264Error::IntegerOverflow)
        } else {
            Ok((value + addend) as u32)
        },
{
    value.checked_add(addend).ok_or(H264Error::IntegerOverflow)
}

/// Reads signed offsets until there are `count` of them.
pub open spec fn offsets_syntax(cursor: Cursor, count: nat, offsets: Seq<i32>) -> (
    Seq<i32>,
    Cursor,
)
    decreases count - offsets.len(),
{
    if cursor.error is Some || offsets.len() >= count {
        (offsets, cursor)
    } else {
        let (offset, cursor) = cursor.se();
        offsets_syntax(cursor, count, offsets.push(offset))
    }
}

/// Reads the picture order count parameters.
pub open spec fn pic_order_count_syntax(cursor: Cursor) -> (PicOrderCountView, Cursor) {
    let (kind, cursor) = cursor.ue();
    if cursor.error is Some {
        (PicOrderCountView::Type2, cursor)
    } else if kind == 0 {
        let (minus4, cursor) = cursor.ue();
        let cursor = cursor.require(
            minus4 <= 12,
            H264Error::InvalidSyntax("log2_max_pic_order_cnt_lsb_minus4 exceeds 12"),
        );
        (PicOrderCountView::Type0 { log2_max_pic_order_cnt_lsb: (minus4 + 4) as u8 }, cursor)
    } else if kind == 1 {
        let (delta_pic_order_always_zero, cursor) = cursor.flag();
        let (offset_for_non_ref_pic, cursor) = cursor.se();
        let (offset_for_top_to_bottom_field, cursor) = cursor.se();
        let (cycle_length, cursor) = cursor.ue();
        let cursor = cursor.require(
            cycle_length <= 255,
            H264Error::InvalidSyntax("num_ref_frames_in_pic_order_cnt_cycle exceeds 255"),
        );
        let (offset_for_ref_frame, cursor) = offsets_syntax(
            cursor,
            cycle_length as nat,
            Seq::empty(),
        );
        (
            PicOrderCountView::Type1 {
                delta_pic_order_always_zero,
                offset_for_non_ref_pic,
                offset_for_top_to_bottom_field,
                offset_for_ref_frame,
            },
            cursor,
        )
    } else {
        (
            PicOrderCountView::Type2,
            cursor.require(
                kind == 2,
                H264Error::InvalidSyntax("pic_order_cnt_type must be 0, 1, or 2"),
            ),
        )
    }
}

fn parse_pic_order_count(reader: &mut BitReader<'_>) -> (result: Result<PicOrderCount>)
    ensures
        follows_view(result, *final(reader), pic_order_count_syntax(old(reader).cursor())),
        final(reader).data() == old(reader).data(),
{
    let kind: u32 = reader.read_ue()?;
    if kind == 0 {
        let minus4: u32 = reader.read_ue()?;
        if minus4 > 12 {
            return Err(
                H264Error::InvalidSyntax("log2_max_pic_order_cnt_lsb_minus4 exceeds 12"),
            );
        }
        return Ok(PicOrderCount::Type0 { log2_max_pic_order_cnt_lsb: (minus4 + 4) as u8 });
    }
    if kind == 2 {
        return Ok(PicOrderCount::Type2);
    }
    if kind != 1 {
        return Err(H264Error::InvalidSyntax("pic_order_cnt_type must be 0, 1, or 2"));
    }
    let delta_pic_order_always_zero = reader.read_bit()?;
    let offset_for_non_ref_pic: i32 = reader.read_se()?;
    let offset_for_top_to_bottom_field: i32 = reader.read_se()?;
    let cycle_length: u32 = reader.read_ue()?;
    if cycle_length > 255 {
        return Err(
            H264Error::InvalidSyntax("num_ref_frames_in_pic_order_cnt_cycle exceeds 255"),
        );
    }
    let ghost start = reader.cursor();
    let mut offset_for_ref_frame: Vec<i32> = Vec::with_capacity(cycle_length as usize);
    let mut index: u32 = 0;
    while index < cycle_length
        invariant
            index <= cycle_length,
            offset_for_ref_frame@.len() == index,
            reader.data() == old(reader).data(),
            offsets_syntax(start, cycle_length as nat, Seq::empty()) == offsets_syntax(
                reader.cursor(),
                cycle_length as nat,
                offset_for_ref_frame@,
            ),
            pic_order_count_syntax(old(reader).cursor()).1 == offsets_syntax(
                start,
                cycle_length as nat,
                Seq::empty(),
            ).1,
        decreases cycle_length - index,
    {
        proof {
            reveal_with_fuel(offsets_syntax, 2);
        }
        let offset: i32 = reader.read_se()?;
        offset_for_ref_frame.push(offset);
        index = index + 1;
    }
    Ok(
        PicOrderCount::Type1 {
            delta_pic_order_always_zero,
            offset_for_non_ref_pic,
            offset_for_top_to_bottom_field,
            offset_for_ref_frame,
        },
    )
}

/// The frame geometry of an SPS.
pub struct FrameLayout {
    pub max_num_ref_frames: u32,
    pub gaps_in_frame_num_value_allowed: bool,
    pub pic_width_in_mbs: u32,
    pub pic_height_in_map_units: u32,
    pub frame_mbs_only: bool,
    pub mb_adaptive_frame_field: bool,
    pub direct_8x8_inference: bool,
    pub crop: Option<CropOffsets>,
}

/// Reads the cropping offsets.
pub open spec fn crop_syntax(cursor: Cursor) -> (Option<CropOffsets>, Cursor) {
    let (present, cursor) = cursor.flag();
    if !present {
        (None, cursor)
    } else {
        let (left, cursor) = cursor.ue();
        let (right, cursor) = cursor.ue();
        let (top, cursor) = cursor.ue();
        let (bottom, cursor) = cursor.ue();
        (Some(CropOffsets { left, right, top, bottom }), cursor)
    }
}

/// Reads the frame geometry.
pub open spec fn layout_syntax(cursor: Cursor) -> (FrameLayout, Cursor) {
    let (max_num_ref_frames, cursor) = cursor.ue();
    let (gaps_in_frame_num_value_allowed, cursor) = cursor.flag();
    let (width_minus1, cursor) = cursor.ue();
    let cursor = cursor.require(width_minus1 < u32::MAX, H264Error::IntegerOverflow);
    let (height_minus1, cursor) = cursor.ue();
    let cursor = cursor.require(height_minus1 < u32::MAX, H264Error::IntegerOverflow);
    let (frame_mbs_only, cursor) = cursor.flag();
    let (mb_adaptive_frame_field, cursor) = if frame_mbs_only {
        (false, cursor)
    } else {
        cursor.flag()
    };
    let (direct_8x8_inference, cursor) = cursor.flag();
    let (crop, cursor) = crop_syntax(cursor);
    (
        FrameLayout {
            max_num_ref_frames,
            gaps_in_frame_num_value_allowed,
            pic_width_in_mbs: (width_minus1 + 1) as u32,
            pic_height_in_map_units: (height_minus1 + 1) as u32,
            frame_mbs_only,
            mb_adaptive_frame_field,
            direct_8x8_inference,
            crop,
        },
        cursor,
    )
}

fn parse_layout(reader: &mut BitReader<'_>) -> (result: Result<FrameLayout>)
    ensures
        follows(result, *final(reader), layout_syntax(old(reader).cursor())),
        final(reader).data() == old(reader).data(),
{
    let max_num_ref_frames: u32 = reader.read_ue()?;
    let gaps_in_frame_num_value_allowed = reader.read_bit()?;
    let pic_width_in_mbs: u32 = add_u32(reader.read_ue()?, 1)?;
    let pic_height_in_map_units: u32 = add_u32(reader.read_ue()?, 1)?;
    let frame_mbs_only = reader.read_bit()?;
    let mb_adaptive_frame_field = if frame_mbs_only {
        false
    } else {
        reader.read_bit()?
    };
    let direct_8x8_inference = reader.read_bit()?;
    let crop = if reader.read_bit()? {
        let left: u32 = reader.read_ue()?;
        let right: u32 = reader.read_ue()?;
        let top: u32 = reader.read_ue()?;
        let bottom: u32 = reader.read_ue()?;
        Some(CropOffsets { left, right, top, bottom })
    } else {
        None
    };
    Ok(
        FrameLayout {
            max_num_ref_frames,
            gaps_in_frame_num_value_allowed,
            pic_width_in_mbs,
            pic_height_in_map_units,
            frame_mbs_only,
            mb_adaptive_frame_field,
            direct_8x8_inference,
            crop,
        },
    )
}

/// The sample aspect ratio of a picture, square where nothing says otherwise.
pub open spec fn aspect_ratio_of(vui: Option<VuiParameters>) -> SampleAspectRatio {
    match vui {
        Some(vui) => match vui.sample_aspect_ratio {
            Some(ratio) => ratio,
            None => SampleAspectRatio { width: 1, height: 1 },
        },
        None => SampleAspectRatio { width: 1, height: 1 },
    }
}

/// Fails with the error of `result`, if it is one.
pub open spec fn require_ok<T>(cursor: Cursor, result: Result<T>) -> Cursor {
    match result {
        Ok(_) => cursor,
        Err(error) => cursor.fail(error),
    }
}

/// Reads a whole sequence parameter set.
pub open spec fn sequence_syntax(data: Seq<u8>) -> (SequenceView, Cursor) {
    let cursor = Cursor { data, position: 0, error: None };
    let (header, cursor) = sequence_header_syntax(cursor);
    let ((bypass, scaling_matrices), cursor) = format_syntax(cursor, header.profile);
    let (log2_minus4, cursor) = cursor.ue();
    let cursor = cursor.require(
        log2_minus4 <= 12,
        H264Error::InvalidSyntax("log2_max_frame_num_minus4 exceeds 12"),
    );
    let (pic_order_count, cursor) = pic_order_count_syntax(cursor);
    let (layout, cursor) = layout_syntax(cursor);
    let (vui_present, cursor) = cursor.flag();
    let (vui, cursor) = if vui_present {
        (Some(vui_syntax(cursor).0), vui_syntax(cursor).1)
    } else {
        (None, cursor)
    };
    let cursor = trailing_bits(cursor).1;
    let coded_size = coded_size_of(
        layout.pic_width_in_mbs,
        layout.pic_height_in_map_units,
        layout.frame_mbs_only,
    );
    let cursor = require_ok(cursor, coded_size);
    let visible_rect = visible_rect_of(coded_size->Ok_0, layout.frame_mbs_only, layout.crop);
    let cursor = require_ok(cursor, visible_rect);
    let visible = visible_rect->Ok_0;
    let display_size = display_size_of(
        Size { width: visible.width, height: visible.height },
        aspect_ratio_of(vui),
    );
    let cursor = require_ok(cursor, display_size);
    (
        SequenceView {
            id: header.id,
            profile: header.profile,
            profile_idc: header.profile_idc,
            constraint_flags: header.constraint_flags,
            level_idc: header.level_idc,
            bit_depth_luma: 8,
            bit_depth_chroma: 8,
            qpprime_y_zero_transform_bypass: bypass,
            scaling_matrices,
            log2_max_frame_num: (log2_minus4 + 4) as u8,
            pic_order_count,
            max_num_ref_frames: layout.max_num_ref_frames,
            gaps_in_frame_num_value_allowed: layout.gaps_in_frame_num_value_allowed,
            pic_width_in_mbs: layout.pic_width_in_mbs,
            pic_height_in_map_units: layout.pic_height_in_map_units,
            frame_mbs_only: layout.frame_mbs_only,
            mb_adaptive_frame_field: layout.mb_adaptive_frame_field,
            direct_8x8_inference: layout.direct_8x8_inference,
            coded_size: coded_size->Ok_0,
            visible_rect: visible,
            display_size: display_size->Ok_0,
            vui,
        },
        cursor,
    )
}

impl SequenceParameterSet {
    /// Parses one unescaped SPS RBSP, including its trailing bits.
    pub fn parse(rbsp: &[u8]) -> (result: Result<Self>)
        ensures
            match result {
                Ok(sps) => sequence_syntax(rbsp@).1.error is None && sps@ == sequence_syntax(
                    rbsp@,
                ).0,
                Err(error) => sequence_syntax(rbsp@).1.error == Some(error),
            },
    {
        let mut reader = BitReader::new(rbsp);
        let header = parse_sequence_header(&mut reader)?;
        let format = parse_format(&mut reader, header.profile)?;
        let log2_max_frame_num_minus4: u32 = reader.read_ue()?;
        if log2_max_frame_num_minus4 > 12 {
            return Err(H264Error::InvalidSyntax("log2_max_frame_num_minus4 exceeds 12"));
        }
        let log2_max_frame_num: u8 = (log2_max_frame_num_minus4 + 4) as u8;
        let pic_order_count = parse_pic_order_count(&mut reader)?;
        let layout = parse_layout(&mut reader)?;
        let vui = if reader.read_bit()? {
            Some(parse_vui(&mut reader)?)
        } else {
            None
        };
        consume_rbsp_trailing_bits(&mut reader)?;
        let coded_size = derive_coded_size(
            layout.pic_width_in_mbs,
            layout.pic_height_in_map_units,
            layout.frame_mbs_only,
        )?;
        let visible_rect = derive_visible_rect(coded_size, layout.frame_mbs_only, layout.crop)?;
        let ratio = match vui {
            Some(vui) => match vui.sample_aspect_ratio {
                Some(ratio) => ratio,
                None => SampleAspectRatio::default(),
            },
            None => SampleAspectRatio::default(),
        };
        let display_size = derive_display_size(visible_rect.size(), ratio)?;
        Ok(
            SequenceParameterSet {
                id: header.id,
                profile: header.profile,
                profile_idc: header.profile_idc,
                constraint_flags: header.constraint_flags,
                level_idc: header.level_idc,
                bit_depth_luma: 8,
                bit_depth_chroma: 8,
                qpprime_y_zero_transform_bypass: format.qpprime_y_zero_transform_bypass,
                scaling_matrices: format.scaling_matrices,
                log2_max_frame_num,
                pic_order_count,
                max_num_ref_frames: layout.max_num_ref_frames,
                gaps_in_frame_num_value_allowed: layout.gaps_in_frame_num_value_allowed,
                pic_width_in_mbs: layout.pic_width_in_mbs,
                pic_height_in_map_units: layout.pic_height_in_map_units,
                frame_mbs_only: layout.frame_mbs_only,
                mb_adaptive_frame_field: layout.mb_adaptive_frame_field,
                direct_8x8_inference: layout.direct_8x8_inference,
                coded_size,
                visible_rect,
                display_size,
                vui,
            },
        )
    }
}

} // verus!
