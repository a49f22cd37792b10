//! Slice-header parsing and slice-data dispatch.

use vstd::prelude::*;

use super::bits::{follows, follows_view, BitReader, Cursor};
use super::error::{H264Error, Result};
use super::nal::{NalHeader, NalUnitType};
use super::parameter_sets::{
    valid_picture, valid_sequence, ActiveParameterSets, ParameterSetStore,
};
use super::pps::{
    plus_one_syntax, read_plus_one, reference_count_syntax, EntropyCodingMode,
    PictureParameterSet, PictureView, SliceGroupMap, SliceGroupMapView, WeightedBiprediction,
};
use super::sps::{PicOrderCount, PicOrderCountView, SequenceParameterSet, SequenceView};

verus! {

const MAX_LIST_OPERATIONS: usize = 64;

#[derive(Debug, Clone, Copy, PartialEq, Eq, Structural)]
pub enum SliceType {
    P,
    B,
    I,
    Sp,
    Si,
}

impl SliceType {
    /// The slice type with the code `value`; 5 to 9 repeat 0 to 4.
    pub open spec fn of_code(value: u32) -> Option<SliceType> {
        if value > 9 {
            None
        } else if value % 5 == 0 {
            Some(SliceType::P)
        } else if value % 5 == 1 {
            Some(SliceType::B)
        } else if value % 5 == 2 {
            Some(SliceType::I)
        } else if value % 5 == 3 {
            Some(SliceType::Sp)
        } else {
            Some(SliceType::Si)
        }
    }

    /// Whether no other picture is used for prediction.
    pub open spec fn intra(self) -> bool {
        self is I || self is Si
    }

    fn parse(value: u32) -> (result: Result<Self>)
        ensures
            result == match SliceType::of_code(value) {
                Some(slice_type) => Ok::<SliceType, H264Error>(slice_type),
                None => Err(H264Error::InvalidSyntax("slice_type exceeds 9")),
            },
    {
        match value {
            0 | 5 => Ok(SliceType::P),
            1 | 6 => Ok(SliceType::B),
            2 | 7 => Ok(SliceType::I),
            3 | 8 => Ok(SliceType::Sp),
            4 | 9 => Ok(SliceType::Si),
            _ => Err(H264Error::InvalidSyntax("slice_type exceeds 9")),
        }
    }

    pub fn is_intra(self) -> (intra: bool)
        ensures
            intra == self.intra(),
    {
        match self {
            SliceType::I | SliceType::Si => true,
            _ => false,
        }
    }
}

#[derive(Debug, Clone, Copy, PartialEq, Eq)]
pub struct SlicePictureOrder {
    pub pic_order_cnt_lsb: Option<u32>,
    pub delta_pic_order_bottom: Option<i32>,
    pub delta_pic_order: [Option<i32>; 2],
}

#[derive(Debug, Clone, Copy, PartialEq, Eq, Structural)]
pub enum ReferenceListModification {
    SubtractPicNum { abs_diff_pic_num: u32 },
    AddPicNum { abs_diff_pic_num: u32 },
    LongTerm { long_term_pic_num: u32 },
}

#[derive(Debug, Clone, Copy, PartialEq, Eq, Structural)]
pub struct WeightOffset {
    pub weight: i32,
    pub offset: i32,
}

#[derive(Debug, Clone, Copy, PartialEq, Eq)]
pub struct PredictionWeight {
    pub luma: Option<WeightOffset>,
    pub chroma: Option<[WeightOffset; 2]>,
}

#[derive(Debug, Clone, PartialEq, Eq)]
pub struct PredictionWeightTable {
    pub luma_log2_weight_denom: u8,
    pub chroma_log2_weight_denom: u8,
    pub list0: Vec<PredictionWeight>,
    pub list1: Vec<PredictionWeight>,
}

/// A weight table with its lists as sequences.
pub struct WeightTableView {
    pub luma_log2_weight_denom: u8,
    pub chroma_log2_weight_denom: u8,
    pub list0: Seq<PredictionWeight>,
    pub list1: Seq<PredictionWeight>,
}

impl View for PredictionWeightTable {
    type V = WeightTableView;

    open spec fn view(&self) -> WeightTableView {
        WeightTableView {
            luma_log2_weight_denom: self.luma_log2_weight_denom,
            chroma_log2_weight_denom: self.chroma_log2_weight_denom,
            list0: self.list0@,
            list1: self.list1@,
        }
    }
}

#[derive(Debug, Clone, Copy, PartialEq, Eq, Structural)]
pub enum MemoryManagementOperation {
    ForgetShortTerm { difference_of_pic_nums: u32 },
    ForgetLongTerm { long_term_pic_num: u32 },
    AssignLongTerm { difference_of_pic_nums: u32, long_term_frame_idx: u32 },
    LimitLongTerm { max_long_term_frame_idx_plus1: u32 },
    ForgetAll,
    MarkCurrentLongTerm { long_term_frame_idx: u32 },
}

#[derive(Debug, Clone, PartialEq, Eq)]
pub enum ReferencePictureMarking {
    /// The picture is not used for reference.
    Unmarked,
    Idr { no_output_of_prior_pictures: bool, long_term_reference: bool },
    SlidingWindow,
    Adaptive(Vec<MemoryManagementOperation>),
}

/// A reference marking with its operations as a sequence.
pub enum MarkingView {
    Unmarked,
    Idr { no_output_of_prior_pictures: bool, long_term_reference: bool },
    SlidingWindow,
    Adaptive(Seq<MemoryManagementOperation>),
}

impl View for ReferencePictureMarking {
    type V = MarkingView;

    open spec fn view(&self) -> MarkingView {
        match self {
            ReferencePictureMarking::Unmarked => MarkingView::Unmarked,
            ReferencePictureMarking::Idr { no_output_of_prior_pictures, long_term_reference } => {
                MarkingView::Idr {
                    no_output_of_prior_pictures: *no_output_of_prior_pictures,
                    long_term_reference: *long_term_reference,
                }
            },
            ReferencePictureMarking::SlidingWindow => MarkingView::SlidingWindow,
            ReferencePictureMarking::Adaptive(operations) => MarkingView::Adaptive(operations@),
        }
    }
}

#[derive(Debug, Clone, Copy, PartialEq, Eq, Structural)]
pub struct DeblockingFilter {
    /// Zero enables filtering, one disables it, and two enables filtering
    /// except across slice boundaries.
    pub idc: u8,
    pub alpha_c0_offset_div2: i8,
    pub beta_offset_div2: i8,
}

impl Default for DeblockingFilter {
    fn default() -> (filter: Self)
        ensures
            filter == (DeblockingFilter { idc: 0, alpha_c0_offset_div2: 0, beta_offset_div2: 0 }),
    {
        DeblockingFilter { idc: 0, alpha_c0_offset_div2: 0, beta_offset_div2: 0 }
    }
}

#[derive(Debug, Clone, PartialEq, Eq)]
pub struct SliceHeader {
    pub first_mb_in_slice: u32,
    pub slice_type: SliceType,
    /// True for the duplicate slice-type codes 5 through 9.
    pub all_slices_same_type: bool,
    pub picture_parameter_set_id: u32,
    pub frame_num: u32,
    pub field_picture: bool,
    pub bottom_field: bool,
    pub idr_pic_id: Option<u32>,
    pub picture_order: SlicePictureOrder,
    pub redundant_pic_count: Option<u32>,
    pub direct_spatial_mv_prediction: Option<bool>,
    pub num_ref_idx_l0_active: u8,
    pub num_ref_idx_l1_active: u8,
    pub ref_pic_list_modifications_l0: Vec<ReferenceListModification>,
    pub ref_pic_list_modifications_l1: Vec<ReferenceListModification>,
    pub prediction_weights: Option<PredictionWeightTable>,
    pub reference_picture_marking: ReferencePictureMarking,
    pub cabac_init_idc: Option<u8>,
    pub slice_qp_y: u8,
    pub sp_for_switch: Option<bool>,
    pub slice_qs_y: Option<u8>,
    pub deblocking_filter: Option<DeblockingFilter>,
    pub slice_group_change_cycle: Option<u32>,
    /// Number of RBSP bits consumed by the header. Slice data starts here.
    pub bit_size: usize,
}

/// What a slice header begins with.
#[derive(Clone, Copy)]
pub struct SliceFront {
    pub first_mb_in_slice: u32,
    pub slice_type: SliceType,
    pub all_slices_same_type: bool,
    pub picture_parameter_set_id: u32,
}

/// Which picture a slice belongs to.
#[derive(Clone, Copy)]
pub struct SlicePicture {
    pub frame_num: u32,
    pub field_picture: bool,
    pub bottom_field: bool,
    pub idr_pic_id: Option<u32>,
    pub picture_order: SlicePictureOrder,
    pub redundant_pic_count: Option<u32>,
    pub direct_spatial_mv_prediction: Option<bool>,
}

/// How a slice uses and marks reference pictures.
pub struct SliceReferences {
    pub num_ref_idx_l0_active: u8,
    pub num_ref_idx_l1_active: u8,
    pub ref_pic_list_modifications_l0: Vec<ReferenceListModification>,
    pub ref_pic_list_modifications_l1: Vec<ReferenceListModification>,
    pub prediction_weights: Option<PredictionWeightTable>,
    pub reference_picture_marking: ReferencePictureMarking,
}

/// The use of reference pictures with its lists as sequences.
pub struct ReferencesView {
    pub num_ref_idx_l0_active: u8,
    pub num_ref_idx_l1_active: u8,
    pub ref_pic_list_modifications_l0: Seq<ReferenceListModification>,
    pub ref_pic_list_modifications_l1: Seq<ReferenceListModification>,
    pub prediction_weights: Option<WeightTableView>,
    pub reference_picture_marking: MarkingView,
}

/// The view of an optional weight table.
pub open spec fn table_view(table: Option<PredictionWeightTable>) -> Option<WeightTableView> {
    match table {
        Some(table) => Some(table@),
        None => None,
    }
}

impl View for SliceReferences {
    type V = ReferencesView;

    open spec fn view(&self) -> ReferencesView {
        ReferencesView {
            num_ref_idx_l0_active: self.num_ref_idx_l0_active,
            num_ref_idx_l1_active: self.num_ref_idx_l1_active,
            ref_pic_list_modifications_l0: self.ref_pic_list_modifications_l0@,
            ref_pic_list_modifications_l1: self.ref_pic_list_modifications_l1@,
            prediction_weights: table_view(self.prediction_weights),
            reference_picture_marking: self.reference_picture_marking@,
        }
    }
}

/// How the data of a slice is decoded and filtered.
#[derive(Clone, Copy)]
pub struct SliceControls {
    pub cabac_init_idc: Option<u8>,
    pub slice_qp_y: u8,
    pub sp_for_switch: Option<bool>,
    pub slice_qs_y: Option<u8>,
    pub deblocking_filter: Option<DeblockingFilter>,
    pub slice_group_change_cycle: Option<u32>,
}

/// A slice header by its parts.
pub struct SliceHeaderView {
    pub front: SliceFront,
    pub picture: SlicePicture,
    pub references: ReferencesView,
    pub controls: SliceControls,
    pub bit_size: int,
}

impl View for SliceHeader {
    type V = SliceHeaderView;

    open spec fn view(&self) -> SliceHeaderView {
        SliceHeaderView {
            front: SliceFront {
                first_mb_in_slice: self.first_mb_in_slice,
                slice_type: self.slice_type,
                all_slices_same_type: self.all_slices_same_type,
                picture_parameter_set_id: self.picture_parameter_set_id,
            },
            picture: SlicePicture {
                frame_num: self.frame_num,
                field_picture: self.field_picture,
                bottom_field: self.bottom_field,
                idr_pic_id: self.idr_pic_id,
                picture_order: self.picture_order,
                redundant_pic_count: self.redundant_pic_count,
                direct_spatial_mv_prediction: self.direct_spatial_mv_prediction,
            },
            references: ReferencesView {
                num_ref_idx_l0_active: self.num_ref_idx_l0_active,
                num_ref_idx_l1_active: self.num_ref_idx_l1_active,
                ref_pic_list_modifications_l0: self.ref_pic_list_modifications_l0@,
                ref_pic_list_modifications_l1: self.ref_pic_list_modifications_l1@,
                prediction_weights: table_view(self.prediction_weights),
                reference_picture_marking: self.reference_picture_marking@,
            },
            controls: SliceControls {
                cabac_init_idc: self.cabac_init_idc,
                slice_qp_y: self.slice_qp_y,
                sp_for_switch: self.sp_for_switch,
                slice_qs_y: self.slice_qs_y,
                deblocking_filter: self.deblocking_filter,
                slice_group_change_cycle: self.slice_group_change_cycle,
            },
            bit_size: self.bit_size as int,
        }
    }
}

/// Reads the first macroblock, the slice type and the PPS identifier.
pub open spec fn front_syntax(cursor: Cursor, is_idr: bool) -> (SliceFront, Cursor) {
    let (first_mb_in_slice, cursor) = cursor.ue();
    let (code, cursor) = cursor.ue();
    let slice_type = SliceType::of_code(code);
    let cursor = cursor.require(
        slice_type is Some,
        H264Error::InvalidSyntax("slice_type exceeds 9"),
    );
    let slice_type = match slice_type {
        Some(slice_type) => slice_type,
        None => SliceType::I,
    };
    let cursor = cursor.require(
        is_idr ==> slice_type.intra(),
        H264Error::InvalidSyntax("IDR NAL unit must contain an intra slice"),
    );
    let (picture_parameter_set_id, cursor) = cursor.ue();
    let cursor = cursor.require(
        picture_parameter_set_id <= 255,
        H264Error::InvalidSyntax("pic_parameter_set_id in slice exceeds 255"),
    );
    (
        SliceFront {
            first_mb_in_slice,
            slice_type,
            all_slices_same_type: code >= 5,
            picture_parameter_set_id,
        },
        cursor,
    )
}

fn parse_front(reader: &mut BitReader<'_>, is_idr: bool) -> (result: Result<SliceFront>)
    ensures
        follows(result, *final(reader), front_syntax(old(reader).cursor(), is_idr)),
        final(reader).data() == old(reader).data(),
{
    let first_mb_in_slice: u32 = reader.read_ue()?;
    let slice_type_code: u32 = reader.read_ue()?;
    let slice_type = SliceType::parse(slice_type_code)?;
    let all_slices_same_type = slice_type_code >= 5;
    if is_idr && !slice_type.is_intra() {
        return Err(H264Error::InvalidSyntax("IDR NAL unit must contain an intra slice"));
    }
    let picture_parameter_set_id: u32 = reader.read_ue()?;
    if picture_parameter_set_id > 255 {
        return Err(H264Error::InvalidSyntax("pic_parameter_set_id in slice exceeds 255"));
    }
    Ok(
        SliceFront {
            first_mb_in_slice,
            slice_type,
            all_slices_same_type,
            picture_parameter_set_id,
        },
    )
}

/// Whether the first macroblock lies in the picture, counted in pairs where
/// frame and field macroblocks alternate.
#[verifier::opaque]
pub open spec fn first_macroblock_check(
    first_mb_in_slice: u32,
    sps: SequenceView,
    field_picture: bool,
) -> Result<()> {
    let frame_height = sps.pic_height_in_map_units * if sps.frame_mbs_only {
        1
    } else {
        2int
    };
    let height = if field_picture {
        frame_height / 2
    } else {
        frame_height
    };
    let picture_size = sps.pic_width_in_mbs * height;
    let address = first_mb_in_slice * if sps.mb_adaptive_frame_field && !field_picture {
        2
    } else {
        1int
    };
    if frame_height > u32::MAX || picture_size > u32::MAX || address > u32::MAX {
        Err(H264Error::IntegerOverflow)
    } else if address >= picture_size {
        Err(H264Error::InvalidSyntax("first_mb_in_slice exceeds picture size"))
    } else {
        Ok(())
    }
}

fn validate_first_macroblock(
    first_mb_in_slice: u32,
    sps: &SequenceParameterSet,
    field_picture: bool,
) -> (result: Result<()>)
    ensures
        result == first_macroblock_check(first_mb_in_slice, sps@, field_picture),
{
    proof {
        reveal(first_macroblock_check);
    }
    let factor: u32 = if sps.frame_mbs_only {
        1
    } else {
        2
    };
    let frame_height: u32 = sps.pic_height_in_map_units.checked_mul(factor).ok_or(
        H264Error::IntegerOverflow,
    )?;
    let height_in_mbs: u32 = if field_picture {
        frame_height / 2
    } else {
        frame_height
    };
    let picture_size_in_mbs: u32 = sps.pic_width_in_mbs.checked_mul(height_in_mbs).ok_or(
        H264Error::IntegerOverflow,
    )?;
    let mbaff_factor: u32 = if sps.mb_adaptive_frame_field && !field_picture {
        2
    } else {
        1
    };
    let first_mb_address: u32 = first_mb_in_slice.checked_mul(mbaff_factor).ok_or(
        H264Error::IntegerOverflow,
    )?;
    if first_mb_address >= picture_size_in_mbs {
        return Err(H264Error::InvalidSyntax("first_mb_in_slice exceeds picture size"));
    }
    Ok(())
}

/// Reads the picture order fields that the SPS and PPS call for.
pub open spec fn picture_order_syntax(
    cursor: Cursor,
    sps: SequenceView,
    pps: PictureView,
    field_picture: bool,
) -> (SlicePictureOrder, Cursor) {
    let bottom_present = pps.bottom_field_pic_order_in_frame_present && !field_picture;
    match sps.pic_order_count {
        PicOrderCountView::Type0 { log2_max_pic_order_cnt_lsb } => {
            let (lsb, cursor) = cursor.bits(log2_max_pic_order_cnt_lsb as nat);
            let (bottom, cursor) = if bottom_present {
                (Some(cursor.se().0), cursor.se().1)
            } else {
                (None, cursor)
            };
            (
                SlicePictureOrder {
                    pic_order_cnt_lsb: Some(lsb),
                    delta_pic_order_bottom: bottom,
                    delta_pic_order: [None, None],
                },
                cursor,
            )
        },
        PicOrderCountView::Type1 { delta_pic_order_always_zero, .. } => {
            if delta_pic_order_always_zero {
                (
                    SlicePictureOrder {
                        pic_order_cnt_lsb: None,
                        delta_pic_order_bottom: None,
                        delta_pic_order: [None, None],
                    },
                    cursor,
                )
            } else {
                let (first, cursor) = cursor.se();
                let (second, cursor) = if bottom_present {
                    (Some(cursor.se().0), cursor.se().1)
                } else {
                    (None, cursor)
                };
                (
                    SlicePictureOrder {
                        pic_order_cnt_lsb: None,
                        delta_pic_order_bottom: None,
                        delta_pic_order: [Some(first), second],
                    },
                    cursor,
                )
            }
        },
        PicOrderCountView::Type2 => (
            SlicePictureOrder {
                pic_order_cnt_lsb: None,
                delta_pic_order_bottom: None,
                delta_pic_order: [None, None],
            },
            cursor,
        ),
    }
}

fn parse_picture_order(
    reader: &mut BitReader<'_>,
    sps: &SequenceParameterSet,
    pps: &PictureParameterSet,
    field_picture: bool,
) -> (result: Result<SlicePictureOrder>)
    requires
        valid_sequence(sps@),
    ensures
        follows(
            result,
            *final(reader),
            picture_order_syntax(old(reader).cursor(), sps@, pps@, field_picture),
        ),
        final(reader).data() == old(reader).data(),
{
    let bottom_present = pps.bottom_field_pic_order_in_frame_present && !field_picture;
    match &sps.pic_order_count {
        PicOrderCount::Type0 { log2_max_pic_order_cnt_lsb } => {
            let lsb: u32 = reader.read_bits(*log2_max_pic_order_cnt_lsb as u32)?;
            let delta_pic_order_bottom = if bottom_present {
                Some(reader.read_se()?)
            } else {
                None
            };
            Ok(
                SlicePictureOrder {
                    pic_order_cnt_lsb: Some(lsb),
                    delta_pic_order_bottom,
                    delta_pic_order: [None, None],
                },
            )
        },
        PicOrderCount::Type1 { delta_pic_order_always_zero, .. } => {
            if *delta_pic_order_always_zero {
                return Ok(
                    SlicePictureOrder {
                        pic_order_cnt_lsb: None,
                        delta_pic_order_bottom: None,
                        delta_pic_order: [None, None],
                    },
                );
            }
            let first: i32 = reader.read_se()?;
            let second = if bottom_present {
                Some(reader.read_se()?)
            } else {
                None
            };
            Ok(
                SlicePictureOrder {
                    pic_order_cnt_lsb: None,
                    delta_pic_order_bottom: None,
                    delta_pic_order: [Some(first), second],
                },
            )
        },
        PicOrderCount::Type2 => Ok(
            SlicePictureOrder {
                pic_order_cnt_lsb: None,
                delta_pic_order_bottom: None,
                delta_pic_order: [None, None],
            },
        ),
    }
}

/// Which frame or field a slice belongs to.
#[derive(Clone, Copy)]
pub struct SliceFrame {
    pub frame_num: u32,
    pub field_picture: bool,
    pub bottom_field: bool,
    pub idr_pic_id: Option<u32>,
}

/// Reads the frame number, the field flags and the IDR identifier.
#[verifier::opaque]
pub open spec fn slice_frame_syntax(
    cursor: Cursor,
    is_idr: bool,
    front: SliceFront,
    sps: SequenceView,
) -> (SliceFrame, Cursor) {
    let (frame_num, cursor) = cursor.bits(sps.log2_max_frame_num as nat);
    let cursor = cursor.require(
        is_idr ==> frame_num == 0,
        H264Error::InvalidSyntax("frame_num in an IDR slice must be zero"),
    );
    let (field_picture, cursor) = if sps.frame_mbs_only {
        (false, cursor)
    } else {
        cursor.flag()
    };
    let (bottom_field, cursor) = if field_picture {
        cursor.flag()
    } else {
        (false, cursor)
    };
    let cursor = match first_macroblock_check(front.first_mb_in_slice, sps, field_picture) {
        Ok(_) => cursor,
        Err(error) => cursor.fail(error),
    };
    let (idr_pic_id, cursor) = if is_idr {
        let (id, cursor) = cursor.ue();
        (
            Some(id),
            cursor.require(id <= 65535, H264Error::InvalidSyntax("idr_pic_id exceeds 65535")),
        )
    } else {
        (None, cursor)
    };
    (SliceFrame { frame_num, field_picture, bottom_field, idr_pic_id }, cursor)
}

fn parse_slice_frame(
    reader: &mut BitReader<'_>,
    is_idr: bool,
    front: SliceFront,
    sps: &SequenceParameterSet,
) -> (result: Result<SliceFrame>)
    requires
        valid_sequence(sps@),
    ensures
        follows(
            result,
            *final(reader),
            slice_frame_syntax(old(reader).cursor(), is_idr, front, sps@),
        ),
        final(reader).data() == old(reader).data(),
{
    proof {
        reveal(slice_frame_syntax);
    }
    let frame_num: u32 = reader.read_bits(sps.log2_max_frame_num as u32)?;
    if is_idr && frame_num != 0 {
        return Err(H264Error::InvalidSyntax("frame_num in an IDR slice must be zero"));
    }
    let field_picture = if sps.frame_mbs_only {
        false
    } else {
        reader.read_bit()?
    };
    let bottom_field = if field_picture {
        reader.read_bit()?
    } else {
        false
    };
    validate_first_macroblock(front.first_mb_in_slice, sps, field_picture)?;
    let idr_pic_id: Option<u32> = if is_idr {
        let id: u32 = reader.read_ue()?;
        if id > 65535 {
            return Err(H264Error::InvalidSyntax("idr_pic_id exceeds 65535"));
        }
        Some(id)
    } else {
        None
    };
    Ok(SliceFrame { frame_num, field_picture, bottom_field, idr_pic_id })
}

/// Reads which picture the slice belongs to.
#[verifier::opaque]
pub open spec fn slice_picture_syntax(
    cursor: Cursor,
    is_idr: bool,
    front: SliceFront,
    sps: SequenceView,
    pps: PictureView,
) -> (SlicePicture, Cursor) {
    let (frame, cursor) = slice_frame_syntax(cursor, is_idr, front, sps);
    let (picture_order, cursor) = picture_order_syntax(cursor, sps, pps, frame.field_picture);
    let (redundant_pic_count, cursor) = if pps.redundant_pic_count_present {
        let (count, cursor) = cursor.ue();
        (
            Some(count),
            cursor.require(
                count <= 127,
                H264Error::InvalidSyntax("redundant_pic_cnt exceeds 127"),
            ),
        )
    } else {
        (None, cursor)
    };
    let (direct_spatial_mv_prediction, cursor) = if front.slice_type == SliceType::B {
        (Some(cursor.flag().0), cursor.flag().1)
    } else {
        (None, cursor)
    };
    (
        SlicePicture {
            frame_num: frame.frame_num,
            field_picture: frame.field_picture,
            bottom_field: frame.bottom_field,
            idr_pic_id: frame.idr_pic_id,
            picture_order,
            redundant_pic_count,
            direct_spatial_mv_prediction,
        },
        cursor,
    )
}

fn parse_slice_picture(
    reader: &mut BitReader<'_>,
    is_idr: bool,
    front: SliceFront,
    sps: &SequenceParameterSet,
    pps: &PictureParameterSet,
) -> (result: Result<SlicePicture>)
    requires
        valid_sequence(sps@),
    ensures
        follows(
            result,
            *final(reader),
            slice_picture_syntax(old(reader).cursor(), is_idr, front, sps@, pps@),
        ),
        final(reader).data() == old(reader).data(),
{
    proof {
        reveal(slice_picture_syntax);
    }
    let frame = parse_slice_frame(reader, is_idr, front, sps)?;
    let picture_order = parse_picture_order(reader, sps, pps, frame.field_picture)?;
    let redundant_pic_count: Option<u32> = if pps.redundant_pic_count_present {
        let count: u32 = reader.read_ue()?;
        if count > 127 {
            return Err(H264Error::InvalidSyntax("redundant_pic_cnt exceeds 127"));
        }
        Some(count)
    } else {
        None
    };
    let direct_spatial_mv_prediction = if front.slice_type == SliceType::B {
        Some(reader.read_bit()?)
    } else {
        None
    };
    Ok(
        SlicePicture {
            frame_num: frame.frame_num,
            field_picture: frame.field_picture,
            bottom_field: frame.bottom_field,
            idr_pic_id: frame.idr_pic_id,
            picture_order,
            redundant_pic_count,
            direct_spatial_mv_prediction,
        },
    )
}

/// Reads how many references each list uses. Intra slices use none, and only
/// B slices have a second list.
pub open spec fn reference_counts_syntax(
    cursor: Cursor,
    slice_type: SliceType,
    pps: PictureView,
) -> ((u8, u8), Cursor) {
    let error = H264Error::InvalidSyntax("num_ref_idx_active_minus1 exceeds 31");
    if slice_type.intra() {
        ((0, 0), cursor)
    } else {
        let (given, cursor) = cursor.flag();
        let (list0, cursor) = if given {
            reference_count_syntax(cursor, error)
        } else {
            (pps.num_ref_idx_l0_default_active, cursor)
        };
        if slice_type != SliceType::B {
            ((list0, 0), cursor)
        } else if given {
            let (list1, cursor) = reference_count_syntax(cursor, error);
            ((list0, list1), cursor)
        } else {
            ((list0, pps.num_ref_idx_l1_default_active), cursor)
        }
    }
}

fn parse_reference_counts(
    reader: &mut BitReader<'_>,
    slice_type: SliceType,
    pps: &PictureParameterSet,
) -> (result: Result<(u8, u8)>)
    ensures
        follows(
            result,
            *final(reader),
            reference_counts_syntax(old(reader).cursor(), slice_type, pps@),
        ),
        final(reader).data() == old(reader).data(),
{
    if slice_type.is_intra() {
        return Ok((0, 0));
    }
    let mut list0: u8 = pps.num_ref_idx_l0_default_active;
    let mut list1: u8 = pps.num_ref_idx_l1_default_active;
    if reader.read_bit()? {
        list0 = parse_active_reference_count(reader)?;
        if slice_type == SliceType::B {
            list1 = parse_active_reference_count(reader)?;
        }
    }
    if slice_type != SliceType::B {
        list1 = 0;
    }
    Ok((list0, list1))
}

fn parse_active_reference_count(reader: &mut BitReader<'_>) -> (result: Result<u8>)
    ensures
        follows(
            result,
            *final(reader),
            reference_count_syntax(
                old(reader).cursor(),
                H264Error::InvalidSyntax("num_ref_idx_active_minus1 exceeds 31"),
            ),
        ),
        final(reader).data() == old(reader).data(),
{
    let minus1: u32 = reader.read_ue()?;
    if minus1 > 31 {
        return Err(H264Error::InvalidSyntax("num_ref_idx_active_minus1 exceeds 31"));
    }
    Ok((minus1 + 1) as u8)
}

/// Reads the operand of the list modification `idc`.
pub open spec fn modification_syntax(cursor: Cursor, idc: u32) -> (
    ReferenceListModification,
    Cursor,
) {
    if idc == 0 {
        let (abs_diff_pic_num, cursor) = plus_one_syntax(cursor);
        (ReferenceListModification::SubtractPicNum { abs_diff_pic_num }, cursor)
    } else if idc == 1 {
        let (abs_diff_pic_num, cursor) = plus_one_syntax(cursor);
        (ReferenceListModification::AddPicNum { abs_diff_pic_num }, cursor)
    } else {
        let (long_term_pic_num, cursor) = cursor.ue();
        (ReferenceListModification::LongTerm { long_term_pic_num }, cursor)
    }
}

/// Reads list modifications up to the end mark, at most 64.
pub open spec fn modifications_syntax(
    cursor: Cursor,
    operations: Seq<ReferenceListModification>,
) -> (Seq<ReferenceListModification>, Cursor)
    decreases 66 - operations.len(),
{
    if cursor.error is Some || operations.len() > 65 {
        (operations, cursor)
    } else {
        let (idc, cursor) = cursor.ue();
        if cursor.error is Some || idc == 3 {
            (operations, cursor)
        } else if idc > 3 {
            (
                operations,
                cursor.fail(H264Error::InvalidSyntax("invalid modification_of_pic_nums_idc")),
            )
        } else {
            let (operation, cursor) = modification_syntax(cursor, idc);
            let cursor = cursor.require(
                operations.len() < 64,
                H264Error::InvalidSyntax("too many reference-list modifications"),
            );
            modifications_syntax(cursor, operations.push(operation))
        }
    }
}

/// Reads the modifications of one reference list, if there are any.
pub open spec fn list_modification_syntax(cursor: Cursor) -> (
    Seq<ReferenceListModification>,
    Cursor,
) {
    let (present, cursor) = cursor.flag();
    if present {
        modifications_syntax(cursor, Seq::empty())
    } else {
        (Seq::empty(), cursor)
    }
}

fn parse_reference_list_modification(reader: &mut BitReader<'_>) -> (result: Result<
    Vec<ReferenceListModification>,
>)
    ensures
        follows_view(result, *final(reader), list_modification_syntax(old(reader).cursor())),
        final(reader).data() == old(reader).data(),
{
    let mut operations: Vec<ReferenceListModification> = Vec::new();
    if !reader.read_bit()? {
        return Ok(operations);
    }
    loop
        invariant
            operations@.len() <= 64,
            reader.data() == old(reader).data(),
            list_modification_syntax(old(reader).cursor()) == modifications_syntax(
                reader.cursor(),
                operations@,
            ),
        decreases 64 - operations@.len(),
    {
        proof {
            reveal_with_fuel(modifications_syntax, 2);
        }
        let idc: u32 = reader.read_ue()?;
        let operation = match idc {
            0 => ReferenceListModification::SubtractPicNum {
                abs_diff_pic_num: read_plus_one(reader)?,
            },
            1 => ReferenceListModification::AddPicNum {
                abs_diff_pic_num: read_plus_one(reader)?,
            },
            2 => ReferenceListModification::LongTerm { long_term_pic_num: reader.read_ue()? },
            3 => {
                return Ok(operations);
            },
            _ => {
                return Err(H264Error::InvalidSyntax("invalid modification_of_pic_nums_idc"));
            },
        };
        push_bounded(&mut operations, operation, "too many reference-list modifications")?;
    }
}

fn push_bounded<T>(values: &mut Vec<T>, value: T, error: &'static str) -> (result: Result<()>)
    ensures
        old(values)@.len() == 64 ==> result == Err::<(), H264Error>(
            H264Error::InvalidSyntax(error),
        ) && final(values)@ == old(values)@,
        old(values)@.len() != 64 ==> result == Ok::<(), H264Error>(()) && final(values)@ == old(
            values,
        )@.push(value),
{
    if values.len() == MAX_LIST_OPERATIONS {
        return Err(H264Error::InvalidSyntax(error));
    }
    values.push(value);
    Ok(())
}

/// Whether explicit prediction weights are coded.
pub open spec fn has_weight_table(slice_type: SliceType, pps: PictureView) -> bool {
    ||| pps.weighted_prediction && (slice_type is P || slice_type is Sp)
    ||| pps.weighted_biprediction is Explicit && slice_type is B
}

fn needs_prediction_weight_table(slice_type: SliceType, pps: &PictureParameterSet) -> (needs: bool)
    ensures
        needs == has_weight_table(slice_type, pps@),
{
    (pps.weighted_prediction && (slice_type == SliceType::P || slice_type == SliceType::Sp)) || (
    pps.weighted_biprediction == WeightedBiprediction::Explicit && slice_type == SliceType::B)
}

/// Reads a weight denominator.
pub open spec fn weight_denom_syntax(cursor: Cursor) -> (u8, Cursor) {
    let (value, cursor) = cursor.ue();
    (
        value as u8,
        cursor.require(
            value <= 7,
            H264Error::InvalidSyntax("prediction weight denominator exceeds 7"),
        ),
    )
}

fn parse_weight_denom(reader: &mut BitReader<'_>) -> (result: Result<u8>)
    ensures
        follows(result, *final(reader), weight_denom_syntax(old(reader).cursor())),
        final(reader).data() == old(reader).data(),
{
    let value: u32 = reader.read_ue()?;
    if value > 7 {
        return Err(H264Error::InvalidSyntax("prediction weight denominator exceeds 7"));
    }
    Ok(value as u8)
}

/// Reads a weight and an offset.
pub open spec fn weight_offset_syntax(cursor: Cursor) -> (WeightOffset, Cursor) {
    let (weight, cursor) = cursor.se();
    let (offset, cursor) = cursor.se();
    (
        WeightOffset { weight, offset },
        cursor.require(
            -128 <= weight <= 127 && -128 <= offset <= 127,
            H264Error::InvalidSyntax("prediction weight or offset is outside -128..=127"),
        ),
    )
}

fn parse_weight_offset(reader: &mut BitReader<'_>) -> (result: Result<WeightOffset>)
    ensures
        follows(result, *final(reader), weight_offset_syntax(old(reader).cursor())),
        final(reader).data() == old(reader).data(),
{
    let weight: i32 = reader.read_se()?;
    let offset: i32 = reader.read_se()?;
    if weight < -128 || weight > 127 || offset < -128 || offset > 127 {
        return Err(H264Error::InvalidSyntax("prediction weight or offset is outside -128..=127"));
    }
    Ok(WeightOffset { weight, offset })
}

/// Reads the weights of one reference.
pub open spec fn weight_syntax(cursor: Cursor) -> (PredictionWeight, Cursor) {
    let (luma_given, cursor) = cursor.flag();
    let (luma, cursor) = if luma_given {
        (Some(weight_offset_syntax(cursor).0), weight_offset_syntax(cursor).1)
    } else {
        (None, cursor)
    };
    let (chroma_given, cursor) = cursor.flag();
    if chroma_given {
        let (cb, cursor) = weight_offset_syntax(cursor);
        let (cr, cursor) = weight_offset_syntax(cursor);
        (PredictionWeight { luma, chroma: Some([cb, cr]) }, cursor)
    } else {
        (PredictionWeight { luma, chroma: None }, cursor)
    }
}

fn parse_prediction_weight(reader: &mut BitReader<'_>) -> (result: Result<PredictionWeight>)
    ensures
        follows(result, *final(reader), weight_syntax(old(reader).cursor())),
        final(reader).data() == old(reader).data(),
{
    let luma = if reader.read_bit()? {
        Some(parse_weight_offset(reader)?)
    } else {
        None
    };
    let chroma = if reader.read_bit()? {
        let cb = parse_weight_offset(reader)?;
        let cr = parse_weight_offset(reader)?;
        Some([cb, cr])
    } else {
        None
    };
    Ok(PredictionWeight { luma, chroma })
}

/// Reads weights until there are `count` of them.
pub open spec fn weights_syntax(cursor: Cursor, count: nat, weights: Seq<PredictionWeight>) -> (
    Seq<PredictionWeight>,
    Cursor,
)
    decreases count - weights.len(),
{
    if cursor.error is Some || weights.len() >= count {
        (weights, cursor)
    } else {
        let (weight, cursor) = weight_syntax(cursor);
        weights_syntax(cursor, count, weights.push(weight))
    }
}

fn parse_prediction_weights(reader: &mut BitReader<'_>, count: u8) -> (result: Result<
    Vec<PredictionWeight>,
>)
    ensures
        follows_view(
            result,
            *final(reader),
            weights_syntax(old(reader).cursor(), count as nat, Seq::empty()),
        ),
        final(reader).data() == old(reader).data(),
{
    let mut weights: Vec<PredictionWeight> = Vec::with_capacity(count as usize);
    let mut index: u8 = 0;
    while index < count
        invariant
            index <= count,
            weights@.len() == index,
            reader.data() == old(reader).data(),
            weights_syntax(old(reader).cursor(), count as nat, Seq::empty()) == weights_syntax(
                reader.cursor(),
                count as nat,
                weights@,
            ),
        decreases count - index,
    {
        proof {
            reveal_with_fuel(weights_syntax, 2);
        }
        let weight = parse_prediction_weight(reader)?;
        weights.push(weight);
        index = index + 1;
    }
    Ok(weights)
}

/// Reads a weight table for lists of the given lengths.
pub open spec fn weight_table_syntax(
    cursor: Cursor,
    slice_type: SliceType,
    list0_count: u8,
    list1_count: u8,
) -> (WeightTableView, Cursor) {
    let (luma_log2_weight_denom, cursor) = weight_denom_syntax(cursor);
    let (chroma_log2_weight_denom, cursor) = weight_denom_syntax(cursor);
    let (list0, cursor) = weights_syntax(cursor, list0_count as nat, Seq::empty());
    let (list1, cursor) = if slice_type == SliceType::B {
        weights_syntax(cursor, list1_count as nat, Seq::empty())
    } else {
        (Seq::empty(), cursor)
    };
    (
        WeightTableView { luma_log2_weight_denom, chroma_log2_weight_denom, list0, list1 },
        cursor,
    )
}

fn parse_prediction_weight_table(
    reader: &mut BitReader<'_>,
    slice_type: SliceType,
    list0_count: u8,
    list1_count: u8,
) -> (result: Result<PredictionWeightTable>)
    ensures
        follows_view(
            result,
            *final(reader),
            weight_table_syntax(old(reader).cursor(), slice_type, list0_count, list1_count),
        ),
        final(reader).data() == old(reader).data(),
{
    let luma_log2_weight_denom: u8 = parse_weight_denom(reader)?;
    let chroma_log2_weight_denom: u8 = parse_weight_denom(reader)?;
    let list0 = parse_prediction_weights(reader, list0_count)?;
    let list1 = if slice_type == SliceType::B {
        parse_prediction_weights(reader, list1_count)?
    } else {
        Vec::new()
    };
    Ok(PredictionWeightTable { luma_log2_weight_denom, chroma_log2_weight_denom, list0, list1 })
}

/// Reads the operands of the memory management operation `code`.
pub open spec fn management_syntax(cursor: Cursor, code: u32) -> (
    MemoryManagementOperation,
    Cursor,
) {
    if code == 1 {
        let (difference_of_pic_nums, cursor) = plus_one_syntax(cursor);
        (MemoryManagementOperation::ForgetShortTerm { difference_of_pic_nums }, cursor)
    } else if code == 2 {
        let (long_term_pic_num, cursor) = cursor.ue();
        (MemoryManagementOperation::ForgetLongTerm { long_term_pic_num }, cursor)
    } else if code == 3 {
        let (difference_of_pic_nums, cursor) = plus_one_syntax(cursor);
        let (long_term_frame_idx, cursor) = cursor.ue();
        (
            MemoryManagementOperation::AssignLongTerm {
                difference_of_pic_nums,
                long_term_frame_idx,
            },
            cursor,
        )
    } else if code == 4 {
        let (max_long_term_frame_idx_plus1, cursor) = cursor.ue();
        (MemoryManagementOperation::LimitLongTerm { max_long_term_frame_idx_plus1 }, cursor)
    } else if code == 5 {
        (MemoryManagementOperation::ForgetAll, cursor)
    } else {
        let (long_term_frame_idx, cursor) = cursor.ue();
        (MemoryManagementOperation::MarkCurrentLongTerm { long_term_frame_idx }, cursor)
    }
}

/// Reads memory management operations up to the end mark, at most 64.
pub open spec fn managements_syntax(
    cursor: Cursor,
    operations: Seq<MemoryManagementOperation>,
) -> (Seq<MemoryManagementOperation>, Cursor)
    decreases 66 - operations.len(),
{
    if cursor.error is Some || operations.len() > 65 {
        (operations, cursor)
    } else {
        let (code, cursor) = cursor.ue();
        if cursor.error is Some || code == 0 {
            (operations, cursor)
        } else if code > 6 {
            (
                operations,
                cursor.fail(
                    H264Error::InvalidSyntax("memory_management_control_operation exceeds 6"),
                ),
            )
        } else {
            let (operation, cursor) = management_syntax(cursor, code);
            let cursor = cursor.require(
                operations.len() < 64,
                H264Error::InvalidSyntax("too many memory-management operations"),
            );
            managements_syntax(cursor, operations.push(operation))
        }
    }
}

/// Reads how the picture is marked for reference.
pub open spec fn marking_syntax(cursor: Cursor, nal_ref_idc: u8, is_idr: bool) -> (
    MarkingView,
    Cursor,
) {
    if nal_ref_idc == 0 {
        (MarkingView::Unmarked, cursor)
    } else if is_idr {
        let (no_output_of_prior_pictures, cursor) = cursor.flag();
        let (long_term_reference, cursor) = cursor.flag();
        (MarkingView::Idr { no_output_of_prior_pictures, long_term_reference }, cursor)
    } else {
        let (adaptive, cursor) = cursor.flag();
        if adaptive {
            let (operations, cursor) = managements_syntax(cursor, Seq::empty());
            (MarkingView::Adaptive(operations), cursor)
        } else {
            (MarkingView::SlidingWindow, cursor)
        }
    }
}

fn parse_management_operations(reader: &mut BitReader<'_>) -> (result: Result<
    Vec<MemoryManagementOperation>,
>)
    ensures
        follows_view(
            result,
            *final(reader),
            managements_syntax(old(reader).cursor(), Seq::empty()),
        ),
        final(reader).data() == old(reader).data(),
{
    let mut operations: Vec<MemoryManagementOperation> = Vec::new();
    loop
        invariant
            operations@.len() <= 64,
            reader.data() == old(reader).data(),
            managements_syntax(old(reader).cursor(), Seq::empty()) == managements_syntax(
                reader.cursor(),
                operations@,
            ),
        decreases 64 - operations@.len(),
    {
        proof {
            reveal_with_fuel(managements_syntax, 2);
        }
        let code: u32 = reader.read_ue()?;
        let operation = match code {
            0 => {
                return Ok(operations);
            },
            1 => MemoryManagementOperation::ForgetShortTerm {
                difference_of_pic_nums: read_plus_one(reader)?,
            },
            2 => MemoryManagementOperation::ForgetLongTerm { long_term_pic_num: reader.read_ue()? },
            3 => {
                let difference_of_pic_nums: u32 = read_plus_one(reader)?;
                let long_term_frame_idx: u32 = reader.read_ue()?;
                MemoryManagementOperation::AssignLongTerm {
                    difference_of_pic_nums,
                    long_term_frame_idx,
                }
            },
            4 => MemoryManagementOperation::LimitLongTerm {
                max_long_term_frame_idx_plus1: reader.read_ue()?,
            },
            5 => MemoryManagementOperation::ForgetAll,
            6 => MemoryManagementOperation::MarkCurrentLongTerm {
                long_term_frame_idx: reader.read_ue()?,
            },
            _ => {
                return Err(
                    H264Error::InvalidSyntax("memory_management_control_operation exceeds 6"),
                );
            },
        };
        push_bounded(&mut operations, operation, "too many memory-management operations")?;
    }
}

fn parse_reference_picture_marking(
    reader: &mut BitReader<'_>,
    nal_ref_idc: u8,
    is_idr: bool,
) -> (result: Result<ReferencePictureMarking>)
    ensures
        follows_view(
            result,
            *final(reader),
            marking_syntax(old(reader).cursor(), nal_ref_idc, is_idr),
        ),
        final(reader).data() == old(reader).data(),
{
    if nal_ref_idc == 0 {
        return Ok(ReferencePictureMarking::Unmarked);
    }
    if is_idr {
        let no_output_of_prior_pictures = reader.read_bit()?;
        let long_term_reference = reader.read_bit()?;
        return Ok(
            ReferencePictureMarking::Idr { no_output_of_prior_pictures, long_term_reference },
        );
    }
    if !reader.read_bit()? {
        return Ok(ReferencePictureMarking::SlidingWindow);
    }
    Ok(ReferencePictureMarking::Adaptive(parse_management_operations(reader)?))
}

/// Reads how the slice uses and marks reference pictures.
#[verifier::opaque]
pub open spec fn references_syntax(
    cursor: Cursor,
    slice_type: SliceType,
    pps: PictureView,
    nal_ref_idc: u8,
    is_idr: bool,
) -> (ReferencesView, Cursor) {
    let ((list0_count, list1_count), cursor) = reference_counts_syntax(cursor, slice_type, pps);
    let (list0, cursor) = if slice_type.intra() {
        (Seq::empty(), cursor)
    } else {
        list_modification_syntax(cursor)
    };
    let (list1, cursor) = if slice_type == SliceType::B {
        list_modification_syntax(cursor)
    } else {
        (Seq::empty(), cursor)
    };
    let (weights, cursor) = if has_weight_table(slice_type, pps) {
        let (table, cursor) = weight_table_syntax(cursor, slice_type, list0_count, list1_count);
        (Some(table), cursor)
    } else {
        (None, cursor)
    };
    let (marking, cursor) = marking_syntax(cursor, nal_ref_idc, is_idr);
    (
        ReferencesView {
            num_ref_idx_l0_active: list0_count,
            num_ref_idx_l1_active: list1_count,
            ref_pic_list_modifications_l0: list0,
            ref_pic_list_modifications_l1: list1,
            prediction_weights: weights,
            reference_picture_marking: marking,
        },
        cursor,
    )
}

fn parse_references(
    reader: &mut BitReader<'_>,
    slice_type: SliceType,
    pps: &PictureParameterSet,
    nal_ref_idc: u8,
    is_idr: bool,
) -> (result: Result<SliceReferences>)
    ensures
        follows_view(
            result,
            *final(reader),
            references_syntax(old(reader).cursor(), slice_type, pps@, nal_ref_idc, is_idr),
        ),
        final(reader).data() == old(reader).data(),
{
    proof {
        reveal(references_syntax);
    }
    let (num_ref_idx_l0_active, num_ref_idx_l1_active): (u8, u8) = parse_reference_counts(
        reader,
        slice_type,
        pps,
    )?;
    let ref_pic_list_modifications_l0: Vec<ReferenceListModification> = if slice_type.is_intra() {
        Vec::new()
    } else {
        parse_reference_list_modification(reader)?
    };
    let ref_pic_list_modifications_l1: Vec<ReferenceListModification> = if slice_type
        == SliceType::B {
        parse_reference_list_modification(reader)?
    } else {
        Vec::new()
    };
    let prediction_weights = if needs_prediction_weight_table(slice_type, pps) {
        Some(
            parse_prediction_weight_table(
                reader,
                slice_type,
                num_ref_idx_l0_active,
                num_ref_idx_l1_active,
            )?,
        )
    } else {
        None
    };
    let reference_picture_marking = parse_reference_picture_marking(reader, nal_ref_idc, is_idr)?;
    Ok(
        SliceReferences {
            num_ref_idx_l0_active,
            num_ref_idx_l1_active,
            ref_pic_list_modifications_l0,
            ref_pic_list_modifications_l1,
            prediction_weights,
            reference_picture_marking,
        },
    )
}

/// Reads a quantizer as its difference from `initial`.
pub open spec fn slice_quantizer_syntax(cursor: Cursor, initial: i8) -> (u8, Cursor) {
    let (delta, cursor) = cursor.se();
    let value = initial + delta;
    let cursor = cursor.require(
        i32::MIN <= value <= i32::MAX,
        H264Error::IntegerOverflow,
    );
    (
        value as u8,
        cursor.require(
            0 <= value <= 51,
            H264Error::InvalidSyntax("derived slice quantizer is outside 0..=51"),
        ),
    )
}

fn derive_slice_quantizer(reader: &mut BitReader<'_>, initial: i8) -> (result: Result<u8>)
    ensures
        follows(result, *final(reader), slice_quantizer_syntax(old(reader).cursor(), initial)),
        final(reader).data() == old(reader).data(),
{
    let delta: i32 = reader.read_se()?;
    let value: i32 = (initial as i32).checked_add(delta).ok_or(H264Error::IntegerOverflow)?;
    if value < 0 || value > 51 {
        return Err(H264Error::InvalidSyntax("derived slice quantizer is outside 0..=51"));
    }
    Ok(value as u8)
}

/// Reads a deblocking offset.
pub open spec fn deblocking_offset_syntax(cursor: Cursor) -> (i8, Cursor) {
    let (value, cursor) = cursor.se();
    (
        value as i8,
        cursor.require(
            -6 <= value <= 6,
            H264Error::InvalidSyntax("slice deblocking offset is outside -6..=6"),
        ),
    )
}

fn parse_deblocking_offset(reader: &mut BitReader<'_>) -> (result: Result<i8>)
    ensures
        follows(result, *final(reader), deblocking_offset_syntax(old(reader).cursor())),
        final(reader).data() == old(reader).data(),
{
    let value: i32 = reader.read_se()?;
    if value < -6 || value > 6 {
        return Err(H264Error::InvalidSyntax("slice deblocking offset is outside -6..=6"));
    }
    Ok(value as i8)
}

/// Reads the deblocking controls. A disabled filter has no offsets.
pub open spec fn deblocking_syntax(cursor: Cursor) -> (DeblockingFilter, Cursor) {
    let (idc, cursor) = cursor.ue();
    let cursor = cursor.require(
        idc <= 2,
        H264Error::InvalidSyntax("disable_deblocking_filter_idc exceeds 2"),
    );
    if idc == 1 {
        (DeblockingFilter { idc: 1, alpha_c0_offset_div2: 0, beta_offset_div2: 0 }, cursor)
    } else {
        let (alpha_c0_offset_div2, cursor) = deblocking_offset_syntax(cursor);
        let (beta_offset_div2, cursor) = deblocking_offset_syntax(cursor);
        (DeblockingFilter { idc: idc as u8, alpha_c0_offset_div2, beta_offset_div2 }, cursor)
    }
}

fn parse_deblocking_filter(reader: &mut BitReader<'_>) -> (result: Result<DeblockingFilter>)
    ensures
        follows(result, *final(reader), deblocking_syntax(old(reader).cursor())),
        final(reader).data() == old(reader).data(),
{
    let idc: u32 = reader.read_ue()?;
    if idc > 2 {
        return Err(H264Error::InvalidSyntax("disable_deblocking_filter_idc exceeds 2"));
    }
    if idc == 1 {
        return Ok(DeblockingFilter { idc: 1, alpha_c0_offset_div2: 0, beta_offset_div2: 0 });
    }
    let alpha_c0_offset_div2: i8 = parse_deblocking_offset(reader)?;
    let beta_offset_div2: i8 = parse_deblocking_offset(reader)?;
    Ok(DeblockingFilter { idc: idc as u8, alpha_c0_offset_div2, beta_offset_div2 })
}

/// How many bits a number needs.
pub open spec fn bit_length(value: nat) -> nat
    decreases value,
{
    if value == 0 {
        0
    } else {
        1 + bit_length(value / 2)
    }
}

/// A number of `bits` bits needs at most `bits` bits.
proof fn lemma_bit_length_bound(value: nat, bits: nat)
    requires
        value < vstd::arithmetic::power2::pow2(bits),
    ensures
        bit_length(value) <= bits,
    decreases bits,
{
    if value > 0 {
        if bits == 0 {
            vstd::arithmetic::power2::lemma2_to64();
        } else {
            vstd::arithmetic::power2::lemma_pow2_unfold(bits);
            lemma_bit_length_bound(value / 2, (bits - 1) as nat);
        }
    }
}

fn count_bits(value: u32) -> (count: u32)
    ensures
        count == bit_length(value as nat),
        count <= 32,
{
    proof {
        super::bits::lemma_pow2_32();
        lemma_bit_length_bound(value as nat, 32);
    }
    let mut rest: u32 = value;
    let mut count: u32 = 0;
    while rest > 0
        invariant
            count + bit_length(rest as nat) == bit_length(value as nat),
            bit_length(value as nat) <= 32,
        decreases rest,
    {
        rest = rest / 2;
        count = count + 1;
    }
    count
}

/// Reads the cycle of a changing slice-group map, if the PPS has one.
pub open spec fn change_cycle_syntax(cursor: Cursor, sps: SequenceView, pps: PictureView) -> (
    Option<u32>,
    Cursor,
) {
    match pps.slice_group_map {
        Some(SliceGroupMapView::Changing { change_rate, .. }) => {
            let size = sps.pic_width_in_mbs * sps.pic_height_in_map_units;
            let cursor = cursor.require(size <= u32::MAX, H264Error::IntegerOverflow);
            let (cycle, cursor) = cursor.bits(bit_length((size / change_rate as int) as nat));
            (
                Some(cycle),
                cursor.require(
                    cycle <= (size + change_rate - 1) / change_rate as int,
                    H264Error::InvalidSyntax("slice_group_change_cycle exceeds picture size"),
                ),
            )
        },
        _ => (None, cursor),
    }
}

/// Dividing with the quotient rounded up.
proof fn lemma_divide_up(size: int, rate: int)
    requires
        0 <= size,
        0 < rate,
    ensures
        (size + rate - 1) / rate == size / rate + if size % rate == 0 {
            0int
        } else {
            1int
        },
{
    vstd::arithmetic::div_mod::lemma_fundamental_div_mod(size, rate);
    let quotient = size / rate;
    let rest = size % rate;
    assert(rate * quotient == quotient * rate) by (nonlinear_arith);
    if rest == 0 {
        vstd::arithmetic::div_mod::lemma_fundamental_div_mod_converse(
            size + rate - 1,
            rate,
            quotient,
            rate - 1,
        );
    } else {
        assert(size + rate - 1 == (quotient + 1) * rate + (rest - 1)) by (nonlinear_arith)
            requires
                size == rate * quotient + rest,
        ;
        vstd::arithmetic::div_mod::lemma_fundamental_div_mod_converse(
            size + rate - 1,
            rate,
            quotient + 1,
            rest - 1,
        );
    }
}

fn parse_slice_group_change_cycle(
    reader: &mut BitReader<'_>,
    sps: &SequenceParameterSet,
    pps: &PictureParameterSet,
) -> (result: Result<Option<u32>>)
    requires
        valid_picture(pps@, sps@),
    ensures
        follows(result, *final(reader), change_cycle_syntax(old(reader).cursor(), sps@, pps@)),
        final(reader).data() == old(reader).data(),
{
    let change_rate: u32 = match &pps.slice_group_map {
        Some(SliceGroupMap::Changing { change_rate, .. }) => *change_rate,
        _ => {
            return Ok(None);
        },
    };
    let picture_size: u32 = sps.pic_width_in_mbs.checked_mul(sps.pic_height_in_map_units).ok_or(
        H264Error::IntegerOverflow,
    )?;
    let quotient: u32 = picture_size / change_rate;
    let bit_count: u32 = count_bits(quotient);
    let cycle: u32 = reader.read_bits(bit_count)?;
    let limit: u64 = if picture_size % change_rate == 0 {
        quotient as u64
    } else {
        quotient as u64 + 1
    };
    proof {
        lemma_divide_up(picture_size as int, change_rate as int);
    }
    if cycle as u64 > limit {
        return Err(H264Error::InvalidSyntax("slice_group_change_cycle exceeds picture size"));
    }
    Ok(Some(cycle))
}

/// Reads how the data of the slice is decoded and filtered.
#[verifier::opaque]
pub open spec fn slice_controls_syntax(
    cursor: Cursor,
    slice_type: SliceType,
    sps: SequenceView,
    pps: PictureView,
) -> (SliceControls, Cursor) {
    let (cabac_init_idc, cursor) = if pps.entropy_coding_mode is Cabac && !slice_type.intra() {
        let (idc, cursor) = cursor.ue();
        (
            Some(idc as u8),
            cursor.require(idc <= 2, H264Error::InvalidSyntax("cabac_init_idc exceeds 2")),
        )
    } else {
        (None, cursor)
    };
    let (slice_qp_y, cursor) = slice_quantizer_syntax(cursor, pps.pic_init_qp);
    let (sp_for_switch, cursor) = if slice_type is Sp {
        (Some(cursor.flag().0), cursor.flag().1)
    } else {
        (None, cursor)
    };
    let (slice_qs_y, cursor) = if slice_type is Sp || slice_type is Si {
        let (quantizer, cursor) = slice_quantizer_syntax(cursor, pps.pic_init_qs);
        (Some(quantizer), cursor)
    } else {
        (None, cursor)
    };
    let (deblocking_filter, cursor) = if pps.deblocking_filter_control_present {
        let (filter, cursor) = deblocking_syntax(cursor);
        (Some(filter), cursor)
    } else {
        (None, cursor)
    };
    let (slice_group_change_cycle, cursor) = change_cycle_syntax(cursor, sps, pps);
    (
        SliceControls {
            cabac_init_idc,
            slice_qp_y,
            sp_for_switch,
            slice_qs_y,
            deblocking_filter,
            slice_group_change_cycle,
        },
        cursor,
    )
}

fn parse_slice_controls(
    reader: &mut BitReader<'_>,
    slice_type: SliceType,
    sps: &SequenceParameterSet,
    pps: &PictureParameterSet,
) -> (result: Result<SliceControls>)
    requires
        valid_picture(pps@, sps@),
    ensures
        follows(
            result,
            *final(reader),
            slice_controls_syntax(old(reader).cursor(), slice_type, sps@, pps@),
        ),
        final(reader).data() == old(reader).data(),
{
    proof {
        reveal(slice_controls_syntax);
    }
    let cabac_init_idc: Option<u8> = if pps.entropy_coding_mode == EntropyCodingMode::Cabac
        && !slice_type.is_intra() {
        let idc: u32 = reader.read_ue()?;
        if idc > 2 {
            return Err(H264Error::InvalidSyntax("cabac_init_idc exceeds 2"));
        }
        Some(idc as u8)
    } else {
        None
    };
    let slice_qp_y: u8 = derive_slice_quantizer(reader, pps.pic_init_qp)?;
    let sp_for_switch = if slice_type == SliceType::Sp {
        Some(reader.read_bit()?)
    } else {
        None
    };
    let slice_qs_y = if slice_type == SliceType::Sp || slice_type == SliceType::Si {
        Some(derive_slice_quantizer(reader, pps.pic_init_qs)?)
    } else {
        None
    };
    let deblocking_filter = if pps.deblocking_filter_control_present {
        Some(parse_deblocking_filter(reader)?)
    } else {
        None
    };
    let slice_group_change_cycle = parse_slice_group_change_cycle(reader, sps, pps)?;
    Ok(
        SliceControls {
            cabac_init_idc,
            slice_qp_y,
            sp_for_switch,
            slice_qs_y,
            deblocking_filter,
            slice_group_change_cycle,
        },
    )
}

/// A failed cursor stays as it is when the parts of a header are read.
pub(crate) proof fn lemma_parts_keep_failure()
    ensures
        forall|cursor: Cursor, is_idr: bool, front: SliceFront, sps: SequenceView, pps: PictureView|
            cursor.error is Some ==> (#[trigger] slice_picture_syntax(
                cursor,
                is_idr,
                front,
                sps,
                pps,
            )).1 == cursor,
        forall|cursor: Cursor, slice_type: SliceType, pps: PictureView, idc: u8, is_idr: bool|
            cursor.error is Some ==> (#[trigger] references_syntax(
                cursor,
                slice_type,
                pps,
                idc,
                is_idr,
            )).1 == cursor,
        forall|cursor: Cursor, slice_type: SliceType, sps: SequenceView, pps: PictureView|
            cursor.error is Some ==> (#[trigger] slice_controls_syntax(
                cursor,
                slice_type,
                sps,
                pps,
            )).1 == cursor,
{
    reveal(slice_frame_syntax);
    reveal(slice_picture_syntax);
    reveal(references_syntax);
    reveal(slice_controls_syntax);
}

/// Reads a whole slice header of a NAL unit, with the parameter sets of
/// `store`.
pub open spec fn slice_header_syntax(
    data: Seq<u8>,
    nal: NalHeader,
    store: ParameterSetStore,
) -> (SliceHeaderView, Cursor) {
    let is_idr = nal.unit_type is IdrSlice;
    let cursor = Cursor { data, position: 0, error: None };
    let cursor = cursor.require(
        is_idr || nal.unit_type is NonIdrSlice,
        H264Error::UnsupportedFeature(
            "only ordinary non-IDR and IDR slice NAL units are supported",
        ),
    );
    let cursor = cursor.require(
        is_idr ==> nal.nal_ref_idc != 0,
        H264Error::InvalidSyntax("IDR slice must have non-zero nal_ref_idc"),
    );
    let (front, cursor) = front_syntax(cursor, is_idr);
    let active = store.resolved(front.picture_parameter_set_id);
    let cursor = cursor.require(
        active is Some,
        H264Error::MissingPps(front.picture_parameter_set_id),
    );
    let sps = active->Some_0.sequence@;
    let pps = active->Some_0.picture@;
    let (picture, cursor) = slice_picture_syntax(cursor, is_idr, front, sps, pps);
    let (references, cursor) = references_syntax(
        cursor,
        front.slice_type,
        pps,
        nal.nal_ref_idc,
        is_idr,
    );
    let (controls, cursor) = slice_controls_syntax(cursor, front.slice_type, sps, pps);
    (SliceHeaderView { front, picture, references, controls, bit_size: cursor.position }, cursor)
}

#[derive(Debug, Clone)]
pub struct ParsedSliceHeader {
    pub header: SliceHeader,
    pub parameter_sets: ActiveParameterSets,
}

impl ParsedSliceHeader {
    /// Parses an ordinary non-partitioned AVC slice header.
    ///
    /// The input must be an already unescaped RBSP payload. Slice extensions
    /// and data-partition NAL units are deliberately rejected at this layer.
    pub fn parse(
        rbsp: &[u8],
        nal_header: NalHeader,
        parameter_sets: &ParameterSetStore,
    ) -> (result: Result<Self>)
        requires
            parameter_sets.well_formed(),
            8 * rbsp@.len() <= usize::MAX,
        ensures
            ({
                let (header, cursor) = slice_header_syntax(rbsp@, nal_header, *parameter_sets);
                match result {
                    Ok(parsed) => {
                        &&& cursor.error is None
                        &&& parsed.header@ == header
                        &&& Some(parsed.parameter_sets) == parameter_sets.resolved(
                            header.front.picture_parameter_set_id,
                        )
                        &&& parsed.parameter_sets.valid()
                    },
                    Err(error) => cursor.error == Some(error),
                }
            }),
    {
        proof {
            lemma_parts_keep_failure();
        }
        let is_idr = match nal_header.unit_type {
            NalUnitType::NonIdrSlice => false,
            NalUnitType::IdrSlice => true,
            _ => {
                return Err(
                    H264Error::UnsupportedFeature(
                        "only ordinary non-IDR and IDR slice NAL units are supported",
                    ),
                );
            },
        };
        if is_idr && nal_header.nal_ref_idc == 0 {
            return Err(H264Error::InvalidSyntax("IDR slice must have non-zero nal_ref_idc"));
        }
        let mut reader = BitReader::new(rbsp);
        let front = parse_front(&mut reader, is_idr)?;
        let active = parameter_sets.resolve(front.picture_parameter_set_id)?;
        proof {
            parameter_sets.lemma_resolved_valid(front.picture_parameter_set_id);
        }
        let picture = parse_slice_picture(
            &mut reader,
            is_idr,
            front,
            &active.sequence,
            &active.picture,
        )?;
        let references = parse_references(
            &mut reader,
            front.slice_type,
            &active.picture,
            nal_header.nal_ref_idc,
            is_idr,
        )?;
        let controls = parse_slice_controls(
            &mut reader,
            front.slice_type,
            &active.sequence,
            &active.picture,
        )?;
        Ok(
            ParsedSliceHeader {
                header: SliceHeader {
                    first_mb_in_slice: front.first_mb_in_slice,
                    slice_type: front.slice_type,
                    all_slices_same_type: front.all_slices_same_type,
                    picture_parameter_set_id: front.picture_parameter_set_id,
                    frame_num: picture.frame_num,
                    field_picture: picture.field_picture,
                    bottom_field: picture.bottom_field,
                    idr_pic_id: picture.idr_pic_id,
                    picture_order: picture.picture_order,
                    redundant_pic_count: picture.redundant_pic_count,
                    direct_spatial_mv_prediction: picture.direct_spatial_mv_prediction,
                    num_ref_idx_l0_active: references.num_ref_idx_l0_active,
                    num_ref_idx_l1_active: references.num_ref_idx_l1_active,
                    ref_pic_list_modifications_l0: references.ref_pic_list_modifications_l0,
                    ref_pic_list_modifications_l1: references.ref_pic_list_modifications_l1,
                    prediction_weights: references.prediction_weights,
                    reference_picture_marking: references.reference_picture_marking,
                    cabac_init_idc: controls.cabac_init_idc,
                    slice_qp_y: controls.slice_qp_y,
                    sp_for_switch: controls.sp_for_switch,
                    slice_qs_y: controls.slice_qs_y,
                    deblocking_filter: controls.deblocking_filter,
                    slice_group_change_cycle: controls.slice_group_change_cycle,
                    bit_size: reader.bit_position(),
                },
                parameter_sets: active,
            },
        )
    }
}

} // verus!
