//! Picture Parameter Set syntax, slice-group maps, and validation.

use vstd::prelude::*;

use super::bits::{follows, follows_view, BitReader, Cursor};
use super::error::{H264Error, Result};
use super::rbsp::{consume_rbsp_trailing_bits, more_data, more_rbsp_data, trailing_bits};
use super::sps::{
    matrices_view, parse_scaling_matrices, scaling_matrices_syntax, ScalingListView,
    ScalingMatrices, SequenceParameterSet, SequenceView,
};

verus! {

#[derive(Debug, Clone, Copy, PartialEq, Eq, Structural)]
pub enum EntropyCodingMode {
    Cavlc,
    Cabac,
}

#[derive(Debug, Clone, Copy, PartialEq, Eq, Structural)]
pub enum WeightedBiprediction {
    Default,
    Explicit,
    Implicit,
}

#[derive(Debug, Clone, Copy, PartialEq, Eq, Structural)]
pub struct SliceGroupRectangle {
    pub top_left: u32,
    pub bottom_right: u32,
}

#[derive(Debug, Clone, PartialEq, Eq)]
pub enum SliceGroupMap {
    /// Map type 0.
    Interleaved { run_lengths: Vec<u32> },
    /// Map type 1. The map is derived from macroblock coordinates.
    Dispersed,
    /// Map type 2.
    Foreground { rectangles: Vec<SliceGroupRectangle> },
    /// Map types 3, 4, and 5.
    Changing { map_type: u8, change_direction: bool, change_rate: u32 },
    /// Map type 6.
    Explicit { slice_group_ids: Vec<u8> },
}

/// A slice-group map with its lists as sequences.
pub enum SliceGroupMapView {
    Interleaved { run_lengths: Seq<u32> },
    Dispersed,
    Foreground { rectangles: Seq<SliceGroupRectangle> },
    Changing { map_type: u8, change_direction: bool, change_rate: u32 },
    Explicit { slice_group_ids: Seq<u8> },
}

impl View for SliceGroupMap {
    type V = SliceGroupMapView;

    open spec fn view(&self) -> SliceGroupMapView {
        match self {
            SliceGroupMap::Interleaved { run_lengths } => SliceGroupMapView::Interleaved {
                run_lengths: run_lengths@,
            },
            SliceGroupMap::Dispersed => SliceGroupMapView::Dispersed,
            SliceGroupMap::Foreground { rectangles } => SliceGroupMapView::Foreground {
                rectangles: rectangles@,
            },
            SliceGroupMap::Changing { map_type, change_direction, change_rate } => {
                SliceGroupMapView::Changing {
                    map_type: *map_type,
                    change_direction: *change_direction,
                    change_rate: *change_rate,
                }
            },
            SliceGroupMap::Explicit { slice_group_ids } => SliceGroupMapView::Explicit {
                slice_group_ids: slice_group_ids@,
            },
        }
    }
}

#[derive(Debug, Clone, PartialEq, Eq)]
pub struct PictureParameterSet {
    pub id: u32,
    pub sequence_parameter_set_id: u32,
    pub entropy_coding_mode: EntropyCodingMode,
    pub bottom_field_pic_order_in_frame_present: bool,
    pub num_slice_groups: u8,
    pub slice_group_map: Option<SliceGroupMap>,
    pub num_ref_idx_l0_default_active: u8,
    pub num_ref_idx_l1_default_active: u8,
    pub weighted_prediction: bool,
    pub weighted_biprediction: WeightedBiprediction,
    pub pic_init_qp: i8,
    pub pic_init_qs: i8,
    pub chroma_qp_index_offset: i8,
    pub deblocking_filter_control_present: bool,
    pub constrained_intra_prediction: bool,
    pub redundant_pic_count_present: bool,
    pub transform_8x8_mode: bool,
    pub scaling_matrices: Option<ScalingMatrices>,
    pub second_chroma_qp_index_offset: i8,
}

/// A picture parameter set with its lists as sequences.
pub struct PictureView {
    pub id: u32,
    pub sequence_parameter_set_id: u32,
    pub entropy_coding_mode: EntropyCodingMode,
    pub bottom_field_pic_order_in_frame_present: bool,
    pub num_slice_groups: u8,
    pub slice_group_map: Option<SliceGroupMapView>,
    pub num_ref_idx_l0_default_active: u8,
    pub num_ref_idx_l1_default_active: u8,
    pub weighted_prediction: bool,
    pub weighted_biprediction: WeightedBiprediction,
    pub pic_init_qp: i8,
    pub pic_init_qs: i8,
    pub chroma_qp_index_offset: i8,
    pub deblocking_filter_control_present: bool,
    pub constrained_intra_prediction: bool,
    pub redundant_pic_count_present: bool,
    pub transform_8x8_mode: bool,
    pub scaling_matrices: Option<Seq<Option<ScalingListView>>>,
    pub second_chroma_qp_index_offset: i8,
}

/// The view of an optional slice-group map.
pub open spec fn map_view(map: Option<SliceGroupMap>) -> Option<SliceGroupMapView> {
    match map {
        Some(map) => Some(map@),
        None => None,
    }
}

impl View for PictureParameterSet {
    type V = PictureView;

    open spec fn view(&self) -> PictureView {
        PictureView {
            id: self.id,
            sequence_parameter_set_id: self.sequence_parameter_set_id,
            entropy_coding_mode: self.entropy_coding_mode,
            bottom_field_pic_order_in_frame_present: self.bottom_field_pic_order_in_frame_present,
            num_slice_groups: self.num_slice_groups,
            slice_group_map: map_view(self.slice_group_map),
            num_ref_idx_l0_default_active: self.num_ref_idx_l0_default_active,
            num_ref_idx_l1_default_active: self.num_ref_idx_l1_default_active,
            weighted_prediction: self.weighted_prediction,
            weighted_biprediction: self.weighted_biprediction,
            pic_init_qp: self.pic_init_qp,
            pic_init_qs: self.pic_init_qs,
            chroma_qp_index_offset: self.chroma_qp_index_offset,
            deblocking_filter_control_present: self.deblocking_filter_control_present,
            constrained_intra_prediction: self.constrained_intra_prediction,
            redundant_pic_count_present: self.redundant_pic_count_present,
            transform_8x8_mode: self.transform_8x8_mode,
            scaling_matrices: matrices_view(self.scaling_matrices),
            second_chroma_qp_index_offset: self.second_chroma_qp_index_offset,
        }
    }
}

/// Reads a length that is coded as one less.
pub open spec fn plus_one_syntax(cursor: Cursor) -> (u32, Cursor) {
    let (minus1, cursor) = cursor.ue();
    ((minus1 + 1) as u32, cursor.require(minus1 < u32::MAX, H264Error::IntegerOverflow))
}

/// Reads a length that is coded as one less.
pub fn read_plus_one(reader: &mut BitReader<'_>) -> (result: Result<u32>)
    ensures
        follows(result, *final(reader), plus_one_syntax(old(reader).cursor())),
        final(reader).data() == old(reader).data(),
{
    let minus1: u32 = reader.read_ue()?;
    minus1.checked_add(1).ok_or(H264Error::IntegerOverflow)
}

/// Reads run lengths until there are `count` of them.
pub open spec fn run_lengths_syntax(
    cursor: Cursor,
    count: nat,
    picture_size: u32,
    runs: Seq<u32>,
) -> (Seq<u32>, Cursor)
    decreases count - runs.len(),
{
    if cursor.error is Some || runs.len() >= count {
        (runs, cursor)
    } else {
        let (run, cursor) = plus_one_syntax(cursor);
        let cursor = cursor.require(
            run <= picture_size,
            H264Error::InvalidSyntax("slice-group run length exceeds picture size"),
        );
        run_lengths_syntax(cursor, count, picture_size, runs.push(run))
    }
}

fn parse_run_lengths(
    reader: &mut BitReader<'_>,
    count: u8,
    pic_size_in_map_units: u32,
) -> (result: Result<Vec<u32>>)
    ensures
        follows_view(
            result,
            *final(reader),
            run_lengths_syntax(
                old(reader).cursor(),
                count as nat,
                pic_size_in_map_units,
                Seq::empty(),
            ),
        ),
        final(reader).data() == old(reader).data(),
{
    let mut run_lengths: Vec<u32> = Vec::with_capacity(count as usize);
    let mut index: u8 = 0;
    while index < count
        invariant
            index <= count,
            run_lengths@.len() == index,
            reader.data() == old(reader).data(),
            run_lengths_syntax(
                old(reader).cursor(),
                count as nat,
                pic_size_in_map_units,
                Seq::empty(),
            ) == run_lengths_syntax(
                reader.cursor(),
                count as nat,
                pic_size_in_map_units,
                run_lengths@,
            ),
        decreases count - index,
    {
        proof {
            reveal_with_fuel(run_lengths_syntax, 2);
        }
        let run_length: u32 = read_plus_one(reader)?;
        if run_length > pic_size_in_map_units {
            return Err(H264Error::InvalidSyntax("slice-group run length exceeds picture size"));
        }
        run_lengths.push(run_length);
        index = index + 1;
    }
    Ok(run_lengths)
}

/// Whether a rectangle lies in the picture with its corners in order.
pub open spec fn valid_rectangle(
    rectangle: SliceGroupRectangle,
    picture_size: u32,
    picture_width: u32,
) -> bool {
    &&& rectangle.top_left <= rectangle.bottom_right < picture_size
    &&& rectangle.top_left % picture_width <= rectangle.bottom_right % picture_width
}

/// Reads rectangles until there are `count` of them.
pub open spec fn rectangles_syntax(
    cursor: Cursor,
    count: nat,
    picture_size: u32,
    picture_width: u32,
    rectangles: Seq<SliceGroupRectangle>,
) -> (Seq<SliceGroupRectangle>, Cursor)
    decreases count - rectangles.len(),
{
    if cursor.error is Some || rectangles.len() >= count {
        (rectangles, cursor)
    } else {
        let (top_left, cursor) = cursor.ue();
        let (bottom_right, cursor) = cursor.ue();
        let rectangle = SliceGroupRectangle { top_left, bottom_right };
        let cursor = cursor.require(
            valid_rectangle(rectangle, picture_size, picture_width),
            H264Error::InvalidSyntax("invalid foreground slice-group rectangle"),
        );
        rectangles_syntax(cursor, count, picture_size, picture_width, rectangles.push(rectangle))
    }
}

fn validate_slice_group_rectangle(
    rectangle: SliceGroupRectangle,
    pic_size_in_map_units: u32,
    pic_width_in_mbs: u32,
) -> (result: Result<()>)
    requires
        pic_width_in_mbs == 0 ==> pic_size_in_map_units == 0,
    ensures
        result == if valid_rectangle(rectangle, pic_size_in_map_units, pic_width_in_mbs) {
            Ok::<(), H264Error>(())
        } else {
            Err(H264Error::InvalidSyntax("invalid foreground slice-group rectangle"))
        },
{
    if rectangle.top_left >= pic_size_in_map_units || rectangle.bottom_right
        >= pic_size_in_map_units || rectangle.top_left > rectangle.bottom_right
        || rectangle.top_left % pic_width_in_mbs > rectangle.bottom_right % pic_width_in_mbs {
        return Err(H264Error::InvalidSyntax("invalid foreground slice-group rectangle"));
    }
    Ok(())
}

fn parse_rectangles(
    reader: &mut BitReader<'_>,
    count: u8,
    pic_size_in_map_units: u32,
    pic_width_in_mbs: u32,
) -> (result: Result<Vec<SliceGroupRectangle>>)
    requires
        pic_width_in_mbs == 0 ==> pic_size_in_map_units == 0,
    ensures
        follows_view(
            result,
            *final(reader),
            rectangles_syntax(
                old(reader).cursor(),
                count as nat,
                pic_size_in_map_units,
                pic_width_in_mbs,
                Seq::empty(),
            ),
        ),
        final(reader).data() == old(reader).data(),
{
    let mut rectangles: Vec<SliceGroupRectangle> = Vec::with_capacity(count as usize);
    let mut index: u8 = 0;
    while index < count
        invariant
            index <= count,
            rectangles@.len() == index,
            pic_width_in_mbs == 0 ==> pic_size_in_map_units == 0,
            reader.data() == old(reader).data(),
            rectangles_syntax(
                old(reader).cursor(),
                count as nat,
                pic_size_in_map_units,
                pic_width_in_mbs,
                Seq::empty(),
            ) == rectangles_syntax(
                reader.cursor(),
                count as nat,
                pic_size_in_map_units,
                pic_width_in_mbs,
                rectangles@,
            ),
        decreases count - index,
    {
        proof {
            reveal_with_fuel(rectangles_syntax, 2);
        }
        let top_left: u32 = reader.read_ue()?;
        let bottom_right: u32 = reader.read_ue()?;
        let rectangle = SliceGroupRectangle { top_left, bottom_right };
        validate_slice_group_rectangle(rectangle, pic_size_in_map_units, pic_width_in_mbs)?;
        rectangles.push(rectangle);
        index = index + 1;
    }
    Ok(rectangles)
}

/// How many bits tell `groups` slice groups apart.
pub open spec fn group_id_bits(groups: u8) -> nat {
    if groups <= 2 {
        1
    } else if groups <= 4 {
        2
    } else {
        3
    }
}

/// Reads slice-group identifiers until there are `count` of them.
pub open spec fn group_ids_syntax(cursor: Cursor, count: nat, groups: u8, ids: Seq<u8>) -> (
    Seq<u8>,
    Cursor,
)
    decreases count - ids.len(),
{
    if cursor.error is Some || ids.len() >= count {
        (ids, cursor)
    } else {
        let (id, cursor) = cursor.bits(group_id_bits(groups));
        let cursor = cursor.require(
            id < groups,
            H264Error::InvalidSyntax("slice_group_id exceeds num_slice_groups"),
        );
        group_ids_syntax(cursor, count, groups, ids.push(id as u8))
    }
}

fn parse_group_ids(reader: &mut BitReader<'_>, count: u32, groups: u8) -> (result: Result<Vec<u8>>)
    ensures
        follows_view(
            result,
            *final(reader),
            group_ids_syntax(old(reader).cursor(), count as nat, groups, Seq::empty()),
        ),
        final(reader).data() == old(reader).data(),
{
    let id_bits: u32 = if groups <= 2 {
        1
    } else if groups <= 4 {
        2
    } else {
        3
    };
    // Every identifier takes a bit of the data, so the list cannot outgrow it.
    let mut slice_group_ids: Vec<u8> = Vec::new();
    let mut index: u32 = 0;
    while index < count
        invariant
            index <= count,
            id_bits == group_id_bits(groups),
            id_bits <= 3,
            slice_group_ids@.len() == index,
            reader.data() == old(reader).data(),
            group_ids_syntax(old(reader).cursor(), count as nat, groups, Seq::empty())
                == group_ids_syntax(reader.cursor(), count as nat, groups, slice_group_ids@),
        decreases count - index,
    {
        proof {
            reveal_with_fuel(group_ids_syntax, 2);
        }
        let group_id: u32 = reader.read_bits(id_bits)?;
        if group_id >= groups as u32 {
            return Err(H264Error::InvalidSyntax("slice_group_id exceeds num_slice_groups"));
        }
        slice_group_ids.push(group_id as u8);
        index = index + 1;
    }
    Ok(slice_group_ids)
}

/// Reads the map of `groups` slice groups.
pub open spec fn slice_group_map_syntax(
    cursor: Cursor,
    groups: u8,
    picture_size: u32,
    picture_width: u32,
) -> (SliceGroupMapView, Cursor) {
    let (map_type, cursor) = cursor.ue();
    if cursor.error is Some {
        (SliceGroupMapView::Dispersed, cursor)
    } else if map_type == 0 {
        let (run_lengths, cursor) = run_lengths_syntax(
            cursor,
            groups as nat,
            picture_size,
            Seq::empty(),
        );
        (SliceGroupMapView::Interleaved { run_lengths }, cursor)
    } else if map_type == 1 {
        (SliceGroupMapView::Dispersed, cursor)
    } else if map_type == 2 {
        let (rectangles, cursor) = rectangles_syntax(
            cursor,
            (groups - 1) as nat,
            picture_size,
            picture_width,
            Seq::empty(),
        );
        (SliceGroupMapView::Foreground { rectangles }, cursor)
    } else if map_type <= 5 {
        let cursor = cursor.require(
            groups == 2,
            H264Error::InvalidSyntax("slice-group map types 3..=5 require exactly two groups"),
        );
        let (change_direction, cursor) = cursor.flag();
        let (change_rate, cursor) = plus_one_syntax(cursor);
        let cursor = cursor.require(
            change_rate <= picture_size,
            H264Error::InvalidSyntax("slice_group_change_rate exceeds picture size"),
        );
        (
            SliceGroupMapView::Changing { map_type: map_type as u8, change_direction, change_rate },
            cursor,
        )
    } else if map_type == 6 {
        let (signalled_pic_size, cursor) = plus_one_syntax(cursor);
        let cursor = cursor.require(
            signalled_pic_size == picture_size,
            H264Error::InvalidSyntax("explicit slice-group map size does not match SPS"),
        );
        let (slice_group_ids, cursor) = group_ids_syntax(
            cursor,
            signalled_pic_size as nat,
            groups,
            Seq::empty(),
        );
        (SliceGroupMapView::Explicit { slice_group_ids }, cursor)
    } else {
        (
            SliceGroupMapView::Dispersed,
            cursor.fail(H264Error::InvalidSyntax("slice_group_map_type must be in 0..=6")),
        )
    }
}

fn parse_slice_group_map(
    reader: &mut BitReader<'_>,
    num_slice_groups: u8,
    pic_size_in_map_units: u32,
    pic_width_in_mbs: u32,
) -> (result: Result<SliceGroupMap>)
    requires
        num_slice_groups >= 2,
        pic_width_in_mbs == 0 ==> pic_size_in_map_units == 0,
    ensures
        follows_view(
            result,
            *final(reader),
            slice_group_map_syntax(
                old(reader).cursor(),
                num_slice_groups,
                pic_size_in_map_units,
                pic_width_in_mbs,
            ),
        ),
        final(reader).data() == old(reader).data(),
{
    let map_type: u32 = reader.read_ue()?;
    match map_type {
        0 => {
            let run_lengths = parse_run_lengths(reader, num_slice_groups, pic_size_in_map_units)?;
            Ok(SliceGroupMap::Interleaved { run_lengths })
        },
        1 => Ok(SliceGroupMap::Dispersed),
        2 => {
            let rectangles = parse_rectangles(
                reader,
                num_slice_groups - 1,
                pic_size_in_map_units,
                pic_width_in_mbs,
            )?;
            Ok(SliceGroupMap::Foreground { rectangles })
        },
        3 | 4 | 5 => {
            if num_slice_groups != 2 {
                return Err(
                    H264Error::InvalidSyntax(
                        "slice-group map types 3..=5 require exactly two groups",
                    ),
                );
            }
            let change_direction = reader.read_bit()?;
            let change_rate: u32 = read_plus_one(reader)?;
            if change_rate > pic_size_in_map_units {
                return Err(
                    H264Error::InvalidSyntax("slice_group_change_rate exceeds picture size"),
                );
            }
            Ok(
                SliceGroupMap::Changing {
                    map_type: map_type as u8,
                    change_direction,
                    change_rate,
                },
            )
        },
        6 => {
            let signalled_pic_size: u32 = read_plus_one(reader)?;
            if signalled_pic_size != pic_size_in_map_units {
                return Err(
                    H264Error::InvalidSyntax("explicit slice-group map size does not match SPS"),
                );
            }
            let slice_group_ids = parse_group_ids(reader, signalled_pic_size, num_slice_groups)?;
            Ok(SliceGroupMap::Explicit { slice_group_ids })
        },
        _ => Err(H264Error::InvalidSyntax("slice_group_map_type must be in 0..=6")),
    }
}

/// Reads the two identifiers that a PPS begins with: its own and that of its
/// SPS.
pub open spec fn parameter_set_ids_syntax(cursor: Cursor) -> ((u32, u32), Cursor) {
    let (id, cursor) = cursor.ue();
    let cursor = cursor.require(
        id <= 255,
        H264Error::InvalidSyntax("pic_parameter_set_id exceeds 255"),
    );
    let (sequence_id, cursor) = cursor.ue();
    let cursor = cursor.require(
        sequence_id <= 31,
        H264Error::InvalidSyntax("seq_parameter_set_id in PPS exceeds 31"),
    );
    ((id, sequence_id), cursor)
}

/// Reads the identifiers of a PPS and of the SPS that it refers to.
pub fn parse_parameter_set_ids(reader: &mut BitReader<'_>) -> (result: Result<(u32, u32)>)
    ensures
        follows(result, *final(reader), parameter_set_ids_syntax(old(reader).cursor())),
        final(reader).data() == old(reader).data(),
        result matches Ok(ids) ==> ids.0 <= 255 && ids.1 <= 31,
{
    let id: u32 = reader.read_ue()?;
    if id > 255 {
        return Err(H264Error::InvalidSyntax("pic_parameter_set_id exceeds 255"));
    }
    let sequence_id: u32 = reader.read_ue()?;
    if sequence_id > 31 {
        return Err(H264Error::InvalidSyntax("seq_parameter_set_id in PPS exceeds 31"));
    }
    Ok((id, sequence_id))
}

/// Reads a number of reference indices.
pub open spec fn reference_count_syntax(cursor: Cursor, error: H264Error) -> (u8, Cursor) {
    let (minus1, cursor) = cursor.ue();
    ((minus1 + 1) as u8, cursor.require(minus1 <= 31, error))
}

fn parse_reference_count(reader: &mut BitReader<'_>) -> (result: Result<u8>)
    ensures
        follows(
            result,
            *final(reader),
            reference_count_syntax(
                old(reader).cursor(),
                H264Error::InvalidSyntax("num_ref_idx_default_active_minus1 exceeds 31"),
            ),
        ),
        final(reader).data() == old(reader).data(),
{
    let minus1: u32 = reader.read_ue()?;
    if minus1 > 31 {
        return Err(H264Error::InvalidSyntax("num_ref_idx_default_active_minus1 exceeds 31"));
    }
    Ok((minus1 + 1) as u8)
}

/// Reads an initial quantizer, coded as its difference from 26.
pub open spec fn initial_qp_syntax(cursor: Cursor, field: &'static str) -> (i8, Cursor) {
    let (minus26, cursor) = cursor.se();
    (
        (minus26 + 26) as i8,
        cursor.require(-26 <= minus26 <= 25, H264Error::InvalidSyntax(field)),
    )
}

fn parse_initial_qp(reader: &mut BitReader<'_>, field: &'static str) -> (result: Result<i8>)
    ensures
        follows(result, *final(reader), initial_qp_syntax(old(reader).cursor(), field)),
        final(reader).data() == old(reader).data(),
{
    let minus26: i32 = reader.read_se()?;
    if minus26 < -26 || minus26 > 25 {
        return Err(H264Error::InvalidSyntax(field));
    }
    Ok((minus26 + 26) as i8)
}

/// Reads an offset of the chroma quantizer.
pub open spec fn chroma_qp_offset_syntax(cursor: Cursor, field: &'static str) -> (i8, Cursor) {
    let (offset, cursor) = cursor.se();
    (offset as i8, cursor.require(-12 <= offset <= 12, H264Error::InvalidSyntax(field)))
}

fn parse_chroma_qp_offset(reader: &mut BitReader<'_>, field: &'static str) -> (result: Result<i8>)
    ensures
        follows(result, *final(reader), chroma_qp_offset_syntax(old(reader).cursor(), field)),
        final(reader).data() == old(reader).data(),
{
    let offset: i32 = reader.read_se()?;
    if offset < -12 || offset > 12 {
        return Err(H264Error::InvalidSyntax(field));
    }
    Ok(offset as i8)
}

/// What follows the reference counts of a PPS, up to the optional part.
pub struct PictureControls {
    pub weighted_prediction: bool,
    pub weighted_biprediction: WeightedBiprediction,
    pub pic_init_qp: i8,
    pub pic_init_qs: i8,
    pub chroma_qp_index_offset: i8,
    pub deblocking_filter_control_present: bool,
    pub constrained_intra_prediction: bool,
    pub redundant_pic_count_present: bool,
}

/// Reads the weighting, quantizer and filter controls.
pub open spec fn controls_syntax(cursor: Cursor) -> (PictureControls, Cursor) {
    let (weighted_prediction, cursor) = cursor.flag();
    let (bipred_idc, cursor) = cursor.bits(2);
    let cursor = cursor.require(
        bipred_idc <= 2,
        H264Error::InvalidSyntax("weighted_bipred_idc has reserved value 3"),
    );
    let (pic_init_qp, cursor) = initial_qp_syntax(cursor, "pic_init_qp_minus26");
    let (pic_init_qs, cursor) = initial_qp_syntax(cursor, "pic_init_qs_minus26");
    let (chroma_qp_index_offset, cursor) = chroma_qp_offset_syntax(
        cursor,
        "chroma_qp_index_offset",
    );
    let (deblocking_filter_control_present, cursor) = cursor.flag();
    let (constrained_intra_prediction, cursor) = cursor.flag();
    let (redundant_pic_count_present, cursor) = cursor.flag();
    (
        PictureControls {
            weighted_prediction,
            weighted_biprediction: if bipred_idc == 0 {
                WeightedBiprediction::Default
            } else if bipred_idc == 1 {
                WeightedBiprediction::Explicit
            } else {
                WeightedBiprediction::Implicit
            },
            pic_init_qp,
            pic_init_qs,
            chroma_qp_index_offset,
            deblocking_filter_control_present,
            constrained_intra_prediction,
            redundant_pic_count_present,
        },
        cursor,
    )
}

fn parse_controls(reader: &mut BitReader<'_>) -> (result: Result<PictureControls>)
    ensures
        follows(result, *final(reader), controls_syntax(old(reader).cursor())),
        final(reader).data() == old(reader).data(),
{
    let weighted_prediction = reader.read_bit()?;
    let bipred_idc: u32 = reader.read_bits(2)?;
    let weighted_biprediction = match bipred_idc {
        0 => WeightedBiprediction::Default,
        1 => WeightedBiprediction::Explicit,
        2 => WeightedBiprediction::Implicit,
        _ => {
            return Err(H264Error::InvalidSyntax("weighted_bipred_idc has reserved value 3"));
        },
    };
    let pic_init_qp: i8 = parse_initial_qp(reader, "pic_init_qp_minus26")?;
    let pic_init_qs: i8 = parse_initial_qp(reader, "pic_init_qs_minus26")?;
    let chroma_qp_index_offset: i8 = parse_chroma_qp_offset(reader, "chroma_qp_index_offset")?;
    let deblocking_filter_control_present = reader.read_bit()?;
    let constrained_intra_prediction = reader.read_bit()?;
    let redundant_pic_count_present = reader.read_bit()?;
    Ok(
        PictureControls {
            weighted_prediction,
            weighted_biprediction,
            pic_init_qp,
            pic_init_qs,
            chroma_qp_index_offset,
            deblocking_filter_control_present,
            constrained_intra_prediction,
            redundant_pic_count_present,
        },
    )
}

/// Reads the optional transform mode, scaling lists and second chroma offset.
/// Without them the second offset is the first.
pub open spec fn extension_syntax(cursor: Cursor, chroma_offset: i8) -> (
    (bool, Option<Seq<Option<ScalingListView>>>, i8),
    Cursor,
) {
    if cursor.error is Some || !more_data(cursor) {
        ((false, None, chroma_offset), cursor)
    } else {
        let (transform_8x8_mode, cursor) = cursor.flag();
        let (present, cursor) = cursor.flag();
        let list_count = if transform_8x8_mode {
            8nat
        } else {
            6nat
        };
        let (lists, cursor) = if present {
            let (lists, cursor) = scaling_matrices_syntax(cursor, list_count, Seq::empty());
            (Some(lists), cursor)
        } else {
            (None, cursor)
        };
        let (second, cursor) = chroma_qp_offset_syntax(cursor, "second_chroma_qp_index_offset");
        ((transform_8x8_mode, lists, second), cursor)
    }
}

fn parse_extension(reader: &mut BitReader<'_>, chroma_offset: i8) -> (result: Result<
    (bool, Option<ScalingMatrices>, i8),
>)
    ensures
        ({
            let step = extension_syntax(old(reader).cursor(), chroma_offset);
            match result {
                Ok((mode, matrices, second)) => step.1.error is None && final(reader).cursor()
                    == step.1 && step.0 == (mode, matrices_view(matrices), second),
                Err(error) => step.1.error == Some(error),
            }
        }),
        final(reader).data() == old(reader).data(),
{
    if !more_rbsp_data(reader) {
        return Ok((false, None, chroma_offset));
    }
    let transform_8x8_mode = reader.read_bit()?;
    let scaling_matrices = if reader.read_bit()? {
        let list_count: usize = if transform_8x8_mode {
            8
        } else {
            6
        };
        Some(parse_scaling_matrices(reader, list_count)?)
    } else {
        None
    };
    let second: i8 = parse_chroma_qp_offset(reader, "second_chroma_qp_index_offset")?;
    Ok((transform_8x8_mode, scaling_matrices, second))
}

/// Reads the number of slice groups and their map.
pub open spec fn slice_groups_syntax(cursor: Cursor, sps: SequenceView) -> (
    (u8, Option<SliceGroupMapView>),
    Cursor,
) {
    let (groups_minus1, cursor) = cursor.ue();
    let cursor = cursor.require(
        groups_minus1 <= 7,
        H264Error::InvalidSyntax("num_slice_groups_minus1 exceeds 7"),
    );
    let num_slice_groups = (groups_minus1 + 1) as u8;
    let picture_size = sps.pic_width_in_mbs * sps.pic_height_in_map_units;
    let cursor = cursor.require(picture_size <= u32::MAX, H264Error::IntegerOverflow);
    if cursor.error is Some || groups_minus1 == 0 {
        ((num_slice_groups, None), cursor)
    } else {
        let (map, cursor) = slice_group_map_syntax(
            cursor,
            num_slice_groups,
            picture_size as u32,
            sps.pic_width_in_mbs,
        );
        ((num_slice_groups, Some(map)), cursor)
    }
}

fn parse_slice_groups(reader: &mut BitReader<'_>, sps: &SequenceParameterSet) -> (result: Result<
    (u8, Option<SliceGroupMap>),
>)
    ensures
        ({
            let step = slice_groups_syntax(old(reader).cursor(), sps@);
            match result {
                Ok((groups, map)) => step.1.error is None && final(reader).cursor() == step.1
                    && step.0 == (groups, map_view(map)),
                Err(error) => step.1.error == Some(error),
            }
        }),
        final(reader).data() == old(reader).data(),
{
    let num_slice_groups_minus1: u32 = reader.read_ue()?;
    if num_slice_groups_minus1 > 7 {
        return Err(H264Error::InvalidSyntax("num_slice_groups_minus1 exceeds 7"));
    }
    let num_slice_groups: u8 = (num_slice_groups_minus1 + 1) as u8;
    let pic_size_in_map_units: u32 = sps.pic_width_in_mbs.checked_mul(
        sps.pic_height_in_map_units,
    ).ok_or(H264Error::IntegerOverflow)?;
    assert(sps.pic_width_in_mbs == 0 ==> pic_size_in_map_units == 0);
    if num_slice_groups_minus1 == 0 {
        return Ok((num_slice_groups, None));
    }
    let map = parse_slice_group_map(
        reader,
        num_slice_groups,
        pic_size_in_map_units,
        sps.pic_width_in_mbs,
    )?;
    Ok((num_slice_groups, Some(map)))
}

/// Reads a whole picture parameter set that refers to `sps`.
pub open spec fn picture_syntax(data: Seq<u8>, sps: SequenceView) -> (PictureView, Cursor) {
    let cursor = Cursor { data, position: 0, error: None };
    let ((id, sequence_parameter_set_id), cursor) = parameter_set_ids_syntax(cursor);
    let cursor = cursor.require(
        sequence_parameter_set_id == sps.id,
        H264Error::MissingSps(sequence_parameter_set_id),
    );
    let (cabac, cursor) = cursor.flag();
    let (bottom_field_pic_order_in_frame_present, cursor) = cursor.flag();
    let ((num_slice_groups, slice_group_map), cursor) = slice_groups_syntax(cursor, sps);
    let count_error = H264Error::InvalidSyntax("num_ref_idx_default_active_minus1 exceeds 31");
    let (num_ref_idx_l0_default_active, cursor) = reference_count_syntax(cursor, count_error);
    let (num_ref_idx_l1_default_active, cursor) = reference_count_syntax(cursor, count_error);
    let (controls, cursor) = controls_syntax(cursor);
    let ((transform_8x8_mode, scaling_matrices, second_chroma_qp_index_offset), cursor) =
        extension_syntax(cursor, controls.chroma_qp_index_offset);
    let cursor = trailing_bits(cursor).1;
    (
        PictureView {
            id,
            sequence_parameter_set_id,
            entropy_coding_mode: if cabac {
                EntropyCodingMode::Cabac
            } else {
                EntropyCodingMode::Cavlc
            },
            bottom_field_pic_order_in_frame_present,
            num_slice_groups,
            slice_group_map,
            num_ref_idx_l0_default_active,
            num_ref_idx_l1_default_active,
            weighted_prediction: controls.weighted_prediction,
            weighted_biprediction: controls.weighted_biprediction,
            pic_init_qp: controls.pic_init_qp,
            pic_init_qs: controls.pic_init_qs,
            chroma_qp_index_offset: controls.chroma_qp_index_offset,
            deblocking_filter_control_present: controls.deblocking_filter_control_present,
            constrained_intra_prediction: controls.constrained_intra_prediction,
            redundant_pic_count_present: controls.redundant_pic_count_present,
            transform_8x8_mode,
            scaling_matrices,
            second_chroma_qp_index_offset,
        },
        cursor,
    )
}

impl PictureParameterSet {
    /// Parses one unescaped PPS RBSP against the SPS it references.
    ///
    /// Passing the referenced SPS allows FMO map sizes and profile-dependent
    /// extension syntax to be validated before allocating storage.
    pub fn parse(rbsp: &[u8], sps: &SequenceParameterSet) -> (result: Result<Self>)
        ensures
            match result {
                Ok(pps) => picture_syntax(rbsp@, sps@).1.error is None && pps@ == picture_syntax(
                    rbsp@,
                    sps@,
                ).0,
                Err(error) => picture_syntax(rbsp@, sps@).1.error == Some(error),
            },
    {
        let mut reader = BitReader::new(rbsp);
        let (id, sequence_parameter_set_id): (u32, u32) = parse_parameter_set_ids(&mut reader)?;
        if sequence_parameter_set_id != sps.id {
            return Err(H264Error::MissingSps(sequence_parameter_set_id));
        }
        let entropy_coding_mode = if reader.read_bit()? {
            EntropyCodingMode::Cabac
        } else {
            EntropyCodingMode::Cavlc
        };
        let bottom_field_pic_order_in_frame_present = reader.read_bit()?;
        let (num_slice_groups, slice_group_map): (u8, Option<SliceGroupMap>) = parse_slice_groups(
            &mut reader,
            sps,
        )?;
        let num_ref_idx_l0_default_active: u8 = parse_reference_count(&mut reader)?;
        let num_ref_idx_l1_default_active: u8 = parse_reference_count(&mut reader)?;
        let controls = parse_controls(&mut reader)?;
        let (transform_8x8_mode, scaling_matrices, second_chroma_qp_index_offset): (
            bool,
            Option<ScalingMatrices>,
            i8,
        ) = parse_extension(&mut reader, controls.chroma_qp_index_offset)?;
        consume_rbsp_trailing_bits(&mut reader)?;
        Ok(
            PictureParameterSet {
                id,
                sequence_parameter_set_id,
                entropy_coding_mode,
                bottom_field_pic_order_in_frame_present,
                num_slice_groups,
                slice_group_map,
                num_ref_idx_l0_default_active,
                num_ref_idx_l1_default_active,
                weighted_prediction: controls.weighted_prediction,
                weighted_biprediction: controls.weighted_biprediction,
                pic_init_qp: controls.pic_init_qp,
                pic_init_qs: controls.pic_init_qs,
                chroma_qp_index_offset: controls.chroma_qp_index_offset,
                deblocking_filter_control_present: controls.deblocking_filter_control_present,
                constrained_intra_prediction: controls.constrained_intra_prediction,
                redundant_pic_count_present: controls.redundant_pic_count_present,
                transform_8x8_mode,
                scaling_matrices,
                second_chroma_qp_index_offset,
            },
        )
    }
}

} // verus!
