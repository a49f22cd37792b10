//! Laws of picture parameter sets.

use vstd::prelude::*;

use super::stream::{flag, number, signed, unsigned};
use crate::h264::bits::Cursor;
use crate::h264::pps::{
    controls_syntax, extension_syntax, group_ids_syntax, picture_syntax, rectangles_syntax,
    run_lengths_syntax, slice_group_map_syntax, slice_groups_syntax, PictureParameterSet,
    SliceGroupMapView, SliceGroupRectangle,
};
use crate::h264::rbsp::{more_data, trailing_bits};
use crate::h264::sps::{scaling_matrices_syntax, ScalingListView, SequenceView};

verus! {

proof fn lemma_runs(at: Seq<Cursor>, runs: Seq<u32>, picture_size: u32, done: int)
    requires
        0 <= done <= runs.len(),
        at.len() == runs.len() + 1,
        at[0].error is None,
        forall|i: int|
            0 <= i < runs.len() ==> unsigned(at[i], #[trigger] runs[i] - 1, at[i + 1]) && runs[i]
                <= picture_size,
    ensures
        run_lengths_syntax(at[done], runs.len(), picture_size, runs.take(done)) == (
            runs,
            at.last(),
        ),
    decreases runs.len() - done,
{
    if done == runs.len() {
        assert(runs.take(done) =~= runs);
        if done > 0 {
            assert(unsigned(at[done - 1], runs[done - 1] - 1, at[done - 1 + 1]));
        }
    } else {
        assert(unsigned(at[done], runs[done] - 1, at[done + 1]));
        assert(runs.take(done).push(runs[done]) =~= runs.take(done + 1));
        lemma_runs(at, runs, picture_size, done + 1);
    }
}

/// Interleaved slice groups take turns: there is a run for each group, coded as one
/// less, and none is longer than the picture.
pub proof fn law_interleaved_groups_have_a_run_each(
    start: Cursor,
    at: Seq<Cursor>,
    runs: Seq<u32>,
    groups: u8,
    picture_size: u32,
    picture_width: u32,
)
    requires
        unsigned(start, 0, at[0]),
        runs.len() == groups,
        at.len() == runs.len() + 1,
        forall|i: int|
            0 <= i < runs.len() ==> unsigned(at[i], #[trigger] runs[i] - 1, at[i + 1]) && runs[i]
                <= picture_size,
    ensures
        slice_group_map_syntax(start, groups, picture_size, picture_width) == (
            SliceGroupMapView::Interleaved { run_lengths: runs },
            at.last(),
        ),
{
    assert(runs.take(0) =~= Seq::<u32>::empty());
    lemma_runs(at, runs, picture_size, 0);
}

/// Dispersed slice groups need nothing else.
pub proof fn law_dispersed_groups_need_nothing(
    start: Cursor,
    behind: Cursor,
    groups: u8,
    picture_size: u32,
    picture_width: u32,
)
    requires
        unsigned(start, 1, behind),
    ensures
        slice_group_map_syntax(start, groups, picture_size, picture_width) == (
            SliceGroupMapView::Dispersed,
            behind,
        ),
{
}

/// Whether a rectangle of macroblocks lies in a picture, its second corner neither
/// above nor left of its first.
pub open spec fn lies_inside(
    rectangle: SliceGroupRectangle,
    picture_size: u32,
    picture_width: u32,
) -> bool {
    let first = rectangle.top_left;
    let second = rectangle.bottom_right;
    &&& first <= second
    &&& second < picture_size
    &&& first % picture_width <= second % picture_width
}

proof fn lemma_rectangles(
    at: Seq<Cursor>,
    middle: Seq<Cursor>,
    rectangles: Seq<SliceGroupRectangle>,
    picture_size: u32,
    picture_width: u32,
    done: int,
)
    requires
        0 <= done <= rectangles.len(),
        at.len() == rectangles.len() + 1,
        forall|i: int| 0 <= i <= rectangles.len() ==> (#[trigger] at[i]).error is None,
        forall|i: int|
            0 <= i < rectangles.len() ==> {
                &&& unsigned(at[i], (#[trigger] rectangles[i]).top_left as int, middle[i])
                &&& unsigned(middle[i], rectangles[i].bottom_right as int, at[i + 1])
                &&& lies_inside(rectangles[i], picture_size, picture_width)
            },
    ensures
        rectangles_syntax(
            at[done],
            rectangles.len(),
            picture_size,
            picture_width,
            rectangles.take(done),
        ) == (rectangles, at.last()),
    decreases rectangles.len() - done,
{
    if done == rectangles.len() {
        assert(rectangles.take(done) =~= rectangles);
        assert(at[done].error is None);
    } else {
        let rectangle = rectangles[done];
        assert(rectangles.take(done).push(rectangle) =~= rectangles.take(done + 1));
        lemma_rectangles(at, middle, rectangles, picture_size, picture_width, done + 1);
    }
}

/// Foreground slice groups are rectangles, one for each group but the last, each told
/// by its two corners.
pub proof fn law_foreground_groups_are_rectangles(
    start: Cursor,
    at: Seq<Cursor>,
    middle: Seq<Cursor>,
    rectangles: Seq<SliceGroupRectangle>,
    groups: u8,
    picture_size: u32,
    picture_width: u32,
)
    requires
        unsigned(start, 2, at[0]),
        rectangles.len() + 1 == groups,
        at.len() == groups,
        forall|i: int| 0 <= i <= rectangles.len() ==> (#[trigger] at[i]).error is None,
        forall|i: int|
            0 <= i < rectangles.len() ==> {
                &&& unsigned(at[i], (#[trigger] rectangles[i]).top_left as int, middle[i])
                &&& unsigned(middle[i], rectangles[i].bottom_right as int, at[i + 1])
                &&& lies_inside(rectangles[i], picture_size, picture_width)
            },
    ensures
        slice_group_map_syntax(start, groups, picture_size, picture_width) == (
            SliceGroupMapView::Foreground { rectangles },
            at.last(),
        ),
{
    assert(rectangles.take(0) =~= Seq::<SliceGroupRectangle>::empty());
    lemma_rectangles(at, middle, rectangles, picture_size, picture_width, 0);
}

/// A rectangle that does not lie inside the picture is refused.
pub proof fn law_rectangles_lie_inside(
    at: Seq<Cursor>,
    rectangle: SliceGroupRectangle,
    picture_size: u32,
    picture_width: u32,
)
    requires
        unsigned(at[0], rectangle.top_left as int, at[1]),
        unsigned(at[1], rectangle.bottom_right as int, at[2]),
        !lies_inside(rectangle, picture_size, picture_width),
    ensures
        rectangles_syntax(at[0], 1, picture_size, picture_width, Seq::empty()).1.error is Some,
{
    reveal_with_fuel(rectangles_syntax, 2);
}

/// Changing slice groups are two. They are told by a direction and by a rate, coded as
/// one less, that is no larger than the picture.
pub proof fn law_changing_groups_are_two(
    at: Seq<Cursor>,
    map_type: u8,
    direction: bool,
    rate: u32,
    groups: u8,
    picture_size: u32,
    picture_width: u32,
)
    requires
        3 <= map_type <= 5,
        unsigned(at[0], map_type as int, at[1]),
        flag(at[1], direction, at[2]),
        unsigned(at[2], rate - 1, at[3]),
    ensures
        slice_group_map_syntax(at[0], groups, picture_size, picture_width).1.error is None <==> groups
            == 2 && rate <= picture_size,
        groups == 2 && rate <= picture_size ==> slice_group_map_syntax(
            at[0],
            groups,
            picture_size,
            picture_width,
        ) == (
            SliceGroupMapView::Changing {
                map_type,
                change_direction: direction,
                change_rate: rate,
            },
            at[3],
        ),
{
}

proof fn lemma_ids(at: Seq<Cursor>, ids: Seq<u8>, groups: u8, bits: nat, done: int)
    requires
        0 <= done <= ids.len(),
        2 <= groups <= 8,
        bits == 1 && groups == 2 || bits == 2 && 2 < groups <= 4 || bits == 3 && 4 < groups,
        at.len() == ids.len() + 1,
        at[0].error is None,
        forall|i: int|
            0 <= i < ids.len() ==> number(at[i], bits, #[trigger] ids[i] as int, at[i + 1])
                && ids[i] < groups,
    ensures
        group_ids_syntax(at[done], ids.len(), groups, ids.take(done)) == (ids, at.last()),
    decreases ids.len() - done,
{
    if done == ids.len() {
        assert(ids.take(done) =~= ids);
        if done > 0 {
            assert(number(at[done - 1], bits, ids[done - 1] as int, at[done - 1 + 1]));
        }
    } else {
        assert(number(at[done], bits, ids[done] as int, at[done + 1]));
        assert(ids.take(done).push(ids[done]) =~= ids.take(done + 1));
        lemma_ids(at, ids, groups, bits, done + 1);
    }
}

/// Explicit slice groups name the group of each macroblock of the picture, with one bit
/// for two groups, two bits for up to four and three bits for more.
pub proof fn law_explicit_groups_name_each_macroblock(
    start: Seq<Cursor>,
    at: Seq<Cursor>,
    ids: Seq<u8>,
    groups: u8,
    bits: nat,
    picture_size: u32,
    picture_width: u32,
)
    requires
        2 <= groups <= 8,
        bits == 1 && groups == 2 || bits == 2 && 2 < groups <= 4 || bits == 3 && 4 < groups,
        unsigned(start[0], 6, start[1]),
        unsigned(start[1], picture_size - 1, at[0]),
        ids.len() == picture_size,
        at.len() == ids.len() + 1,
        forall|i: int|
            0 <= i < ids.len() ==> number(at[i], bits, #[trigger] ids[i] as int, at[i + 1])
                && ids[i] < groups,
    ensures
        slice_group_map_syntax(start[0], groups, picture_size, picture_width) == (
            SliceGroupMapView::Explicit { slice_group_ids: ids },
            at.last(),
        ),
{
    assert(ids.take(0) =~= Seq::<u8>::empty());
    lemma_ids(at, ids, groups, bits, 0);
}

/// There is no eighth kind of slice groups.
pub proof fn law_other_maps_are_refused(
    start: Cursor,
    behind: Cursor,
    kind: int,
    groups: u8,
    picture_size: u32,
    picture_width: u32,
)
    requires
        unsigned(start, kind, behind),
        kind > 6,
    ensures
        slice_group_map_syntax(start, groups, picture_size, picture_width).1.error is Some,
{
}

/// Slice groups are one to eight. One alone has no map.
pub proof fn law_one_group_needs_no_map(
    at: Seq<Cursor>,
    groups: int,
    sps: SequenceView,
    picture_size: u32,
)
    requires
        unsigned(at[0], groups - 1, at[1]),
        picture_size == sps.pic_width_in_mbs * sps.pic_height_in_map_units,
    ensures
        groups > 8 ==> slice_groups_syntax(at[0], sps).1.error is Some,
        groups == 1 ==> slice_groups_syntax(at[0], sps) == (
            (1u8, None::<SliceGroupMapView>),
            at[1],
        ),
        2 <= groups <= 8 ==> slice_groups_syntax(at[0], sps) == (
            (
                groups as u8,
                Some(
                    slice_group_map_syntax(
                        at[1],
                        groups as u8,
                        picture_size,
                        sps.pic_width_in_mbs,
                    ).0,
                ),
            ),
            slice_group_map_syntax(at[1], groups as u8, picture_size, sps.pic_width_in_mbs).1,
        ),
{
}

/// The controls of a picture: quantizers are told as differences from 26 and lie in 0
/// to 51, the chroma offset lies in -12 to 12, and there are three ways to weight two
/// references.
pub proof fn law_controls_are_told_in_turn(
    at: Seq<Cursor>,
    weighted: bool,
    biprediction: int,
    qp: int,
    qs: int,
    offset: int,
    deblocking: bool,
    constrained: bool,
    redundant: bool,
)
    requires
        flag(at[0], weighted, at[1]),
        number(at[1], 2, biprediction, at[2]),
        signed(at[2], qp - 26, at[3]),
        signed(at[3], qs - 26, at[4]),
        signed(at[4], offset, at[5]),
        flag(at[5], deblocking, at[6]),
        flag(at[6], constrained, at[7]),
        flag(at[7], redundant, at[8]),
    ensures
        controls_syntax(at[0]).1.error is None <==> biprediction <= 2 && 0 <= qp <= 51 && 0 <= qs
            <= 51 && -12 <= offset <= 12,
        controls_syntax(at[0]).1.error is None ==> {
            let controls = controls_syntax(at[0]).0;
            &&& controls_syntax(at[0]).1 == at[8]
            &&& controls.weighted_prediction == weighted
            &&& controls.weighted_biprediction is Default <==> biprediction == 0
            &&& controls.weighted_biprediction is Explicit <==> biprediction == 1
            &&& controls.weighted_biprediction is Implicit <==> biprediction == 2
            &&& controls.pic_init_qp == qp
            &&& controls.pic_init_qs == qs
            &&& controls.chroma_qp_index_offset == offset
            &&& controls.deblocking_filter_control_present == deblocking
            &&& controls.constrained_intra_prediction == constrained
            &&& controls.redundant_pic_count_present == redundant
        },
{
}

/// Without more data there is no 8x8 transform and no scaling list, and both chroma
/// offsets are the same. With more, the second offset comes last; there are two lists
/// more where there is an 8x8 transform.
pub proof fn law_extensions_come_last(
    start: Cursor,
    at: Seq<Cursor>,
    first: i8,
    transform_8x8: bool,
    present: bool,
    second: int,
)
    requires
        start.error is None,
        more_data(start) ==> {
            &&& flag(start, transform_8x8, at[0])
            &&& flag(at[0], present, at[1])
            &&& present ==> scaling_matrices_syntax(
                at[1],
                if transform_8x8 {
                    8
                } else {
                    6
                },
                Seq::empty(),
            ).1 == at[2]
            &&& !present ==> at[2] == at[1]
            &&& signed(at[2], second, at[3])
        },
    ensures
        !more_data(start) ==> extension_syntax(start, first) == (
            (false, None::<Seq<Option<ScalingListView>>>, first),
            start,
        ),
        more_data(start) ==> {
            let ((mode, lists, offset), behind) = extension_syntax(start, first);
            &&& behind.error is None <==> -12 <= second <= 12
            &&& behind.error is None ==> behind == at[3] && offset == second
            &&& mode == transform_8x8
            &&& !present ==> lists is None
            &&& present && transform_8x8 ==> lists == Some(
                scaling_matrices_syntax(at[1], 8, Seq::empty()).0,
            )
            &&& present && !transform_8x8 ==> lists == Some(
                scaling_matrices_syntax(at[1], 6, Seq::empty()).0,
            )
        },
{
}

/// A picture parameter set holds what its parts say, one behind the other: its number
/// and that of its sequence, the entropy coding, the slice groups, the two numbers of
/// references, each as one less, the controls and the extension.
pub proof fn law_pictures_hold_their_parts(
    data: Seq<u8>,
    at: Seq<Cursor>,
    id: u32,
    sequence: u32,
    cabac: bool,
    bottom: bool,
    first: int,
    second: int,
    sps: SequenceView,
    pps: PictureParameterSet,
)
    requires
        pps@ == picture_syntax(data, sps).0,
        at[0] == (Cursor { data, position: 0, error: None }),
        unsigned(at[0], id as int, at[1]),
        unsigned(at[1], sequence as int, at[2]),
        flag(at[2], cabac, at[3]),
        flag(at[3], bottom, at[4]),
        slice_groups_syntax(at[4], sps).1 == at[5],
        unsigned(at[5], first - 1, at[6]),
        unsigned(at[6], second - 1, at[7]),
        controls_syntax(at[7]).1 == at[8],
        at[8].error is None,
        extension_syntax(at[8], controls_syntax(at[7]).0.chroma_qp_index_offset).1 == at[9],
        trailing_bits(at[9]).1 == at[10],
    ensures
        ({
            let behind = picture_syntax(data, sps).1;
            let groups = slice_groups_syntax(at[4], sps).0;
            let controls = controls_syntax(at[7]).0;
            let extension = extension_syntax(at[8], controls.chroma_qp_index_offset).0;
            &&& id > 255 || sequence > 31 || sequence != sps.id || first > 32 || second > 32
                ==> behind.error is Some
            &&& behind.error is None ==> {
                &&& behind == at[10]
                &&& pps.id == id
                &&& pps.sequence_parameter_set_id == sequence
                &&& pps.entropy_coding_mode is Cabac <==> cabac
                &&& pps.bottom_field_pic_order_in_frame_present == bottom
                &&& pps.num_slice_groups == groups.0
                &&& pps@.slice_group_map == groups.1
                &&& pps.num_ref_idx_l0_default_active == first
                &&& pps.num_ref_idx_l1_default_active == second
                &&& pps.weighted_prediction == controls.weighted_prediction
                &&& pps.weighted_biprediction == controls.weighted_biprediction
                &&& pps.pic_init_qp == controls.pic_init_qp
                &&& pps.pic_init_qs == controls.pic_init_qs
                &&& pps.chroma_qp_index_offset == controls.chroma_qp_index_offset
                &&& pps.deblocking_filter_control_present
                    == controls.deblocking_filter_control_present
                &&& pps.constrained_intra_prediction == controls.constrained_intra_prediction
                &&& pps.redundant_pic_count_present == controls.redundant_pic_count_present
                &&& pps.transform_8x8_mode == extension.0
                &&& pps@.scaling_matrices == extension.1
                &&& pps.second_chroma_qp_index_offset == extension.2
            }
        }),
{
}

} // verus!
