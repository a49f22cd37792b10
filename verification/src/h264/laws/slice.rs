//! Laws of slice headers.

use vstd::arithmetic::div_mod::lemma_fundamental_div_mod_converse;
use vstd::arithmetic::power2::{lemma2_to64, lemma_pow2_unfold, pow2};
use vstd::prelude::*;

use super::stream::{flag, number, signed, unsigned};
use crate::h264::bits::Cursor;
use crate::h264::nal::NalHeader;
use crate::h264::parameter_sets::ParameterSetStore;
use crate::h264::pps::{PictureView, SliceGroupMapView};
use crate::h264::slice::{
    bit_length, change_cycle_syntax, deblocking_syntax, first_macroblock_check, front_syntax,
    has_weight_table, lemma_parts_keep_failure, list_modification_syntax, managements_syntax,
    marking_syntax, modifications_syntax, picture_order_syntax, reference_counts_syntax,
    references_syntax, slice_controls_syntax, slice_frame_syntax, slice_header_syntax,
    slice_picture_syntax, slice_quantizer_syntax, weight_syntax, weight_table_syntax,
    weights_syntax, DeblockingFilter, MarkingView, MemoryManagementOperation, PredictionWeight,
    ReferenceListModification, SliceFront, SliceHeader, SliceType, WeightOffset,
};
use crate::h264::sps::{PicOrderCountView, SequenceView};

verus! {

/// A slice begins with its first macroblock, its type and the number of its picture
/// parameter set. The types are counted P, B, I, SP, SI, and once more for pictures
/// that hold no other type. A picture that resets decoding holds intra slices alone.
pub proof fn law_slices_begin_with_their_type(
    at: Seq<Cursor>,
    first: u32,
    code: u32,
    id: u32,
    is_idr: bool,
)
    requires
        unsigned(at[0], first as int, at[1]),
        unsigned(at[1], code as int, at[2]),
        unsigned(at[2], id as int, at[3]),
    ensures
        front_syntax(at[0], is_idr).1.error is None <==> code <= 9 && id <= 255 && (is_idr ==> code
            == 2 || code == 4 || code == 7 || code == 9),
        front_syntax(at[0], is_idr).1.error is None ==> {
            let front = front_syntax(at[0], is_idr).0;
            &&& front_syntax(at[0], is_idr).1 == at[3]
            &&& front.first_mb_in_slice == first
            &&& front.slice_type is P <==> code == 0 || code == 5
            &&& front.slice_type is B <==> code == 1 || code == 6
            &&& front.slice_type is I <==> code == 2 || code == 7
            &&& front.slice_type is Sp <==> code == 3 || code == 8
            &&& front.slice_type is Si <==> code == 4 || code == 9
            &&& front.all_slices_same_type <==> code > 4
            &&& front.picture_parameter_set_id == id
        },
{
}

/// A slice begins inside its picture: a field has half the rows of a frame, and where
/// frames and fields alternate macroblocks are counted in pairs.
pub proof fn law_slices_begin_inside_their_picture(
    first: u32,
    sps: SequenceView,
    field: bool,
    columns: int,
    rows: int,
)
    requires
        columns == sps.pic_width_in_mbs,
        rows == sps.pic_height_in_map_units,
        0 <= columns * (2 * rows) <= u32::MAX,
        2 * rows <= u32::MAX,
        2 * first <= u32::MAX,
    ensures
        sps.frame_mbs_only && !field && !sps.mb_adaptive_frame_field ==> (first_macroblock_check(
            first,
            sps,
            field,
        ) is Ok <==> first < columns * rows),
        !sps.frame_mbs_only && field ==> (first_macroblock_check(first, sps, field) is Ok <==> first
            < columns * rows),
        !sps.frame_mbs_only && !field && !sps.mb_adaptive_frame_field ==> (first_macroblock_check(
            first,
            sps,
            field,
        ) is Ok <==> first < columns * (2 * rows)),
        !sps.frame_mbs_only && !field && sps.mb_adaptive_frame_field ==> (first_macroblock_check(
            first,
            sps,
            field,
        ) is Ok <==> 2 * first < columns * (2 * rows)),
{
    reveal(first_macroblock_check);
    assert(columns * (2 * rows) == 2 * (columns * rows)) by (nonlinear_arith);
    assert(columns * (rows * 1) == columns * rows);
    assert(columns * (rows * 2) == columns * (2 * rows));
    assert(0 <= columns * rows);
}

/// A slice states its frame number, then whether it is a field and which, where there
/// are fields, and the number of its picture where that resets decoding. Such a picture
/// has frame number zero.
pub proof fn law_slices_state_their_frame(
    at: Seq<Cursor>,
    is_idr: bool,
    front: SliceFront,
    sps: SequenceView,
    frame_num: u32,
    field: bool,
    bottom: bool,
    id: u32,
)
    requires
        number(at[0], sps.log2_max_frame_num as nat, frame_num as int, at[1]),
        sps.frame_mbs_only ==> !field && at[2] == at[1],
        !sps.frame_mbs_only ==> flag(at[1], field, at[2]),
        !field ==> !bottom && at[3] == at[2],
        field ==> flag(at[2], bottom, at[3]),
        is_idr ==> unsigned(at[3], id as int, at[4]),
        first_macroblock_check(front.first_mb_in_slice, sps, field) is Ok,
    ensures
        slice_frame_syntax(at[0], is_idr, front, sps).1.error is None <==> (is_idr ==> frame_num == 0
            && id <= 65535),
        slice_frame_syntax(at[0], is_idr, front, sps).1.error is None ==> {
            let (frame, behind) = slice_frame_syntax(at[0], is_idr, front, sps);
            &&& frame.frame_num == frame_num
            &&& frame.field_picture == field
            &&& frame.bottom_field == bottom
            &&& is_idr ==> frame.idr_pic_id == Some(id) && behind == at[4]
            &&& !is_idr ==> frame.idr_pic_id is None && behind == at[3]
        },
{
    reveal(slice_frame_syntax);
}

/// A slice that begins outside its picture is refused.
pub proof fn law_slices_outside_their_picture_are_refused(
    start: Cursor,
    is_idr: bool,
    front: SliceFront,
    sps: SequenceView,
)
    requires
        first_macroblock_check(front.first_mb_in_slice, sps, false) is Err,
        sps.frame_mbs_only,
    ensures
        slice_frame_syntax(start, is_idr, front, sps).1.error is Some,
{
    reveal(slice_frame_syntax);
}

/// The order of the first kind is told by its low part, and in frames that say so by
/// how far the bottom field lies behind.
pub proof fn law_order_of_low_parts(
    at: Seq<Cursor>,
    sps: SequenceView,
    pps: PictureView,
    field: bool,
    length: u8,
    low: u32,
    bottom: i32,
)
    requires
        sps.pic_order_count == (PicOrderCountView::Type0 { log2_max_pic_order_cnt_lsb: length }),
        number(at[0], length as nat, low as int, at[1]),
        !field && pps.bottom_field_pic_order_in_frame_present ==> signed(
            at[1],
            bottom as int,
            at[2],
        ),
    ensures
        ({
            let (order, behind) = picture_order_syntax(at[0], sps, pps, field);
            &&& order.pic_order_cnt_lsb == Some(low)
            &&& order.delta_pic_order[0] is None
            &&& order.delta_pic_order[1] is None
            &&& field || !pps.bottom_field_pic_order_in_frame_present
                ==> order.delta_pic_order_bottom is None && behind == at[1]
            &&& !field && pps.bottom_field_pic_order_in_frame_present
                ==> order.delta_pic_order_bottom == Some(bottom) && behind == at[2]
        }),
{
}

/// The order of the second kind is told by one difference, and in frames that say so by
/// two, unless all differences are zero.
pub proof fn law_order_of_cycles(
    at: Seq<Cursor>,
    sps: SequenceView,
    pps: PictureView,
    field: bool,
    first: i32,
    second: i32,
)
    requires
        at[0].error is None,
        sps.pic_order_count is Type1,
        !sps.pic_order_count->Type1_delta_pic_order_always_zero ==> signed(
            at[0],
            first as int,
            at[1],
        ),
        !sps.pic_order_count->Type1_delta_pic_order_always_zero && !field
            && pps.bottom_field_pic_order_in_frame_present ==> signed(at[1], second as int, at[2]),
    ensures
        ({
            let (order, behind) = picture_order_syntax(at[0], sps, pps, field);
            let zero = sps.pic_order_count->Type1_delta_pic_order_always_zero;
            let both = !field && pps.bottom_field_pic_order_in_frame_present;
            &&& order.pic_order_cnt_lsb is None
            &&& order.delta_pic_order_bottom is None
            &&& zero ==> order.delta_pic_order[0] is None && order.delta_pic_order[1] is None
                && behind == at[0]
            &&& !zero ==> order.delta_pic_order[0] == Some(first)
            &&& !zero && both ==> order.delta_pic_order[1] == Some(second) && behind == at[2]
            &&& !zero && !both ==> order.delta_pic_order[1] is None && behind == at[1]
        }),
{
}

/// The order of the third kind needs nothing.
pub proof fn law_order_of_output(
    start: Cursor,
    sps: SequenceView,
    pps: PictureView,
    field: bool,
)
    requires
        sps.pic_order_count is Type2,
    ensures
        picture_order_syntax(start, sps, pps, field).1 == start,
        picture_order_syntax(start, sps, pps, field).0.pic_order_cnt_lsb is None,
        picture_order_syntax(start, sps, pps, field).0.delta_pic_order_bottom is None,
        picture_order_syntax(start, sps, pps, field).0.delta_pic_order[0] is None,
        picture_order_syntax(start, sps, pps, field).0.delta_pic_order[1] is None,
{
}

/// Intra slices use no references, P slices one list and B slices two. A bit says
/// whether the numbers of references follow, each as one less; else the picture
/// parameter set gives them.
pub proof fn law_references_are_counted(
    at: Seq<Cursor>,
    slice_type: SliceType,
    pps: PictureView,
    given: bool,
    first: u8,
    second: u8,
)
    requires
        flag(at[0], given, at[1]),
        given ==> unsigned(at[1], first - 1, at[2]) && first <= 32,
        given ==> unsigned(at[2], second - 1, at[3]) && second <= 32,
    ensures
        slice_type is I || slice_type is Si ==> reference_counts_syntax(at[0], slice_type, pps) == (
            (0u8, 0u8),
            at[0],
        ),
        slice_type is P || slice_type is Sp ==> reference_counts_syntax(at[0], slice_type, pps)
            == if given {
            ((first, 0u8), at[2])
        } else {
            ((pps.num_ref_idx_l0_default_active, 0u8), at[1])
        },
        slice_type is B ==> reference_counts_syntax(at[0], slice_type, pps) == if given {
            ((first, second), at[3])
        } else {
            (
                (pps.num_ref_idx_l0_default_active, pps.num_ref_idx_l1_default_active),
                at[1],
            )
        },
{
}

/// No list has more than 32 references.
pub proof fn law_lists_have_no_more_than_32_references(
    at: Seq<Cursor>,
    pps: PictureView,
    first: int,
)
    requires
        flag(at[0], true, at[1]),
        unsigned(at[1], first - 1, at[2]),
        first > 32,
    ensures
        reference_counts_syntax(at[0], SliceType::P, pps).1.error is Some,
        reference_counts_syntax(at[0], SliceType::B, pps).1.error is Some,
{
}

/// How an operation on a reference list is coded: a picture number less, a picture
/// number more, each as one less than their difference, or a long-term picture.
pub open spec fn modification(
    before: Cursor,
    middle: Cursor,
    operation: ReferenceListModification,
    behind: Cursor,
) -> bool {
    match operation {
        ReferenceListModification::SubtractPicNum { abs_diff_pic_num } => {
            unsigned(before, 0, middle) && unsigned(middle, abs_diff_pic_num - 1, behind)
        },
        ReferenceListModification::AddPicNum { abs_diff_pic_num } => {
            unsigned(before, 1, middle) && unsigned(middle, abs_diff_pic_num - 1, behind)
        },
        ReferenceListModification::LongTerm { long_term_pic_num } => {
            unsigned(before, 2, middle) && unsigned(middle, long_term_pic_num as int, behind)
        },
    }
}

proof fn lemma_modifications(
    at: Seq<Cursor>,
    middle: Seq<Cursor>,
    operations: Seq<ReferenceListModification>,
    behind: Cursor,
    done: int,
)
    requires
        0 <= done <= operations.len() <= 64,
        at.len() == operations.len() + 1,
        forall|i: int|
            0 <= i < operations.len() ==> modification(
                at[i],
                middle[i],
                #[trigger] operations[i],
                at[i + 1],
            ),
        unsigned(at.last(), 3, behind),
    ensures
        modifications_syntax(at[done], operations.take(done)) == (operations, behind),
    decreases operations.len() - done,
{
    if done == operations.len() {
        assert(operations.take(done) =~= operations);
    } else {
        assert(modification(at[done], middle[done], operations[done], at[done + 1]));
        assert(operations.take(done).push(operations[done]) =~= operations.take(done + 1));
        lemma_modifications(at, middle, operations, behind, done + 1);
    }
}

/// The changes of a reference list stand one behind the other up to their end mark.
pub proof fn law_list_changes_are_read_in_turn(
    start: Cursor,
    at: Seq<Cursor>,
    middle: Seq<Cursor>,
    operations: Seq<ReferenceListModification>,
    behind: Cursor,
)
    requires
        flag(start, true, at[0]),
        operations.len() <= 64,
        at.len() == operations.len() + 1,
        forall|i: int|
            0 <= i < operations.len() ==> modification(
                at[i],
                middle[i],
                #[trigger] operations[i],
                at[i + 1],
            ),
        unsigned(at.last(), 3, behind),
    ensures
        list_modification_syntax(start) == (operations, behind),
{
    assert(operations.take(0) =~= Seq::<ReferenceListModification>::empty());
    lemma_modifications(at, middle, operations, behind, 0);
}

/// A weight and an offset stand between two places.
pub open spec fn weighted(
    before: Cursor,
    middle: Cursor,
    pair: WeightOffset,
    behind: Cursor,
) -> bool {
    &&& signed(before, pair.weight as int, middle)
    &&& signed(middle, pair.offset as int, behind)
    &&& -128 <= pair.weight <= 127
    &&& -128 <= pair.offset <= 127
}

/// The weights of a reference: for luma one pair, for chroma two, first that of Cb. A
/// bit before each says whether it is there.
pub proof fn law_weights_are_marked_by_their_presence(
    at: Seq<Cursor>,
    luma: Option<WeightOffset>,
    cb: WeightOffset,
    cr: WeightOffset,
    chroma: bool,
)
    requires
        flag(at[0], luma is Some, at[1]),
        luma is None ==> at[3] == at[1],
        luma matches Some(pair) ==> weighted(at[1], at[2], pair, at[3]),
        flag(at[3], chroma, at[4]),
        chroma ==> weighted(at[4], at[5], cb, at[6]),
        chroma ==> weighted(at[6], at[7], cr, at[8]),
    ensures
        ({
            let (weight, behind) = weight_syntax(at[0]);
            &&& weight.luma == luma
            &&& weight.chroma is Some <==> chroma
            &&& weight.chroma matches Some(pairs) ==> pairs[0] == cb && pairs[1] == cr
            &&& behind == if chroma {
                at[8]
            } else {
                at[4]
            }
        }),
{
}

proof fn lemma_weights(at: Seq<Cursor>, weights: Seq<PredictionWeight>, done: int)
    requires
        0 <= done <= weights.len(),
        at.len() == weights.len() + 1,
        forall|i: int| 0 <= i <= weights.len() ==> (#[trigger] at[i]).error is None,
        forall|i: int|
            0 <= i < weights.len() ==> weight_syntax(at[i]) == (#[trigger] weights[i], at[i + 1]),
    ensures
        weights_syntax(at[done], weights.len(), weights.take(done)) == (weights, at.last()),
    decreases weights.len() - done,
{
    assert(at[done].error is None);
    if done == weights.len() {
        assert(weights.take(done) =~= weights);
    } else {
        assert(weight_syntax(at[done]) == (weights[done], at[done + 1]));
        assert(weights.take(done).push(weights[done]) =~= weights.take(done + 1));
        lemma_weights(at, weights, done + 1);
    }
}

/// A weight table begins with two denominators, for luma and for chroma, and weights
/// each reference of each list in turn. Only B slices have a second list.
pub proof fn law_tables_weight_each_reference(
    start: Seq<Cursor>,
    luma: u8,
    chroma: u8,
    at: Seq<Cursor>,
    first: Seq<PredictionWeight>,
    second_at: Seq<Cursor>,
    second: Seq<PredictionWeight>,
    slice_type: SliceType,
)
    requires
        unsigned(start[0], luma as int, start[1]),
        unsigned(start[1], chroma as int, start[2]),
        luma <= 7,
        chroma <= 7,
        first.len() <= 32,
        second.len() <= 32,
        at.len() == first.len() + 1,
        at[0] == start[2],
        forall|i: int| 0 <= i <= first.len() ==> (#[trigger] at[i]).error is None,
        forall|i: int|
            0 <= i < first.len() ==> weight_syntax(at[i]) == (#[trigger] first[i], at[i + 1]),
        second_at.len() == second.len() + 1,
        second_at[0] == at.last(),
        forall|i: int| 0 <= i <= second.len() ==> (#[trigger] second_at[i]).error is None,
        forall|i: int|
            0 <= i < second.len() ==> weight_syntax(second_at[i]) == (
                #[trigger] second[i],
                second_at[i + 1],
            ),
    ensures
        ({
            let (table, behind) = weight_table_syntax(
                start[0],
                slice_type,
                first.len() as u8,
                second.len() as u8,
            );
            &&& table.luma_log2_weight_denom == luma
            &&& table.chroma_log2_weight_denom == chroma
            &&& table.list0 == first
            &&& slice_type is B ==> table.list1 == second && behind == second_at.last()
            &&& !(slice_type is B) ==> table.list1.len() == 0 && behind == at.last()
        }),
{
    assert(first.take(0) =~= Seq::<PredictionWeight>::empty());
    assert(second.take(0) =~= Seq::<PredictionWeight>::empty());
    lemma_weights(at, first, 0);
    lemma_weights(second_at, second, 0);
}

/// How an operation on the store of references is coded.
pub open spec fn management(
    before: Cursor,
    middle: Cursor,
    last: Cursor,
    operation: MemoryManagementOperation,
    behind: Cursor,
) -> bool {
    match operation {
        MemoryManagementOperation::ForgetShortTerm { difference_of_pic_nums } => {
            unsigned(before, 1, middle) && unsigned(middle, difference_of_pic_nums - 1, behind)
        },
        MemoryManagementOperation::ForgetLongTerm { long_term_pic_num } => {
            unsigned(before, 2, middle) && unsigned(middle, long_term_pic_num as int, behind)
        },
        MemoryManagementOperation::AssignLongTerm {
            difference_of_pic_nums,
            long_term_frame_idx,
        } => {
            &&& unsigned(before, 3, middle)
            &&& unsigned(middle, difference_of_pic_nums - 1, last)
            &&& unsigned(last, long_term_frame_idx as int, behind)
        },
        MemoryManagementOperation::LimitLongTerm { max_long_term_frame_idx_plus1 } => {
            unsigned(before, 4, middle) && unsigned(
                middle,
                max_long_term_frame_idx_plus1 as int,
                behind,
            )
        },
        MemoryManagementOperation::ForgetAll => unsigned(before, 5, behind),
        MemoryManagementOperation::MarkCurrentLongTerm { long_term_frame_idx } => {
            unsigned(before, 6, middle) && unsigned(middle, long_term_frame_idx as int, behind)
        },
    }
}

proof fn lemma_managements(
    at: Seq<Cursor>,
    middle: Seq<Cursor>,
    last: Seq<Cursor>,
    operations: Seq<MemoryManagementOperation>,
    behind: Cursor,
    done: int,
)
    requires
        0 <= done <= operations.len() <= 64,
        at.len() == operations.len() + 1,
        forall|i: int|
            0 <= i < operations.len() ==> management(
                at[i],
                middle[i],
                last[i],
                #[trigger] operations[i],
                at[i + 1],
            ),
        unsigned(at.last(), 0, behind),
    ensures
        managements_syntax(at[done], operations.take(done)) == (operations, behind),
    decreases operations.len() - done,
{
    if done == operations.len() {
        assert(operations.take(done) =~= operations);
    } else {
        assert(management(at[done], middle[done], last[done], operations[done], at[done + 1]));
        assert(operations.take(done).push(operations[done]) =~= operations.take(done + 1));
        lemma_managements(at, middle, last, operations, behind, done + 1);
    }
}

/// The operations on the store of references stand one behind the other up to their end
/// mark.
pub proof fn law_store_operations_are_read_in_turn(
    start: Cursor,
    at: Seq<Cursor>,
    middle: Seq<Cursor>,
    last: Seq<Cursor>,
    operations: Seq<MemoryManagementOperation>,
    behind: Cursor,
    priority: u8,
)
    requires
        priority > 0,
        flag(start, true, at[0]),
        operations.len() <= 64,
        at.len() == operations.len() + 1,
        forall|i: int|
            0 <= i < operations.len() ==> management(
                at[i],
                middle[i],
                last[i],
                #[trigger] operations[i],
                at[i + 1],
            ),
        unsigned(at.last(), 0, behind),
    ensures
        marking_syntax(start, priority, false) == (MarkingView::Adaptive(operations), behind),
{
    assert(operations.take(0) =~= Seq::<MemoryManagementOperation>::empty());
    lemma_managements(at, middle, last, operations, behind, 0);
}

/// Pictures that are not referred to are not marked. Those that reset decoding say
/// whether earlier pictures are shown and whether they are kept for long. Others fill a
/// sliding window, unless they say otherwise.
pub proof fn law_references_are_marked(
    at: Seq<Cursor>,
    priority: u8,
    no_output: bool,
    long_term: bool,
)
    requires
        flag(at[0], no_output, at[1]),
        flag(at[1], long_term, at[2]),
    ensures
        marking_syntax(at[0], 0, false) == (MarkingView::Unmarked, at[0]),
        marking_syntax(at[0], 0, true) == (MarkingView::Unmarked, at[0]),
        priority > 0 ==> marking_syntax(at[0], priority, true) == (
            MarkingView::Idr {
                no_output_of_prior_pictures: no_output,
                long_term_reference: long_term,
            },
            at[2],
        ),
        priority > 0 && !no_output ==> marking_syntax(at[0], priority, false) == (
            MarkingView::SlidingWindow,
            at[1],
        ),
{
}

/// The quantizer of a slice is that of its picture plus a difference, in 0 to 51.
pub proof fn law_slice_quantizers_are_differences(
    at: Seq<Cursor>,
    initial: i8,
    quantizer: int,
)
    requires
        signed(at[0], quantizer - initial, at[1]),
    ensures
        slice_quantizer_syntax(at[0], initial).1.error is None <==> 0 <= quantizer <= 51,
        0 <= quantizer <= 51 ==> slice_quantizer_syntax(at[0], initial) == (quantizer as u8, at[1]),
{
}

/// The filter of edges is on, off or kept inside the slice. Where it is not off, two
/// offsets in -6 to 6 follow.
pub proof fn law_filters_have_offsets_unless_off(
    at: Seq<Cursor>,
    idc: u8,
    alpha: int,
    beta: int,
)
    requires
        unsigned(at[0], idc as int, at[1]),
        idc != 1 ==> signed(at[1], alpha, at[2]),
        idc != 1 ==> signed(at[2], beta, at[3]),
    ensures
        idc > 2 ==> deblocking_syntax(at[0]).1.error is Some,
        idc == 1 ==> deblocking_syntax(at[0]) == (
            DeblockingFilter { idc: 1, alpha_c0_offset_div2: 0, beta_offset_div2: 0 },
            at[1],
        ),
        idc == 0 || idc == 2 ==> {
            &&& deblocking_syntax(at[0]).1.error is None <==> -6 <= alpha <= 6 && -6 <= beta <= 6
            &&& deblocking_syntax(at[0]).1.error is None ==> deblocking_syntax(at[0]) == (
                DeblockingFilter {
                    idc,
                    alpha_c0_offset_div2: alpha as i8,
                    beta_offset_div2: beta as i8,
                },
                at[3],
            )
        },
{
}

/// A number of so many bits lies below the power of two, and not below half of it.
pub proof fn law_bit_lengths_hold_their_number(value: nat)
    ensures
        value < pow2(bit_length(value)),
        value > 0 ==> 2 * value >= pow2(bit_length(value)),
        value == 0 ==> bit_length(value) == 0,
    decreases value,
{
    lemma2_to64();
    if value > 0 {
        law_bit_lengths_hold_their_number(value / 2);
        lemma_pow2_unfold(bit_length(value));
        assert(bit_length(value) == 1 + bit_length(value / 2));
    }
}

/// The cycle of changing slice groups has as many bits as it takes to count the whole
/// changes of the picture, and is at most their number, rounded up.
pub proof fn law_cycles_count_the_changes(
    at: Seq<Cursor>,
    sps: SequenceView,
    pps: PictureView,
    rate: u32,
    whole: nat,
    rest: nat,
    cycle: u32,
)
    requires
        pps.slice_group_map matches Some(SliceGroupMapView::Changing { change_rate, .. })
            && change_rate == rate,
        rest < rate,
        sps.pic_width_in_mbs * sps.pic_height_in_map_units == whole * rate + rest,
        sps.pic_width_in_mbs * sps.pic_height_in_map_units <= u32::MAX,
        number(at[0], bit_length(whole), cycle as int, at[1]),
    ensures
        ({
            let changes = if rest == 0 {
                whole
            } else {
                whole + 1
            };
            &&& change_cycle_syntax(at[0], sps, pps).1.error is None <==> cycle <= changes
            &&& cycle <= changes ==> change_cycle_syntax(at[0], sps, pps) == (Some(cycle), at[1])
        }),
{
    let size = sps.pic_width_in_mbs * sps.pic_height_in_map_units;
    lemma_fundamental_div_mod_converse(
        size,
        rate as int,
        whole as int,
        rest as int,
    );
    if rest == 0 {
        lemma_fundamental_div_mod_converse(
            size + rate - 1,
            rate as int,
            whole as int,
            rate - 1,
        );
    } else {
        assert((whole + 1) * rate == whole * rate + rate) by (nonlinear_arith);
        lemma_fundamental_div_mod_converse(
            size + rate - 1,
            rate as int,
            (whole + 1) as int,
            rest - 1,
        );
    }
}

/// Without changing slice groups there is no cycle.
pub proof fn law_other_groups_have_no_cycle(start: Cursor, sps: SequenceView, pps: PictureView)
    requires
        !(pps.slice_group_map matches Some(SliceGroupMapView::Changing { .. })),
    ensures
        change_cycle_syntax(start, sps, pps) == (None::<u32>, start),
{
}

/// Weights are given for P slices where the picture parameter set says so, and for B
/// slices where it says that they are explicit.
pub proof fn law_weights_are_given_where_they_are_explicit(slice_type: SliceType, pps: PictureView)
    ensures
        slice_type is P || slice_type is Sp ==> (has_weight_table(slice_type, pps)
            <==> pps.weighted_prediction),
        slice_type is B ==> (has_weight_table(slice_type, pps)
            <==> pps.weighted_biprediction is Explicit),
        slice_type is I || slice_type is Si ==> !has_weight_table(slice_type, pps),
{
}

/// A slice states its frame, its order, the count of redundant pictures where there are
/// such, and in B slices how direct vectors are predicted.
pub proof fn law_slices_state_their_picture(
    at: Seq<Cursor>,
    is_idr: bool,
    front: SliceFront,
    sps: SequenceView,
    pps: PictureView,
    redundant: u32,
    spatial: bool,
)
    requires
        slice_frame_syntax(at[0], is_idr, front, sps).1 == at[1],
        picture_order_syntax(
            at[1],
            sps,
            pps,
            slice_frame_syntax(at[0], is_idr, front, sps).0.field_picture,
        ).1 == at[2],
        at[2].error is None,
        pps.redundant_pic_count_present ==> unsigned(at[2], redundant as int, at[3]),
        !pps.redundant_pic_count_present ==> at[3] == at[2],
        front.slice_type is B ==> flag(at[3], spatial, at[4]),
        !(front.slice_type is B) ==> at[4] == at[3],
    ensures
        ({
            let (picture, behind) = slice_picture_syntax(at[0], is_idr, front, sps, pps);
            let frame = slice_frame_syntax(at[0], is_idr, front, sps).0;
            &&& behind.error is None <==> (pps.redundant_pic_count_present ==> redundant <= 127)
            &&& behind.error is None ==> behind == at[4]
            &&& picture.frame_num == frame.frame_num
            &&& picture.field_picture == frame.field_picture
            &&& picture.bottom_field == frame.bottom_field
            &&& picture.idr_pic_id == frame.idr_pic_id
            &&& picture.picture_order == picture_order_syntax(
                at[1],
                sps,
                pps,
                frame.field_picture,
            ).0
            &&& picture.redundant_pic_count is Some <==> pps.redundant_pic_count_present
            &&& picture.redundant_pic_count matches Some(count) ==> count == redundant
            &&& picture.direct_spatial_mv_prediction is Some <==> front.slice_type is B
            &&& behind.error is None ==> (picture.direct_spatial_mv_prediction matches Some(given)
                ==> given == spatial)
        }),
{
    reveal(slice_picture_syntax);
}

/// A slice states how many references it uses, the changes of their lists, their
/// weights and how its picture is marked. Intra slices have no list to change, and B
/// slices have two.
pub proof fn law_slices_state_their_references(
    at: Seq<Cursor>,
    slice_type: SliceType,
    pps: PictureView,
    priority: u8,
    is_idr: bool,
)
    requires
        reference_counts_syntax(at[0], slice_type, pps).1 == at[1],
        slice_type is I || slice_type is Si ==> at[2] == at[1],
        !(slice_type is I || slice_type is Si) ==> list_modification_syntax(at[1]).1 == at[2],
        slice_type is B ==> list_modification_syntax(at[2]).1 == at[3],
        !(slice_type is B) ==> at[3] == at[2],
        !has_weight_table(slice_type, pps) ==> at[4] == at[3],
        has_weight_table(slice_type, pps) ==> weight_table_syntax(
            at[3],
            slice_type,
            reference_counts_syntax(at[0], slice_type, pps).0.0,
            reference_counts_syntax(at[0], slice_type, pps).0.1,
        ).1 == at[4],
        marking_syntax(at[4], priority, is_idr).1 == at[5],
    ensures
        ({
            let (references, behind) = references_syntax(
                at[0],
                slice_type,
                pps,
                priority,
                is_idr,
            );
            let counts = reference_counts_syntax(at[0], slice_type, pps).0;
            &&& behind == at[5]
            &&& references.num_ref_idx_l0_active == counts.0
            &&& references.num_ref_idx_l1_active == counts.1
            &&& slice_type is I || slice_type is Si
                ==> references.ref_pic_list_modifications_l0.len() == 0
            &&& !(slice_type is I || slice_type is Si) ==> references.ref_pic_list_modifications_l0
                == list_modification_syntax(at[1]).0
            &&& slice_type is B ==> references.ref_pic_list_modifications_l1
                == list_modification_syntax(at[2]).0
            &&& !(slice_type is B) ==> references.ref_pic_list_modifications_l1.len() == 0
            &&& !has_weight_table(slice_type, pps) ==> references.prediction_weights is None
            &&& has_weight_table(slice_type, pps) ==> references.prediction_weights == Some(
                weight_table_syntax(at[3], slice_type, counts.0, counts.1).0,
            )
            &&& references.reference_picture_marking == marking_syntax(at[4], priority, is_idr).0
        }),
{
    reveal(references_syntax);
}

/// A slice states the start of its arithmetic decoder where there is one, its
/// quantizer, those of switching slices, its filter and its cycle of slice groups.
pub proof fn law_slices_state_their_controls(
    at: Seq<Cursor>,
    slice_type: SliceType,
    sps: SequenceView,
    pps: PictureView,
    idc: u8,
    switching: bool,
)
    requires
        at[0].error is None,
        pps.entropy_coding_mode is Cabac && !(slice_type is I || slice_type is Si) ==> unsigned(
            at[0],
            idc as int,
            at[1],
        ) && idc <= 2,
        !(pps.entropy_coding_mode is Cabac && !(slice_type is I || slice_type is Si)) ==> at[1]
            == at[0],
        slice_quantizer_syntax(at[1], pps.pic_init_qp).1 == at[2],
        at[2].error is None,
        slice_type is Sp ==> flag(at[2], switching, at[3]),
        !(slice_type is Sp) ==> at[3] == at[2],
        slice_type is Sp || slice_type is Si ==> slice_quantizer_syntax(at[3], pps.pic_init_qs).1
            == at[4],
        !(slice_type is Sp || slice_type is Si) ==> at[4] == at[3],
        pps.deblocking_filter_control_present ==> deblocking_syntax(at[4]).1 == at[5],
        !pps.deblocking_filter_control_present ==> at[5] == at[4],
        change_cycle_syntax(at[5], sps, pps).1 == at[6],
    ensures
        ({
            let (controls, behind) = slice_controls_syntax(at[0], slice_type, sps, pps);
            let inter = !(slice_type is I || slice_type is Si);
            &&& behind == at[6]
            &&& controls.cabac_init_idc is Some <==> pps.entropy_coding_mode is Cabac && inter
            &&& controls.cabac_init_idc matches Some(given) ==> given == idc
            &&& controls.slice_qp_y == slice_quantizer_syntax(at[1], pps.pic_init_qp).0
            &&& controls.sp_for_switch is Some <==> slice_type is Sp
            &&& controls.sp_for_switch matches Some(given) ==> given == switching
            &&& controls.slice_qs_y is Some <==> slice_type is Sp || slice_type is Si
            &&& controls.slice_qs_y matches Some(given) ==> given == slice_quantizer_syntax(
                at[3],
                pps.pic_init_qs,
            ).0
            &&& controls.deblocking_filter is Some <==> pps.deblocking_filter_control_present
            &&& controls.deblocking_filter matches Some(given) ==> given == deblocking_syntax(
                at[4],
            ).0
            &&& controls.slice_group_change_cycle == change_cycle_syntax(at[5], sps, pps).0
        }),
{
    reveal(slice_controls_syntax);
}

/// A slice header holds what its parts say, one behind the other, and knows where it
/// ends. Only ordinary slices are taken, and one that resets decoding is referred to.
pub proof fn law_headers_hold_their_parts(
    data: Seq<u8>,
    at: Seq<Cursor>,
    nal: NalHeader,
    store: ParameterSetStore,
    header: SliceHeader,
)
    requires
        header@ == slice_header_syntax(data, nal, store).0,
        slice_header_syntax(data, nal, store).1.error is None,
        at[0] == (Cursor { data, position: 0, error: None }),
        at[1] == front_syntax(at[0], nal.unit_type is IdrSlice).1,
        store.resolved(header.picture_parameter_set_id) matches Some(active) && {
            let sps = active.sequence@;
            let pps = active.picture@;
            let front = front_syntax(at[0], nal.unit_type is IdrSlice).0;
            let idr = nal.unit_type is IdrSlice;
            &&& at[2] == slice_picture_syntax(at[1], idr, front, sps, pps).1
            &&& at[3] == references_syntax(at[2], front.slice_type, pps, nal.nal_ref_idc, idr).1
            &&& at[4] == slice_controls_syntax(at[3], front.slice_type, sps, pps).1
        },
    ensures
        nal.unit_type is IdrSlice || nal.unit_type is NonIdrSlice,
        nal.unit_type is IdrSlice ==> nal.nal_ref_idc != 0,
        ({
            let active = store.resolved(header.picture_parameter_set_id)->Some_0;
            let sps = active.sequence@;
            let pps = active.picture@;
            let idr = nal.unit_type is IdrSlice;
            let front = front_syntax(at[0], idr).0;
            let picture = slice_picture_syntax(at[1], idr, front, sps, pps).0;
            let references = references_syntax(
                at[2],
                front.slice_type,
                pps,
                nal.nal_ref_idc,
                idr,
            ).0;
            let controls = slice_controls_syntax(at[3], front.slice_type, sps, pps).0;
            &&& header.first_mb_in_slice == front.first_mb_in_slice
            &&& header.slice_type == front.slice_type
            &&& header.all_slices_same_type == front.all_slices_same_type
            &&& header.picture_parameter_set_id == front.picture_parameter_set_id
            &&& header.frame_num == picture.frame_num
            &&& header.field_picture == picture.field_picture
            &&& header.bottom_field == picture.bottom_field
            &&& header.idr_pic_id == picture.idr_pic_id
            &&& header.picture_order == picture.picture_order
            &&& header.redundant_pic_count == picture.redundant_pic_count
            &&& header.direct_spatial_mv_prediction == picture.direct_spatial_mv_prediction
            &&& header.num_ref_idx_l0_active == references.num_ref_idx_l0_active
            &&& header.num_ref_idx_l1_active == references.num_ref_idx_l1_active
            &&& header.ref_pic_list_modifications_l0@ == references.ref_pic_list_modifications_l0
            &&& header.ref_pic_list_modifications_l1@ == references.ref_pic_list_modifications_l1
            &&& header.reference_picture_marking@ == references.reference_picture_marking
            &&& header.cabac_init_idc == controls.cabac_init_idc
            &&& header.slice_qp_y == controls.slice_qp_y
            &&& header.sp_for_switch == controls.sp_for_switch
            &&& header.slice_qs_y == controls.slice_qs_y
            &&& header.deblocking_filter == controls.deblocking_filter
            &&& header.slice_group_change_cycle == controls.slice_group_change_cycle
            &&& header.bit_size == at[4].position
        }),
{
    lemma_parts_keep_failure();
    assert(header.picture_parameter_set_id == header@.front.picture_parameter_set_id);
}

} // verus!
