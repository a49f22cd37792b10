//! Laws of picture order counts.

use vstd::arithmetic::div_mod::{lemma_fundamental_div_mod, lemma_fundamental_div_mod_converse};
use vstd::arithmetic::power2::pow2;
use vstd::prelude::*;

use crate::h264::error::H264Error;
use crate::h264::picture::{
    derived_counts, frame_offset, offset_chain, offset_sum, type0_counts, type0_msb,
    type0_reference, type1_counts, type1_expected, type2_counts, CodedPicture, OrderStateView,
};
use crate::h264::slice::SlicePicture;
use crate::h264::sps::SequenceView;

verus! {

/// A count of type 0 is the only one with its least significant bits that is less than
/// half a period below its reference and at most half a period above.
pub proof fn law_type0_takes_the_nearest_count(reference: (int, int), lsb: int, period: int)
    requires
        0 < period,
        period % 2 == 0,
        0 <= lsb < period,
        0 <= reference.1 < period,
    ensures
        ({
            let distance = type0_msb(reference, lsb, period) + lsb - (reference.0 + reference.1);
            -period < 2 * distance <= period
        }),
        exists|turns: int|
            type0_msb(reference, lsb, period) == reference.0 + #[trigger] (turns * period),
{
    let msb = type0_msb(reference, lsb, period);
    let turns: int = if msb == reference.0 {
        0
    } else if msb > reference.0 {
        1
    } else {
        -1
    };
    assert(turns * period == msb - reference.0) by (nonlinear_arith)
        requires
            turns == 0 && msb == reference.0 || turns == 1 && msb == reference.0 + period || turns
                == -1 && msb == reference.0 - period,
    ;
}

/// A frame of type 0 has its top field at its own count and the bottom field at a
/// distance that the slice gives, and a field picture has the one field that it is.
pub proof fn law_type0_counts_of_fields(
    state: OrderStateView,
    picture: SlicePicture,
    is_idr: bool,
    log2_period: u8,
)
    requires
        type0_counts(state, picture, is_idr, log2_period) is Ok,
    ensures
        picture.picture_order.pic_order_cnt_lsb is Some,
        ({
            let lsb = picture.picture_order.pic_order_cnt_lsb->0;
            let (counts, msb) = type0_counts(state, picture, is_idr, log2_period)->Ok_0;
            let value = msb + lsb;
            let bottom = match picture.picture_order.delta_pic_order_bottom {
                Some(delta) => value + delta,
                None => value,
            };
            &&& msb == type0_msb(
                type0_reference(state, is_idr),
                lsb as int,
                pow2(log2_period as nat) as int,
            )
            &&& !picture.field_picture ==> counts.top is Some && counts.top->0 == value
                && counts.bottom is Some && counts.bottom->0 == bottom
            &&& picture.field_picture && !picture.bottom_field ==> counts.top is Some
                && counts.top->0 == value && counts.bottom is None
            &&& picture.field_picture && picture.bottom_field ==> counts.bottom is Some
                && counts.bottom->0 == value && counts.top is None
        }),
{
}

/// The counts of type 0 of a picture are measured from the reference picture before it:
/// from the count of its top field, or from zero after a bottom field that forgot all
/// references. Pictures that are no references change nothing.
pub proof fn law_type0_is_measured_from_the_reference_before(
    state: OrderStateView,
    sps: SequenceView,
    coded: CodedPicture,
)
    requires
        sps.pic_order_count is Type0,
        derived_counts(state, sps, coded) is Ok,
    ensures
        ({
            let (count, next) = derived_counts(state, sps, coded)->Ok_0;
            let (msb, lsb) = type0_reference(next, false);
            &&& coded.nal.nal_ref_idc == 0 ==> next == state
            &&& coded.nal.nal_ref_idc != 0 && !coded.mmco5 ==> {
                &&& count.decoding.top is Some ==> msb + lsb == count.decoding.top->0
                &&& count.decoding.top is None ==> msb + lsb == count.decoding.bottom->0
                &&& lsb == coded.picture.picture_order.pic_order_cnt_lsb->0
            }
            &&& coded.nal.nal_ref_idc != 0 && coded.mmco5 ==> {
                &&& msb == 0
                &&& !(coded.picture.field_picture && coded.picture.bottom_field) ==> lsb
                    == count.stored.top->0
                &&& coded.picture.field_picture && coded.picture.bottom_field ==> lsb == 0
            }
            &&& type0_reference(next, true) == (0int, 0int)
        }),
{
}

/// A chain of offsets is the sum of them.
proof fn lemma_chain(start: int, offsets: Seq<i32>, count: nat)
    ensures
        offset_chain(start, offsets, count) matches Ok(sum) ==> sum == start + offset_sum(
            offsets,
            count,
        ),
    decreases count,
{
    if count > 0 {
        lemma_chain(start, offsets, (count - 1) as nat);
    }
}

/// The expected counts of type 1 begin at zero and rise from frame to frame by the
/// offsets of the cycle, one after the other and then from the first again.
pub proof fn law_type1_cycles_through_its_offsets(frame: int, offsets: Seq<i32>)
    requires
        1 <= frame,
        offsets.len() > 0,
        type1_expected(frame, offsets) is Ok,
        type1_expected(frame - 1, offsets) is Ok,
    ensures
        type1_expected(0, offsets) == Ok::<int, H264Error>(0),
        type1_expected(frame, offsets)->Ok_0 - type1_expected(frame - 1, offsets)->Ok_0
            == offsets[(frame - 1) % offsets.len() as int],
{
    reveal(type1_expected);
    let length = offsets.len() as int;
    let cycles = (frame - 1) / length;
    let within = (frame - 1) % length;
    assert(0 <= within < length && frame - 1 == cycles * length + within) by {
        lemma_fundamental_div_mod(frame - 1, length);
        assert(length * cycles == cycles * length) by (nonlinear_arith);
    }
    let sum = offset_sum(offsets, offsets.len());
    lemma_chain(cycles * sum, offsets, (within + 1) as nat);
    if frame - 1 > 0 {
        if within > 0 {
            lemma_fundamental_div_mod_converse(frame - 2, length, cycles, within - 1);
            lemma_chain(cycles * sum, offsets, within as nat);
        } else {
            assert(frame - 2 == (cycles - 1) * length + (length - 1)) by (nonlinear_arith)
                requires
                    frame - 1 == cycles * length,
            ;
            assert(length * (cycles - 1) == (cycles - 1) * length) by (nonlinear_arith);
            lemma_fundamental_div_mod_converse(frame - 2, length, cycles - 1, length - 1);
            lemma_chain((cycles - 1) * sum, offsets, offsets.len());
            assert((cycles - 1) * sum + sum == cycles * sum) by (nonlinear_arith);
        }
    } else {
        assert(cycles == 0 && within == 0) by {
            lemma_fundamental_div_mod_converse(0, length, 0, 0);
        }
        assert(cycles * sum == 0) by (nonlinear_arith)
            requires
                cycles == 0,
        ;
    }
    assert(offset_sum(offsets, (within + 1) as nat) == offset_sum(offsets, within as nat)
        + offsets[within]);
}

/// A picture of type 1 lies at the expected count of its frame, or of the frame before
/// with the offset for such pictures where it is no reference, plus what its slice
/// adds. The bottom field lies the given distance from the top.
pub proof fn law_type1_counts(
    state: OrderStateView,
    picture: SlicePicture,
    nal_ref_idc: u8,
    is_idr: bool,
    log2_max_frame_num: u8,
    non_ref: i32,
    top_to_bottom: i32,
    offsets: Seq<i32>,
)
    requires
        type1_counts(
            state,
            picture,
            nal_ref_idc,
            is_idr,
            log2_max_frame_num,
            non_ref,
            top_to_bottom,
            offsets,
        ) is Ok,
    ensures
        ({
            let counts = type1_counts(
                state,
                picture,
                nal_ref_idc,
                is_idr,
                log2_max_frame_num,
                non_ref,
                top_to_bottom,
                offsets,
            )->Ok_0;
            let number = frame_offset(state, picture.frame_num, is_idr, log2_max_frame_num)->Ok_0
                + picture.frame_num;
            let frame = if offsets.len() == 0 {
                0
            } else if nal_ref_idc == 0 && number > 0 {
                number - 1
            } else {
                number
            };
            let expected = type1_expected(frame, offsets)->Ok_0 + if nal_ref_idc == 0 {
                non_ref as int
            } else {
                0
            };
            let first = match picture.picture_order.delta_pic_order[0] {
                Some(delta) => delta as int,
                None => 0,
            };
            let second = match picture.picture_order.delta_pic_order[1] {
                Some(delta) => delta as int,
                None => 0,
            };
            &&& !picture.field_picture ==> counts.top is Some && counts.bottom is Some
                && counts.top->0 == expected + first && counts.bottom->0 == expected + first
                + top_to_bottom + second
            &&& picture.field_picture && !picture.bottom_field ==> counts.bottom is None
                && counts.top is Some && counts.top->0 == expected + first
            &&& picture.field_picture && picture.bottom_field ==> counts.top is None
                && counts.bottom is Some && counts.bottom->0 == expected + top_to_bottom + first
        }),
{
}

/// A picture of type 2 lies at twice the number of its frame, counted through the wraps
/// of frame numbers, one earlier where it is no reference, and at zero where it starts a
/// sequence.
pub proof fn law_type2_counts(
    state: OrderStateView,
    picture: SlicePicture,
    nal_ref_idc: u8,
    is_idr: bool,
    log2_max_frame_num: u8,
)
    requires
        type2_counts(state, picture, nal_ref_idc, is_idr, log2_max_frame_num) is Ok,
    ensures
        ({
            let counts = type2_counts(state, picture, nal_ref_idc, is_idr, log2_max_frame_num)->Ok_0;
            let wraps = if state.frame_num > picture.frame_num {
                pow2(log2_max_frame_num as nat) as int
            } else {
                0
            };
            let value = if is_idr {
                0
            } else {
                2 * (state.frame_num_offset + wraps + picture.frame_num) - if nal_ref_idc == 0 {
                    1int
                } else {
                    0
                }
            };
            &&& counts.top is None <==> picture.field_picture && picture.bottom_field
            &&& counts.bottom is None <==> picture.field_picture && !picture.bottom_field
            &&& counts.top is Some ==> counts.top->0 == value
            &&& counts.bottom is Some ==> counts.bottom->0 == value
        }),
{
}

/// The frame number of a picture and how often numbers wrapped around are remembered
/// for the next picture, and start again where all references are forgotten.
pub proof fn law_frame_numbers_are_remembered(
    state: OrderStateView,
    sps: SequenceView,
    coded: CodedPicture,
)
    requires
        !(sps.pic_order_count is Type0),
        derived_counts(state, sps, coded) is Ok,
    ensures
        ({
            let next = derived_counts(state, sps, coded)->Ok_0.1;
            &&& coded.mmco5 ==> next.frame_num == 0 && next.frame_num_offset == 0
            &&& !coded.mmco5 ==> next.frame_num == coded.picture.frame_num
            &&& !coded.mmco5 && coded.nal.unit_type is IdrSlice ==> next.frame_num_offset == 0
            &&& !coded.mmco5 && !(coded.nal.unit_type is IdrSlice) && coded.picture.frame_num
                >= state.frame_num ==> next.frame_num_offset == state.frame_num_offset
            &&& !coded.mmco5 && !(coded.nal.unit_type is IdrSlice) && coded.picture.frame_num
                < state.frame_num ==> next.frame_num_offset == state.frame_num_offset + pow2(
                sps.log2_max_frame_num as nat,
            )
        }),
{
}

/// The counts that are kept of a picture are its own, unless all references are
/// forgotten: then they are lowered by the same amount, so that the lowest is zero.
pub proof fn law_kept_counts_start_at_zero(
    state: OrderStateView,
    sps: SequenceView,
    coded: CodedPicture,
)
    requires
        derived_counts(state, sps, coded) is Ok,
    ensures
        ({
            let count = derived_counts(state, sps, coded)->Ok_0.0;
            let own = count.decoding;
            let kept = count.stored;
            &&& !coded.mmco5 ==> kept == own
            &&& kept.top is Some <==> own.top is Some
            &&& kept.bottom is Some <==> own.bottom is Some
            &&& coded.mmco5 && own.top is Some && own.bottom is Some ==> {
                &&& kept.top->0 - kept.bottom->0 == own.top->0 - own.bottom->0
                &&& kept.top->0 >= 0 && kept.bottom->0 >= 0
                &&& kept.top->0 == 0 || kept.bottom->0 == 0
            }
            &&& coded.mmco5 && own.top is Some && own.bottom is None ==> kept.top->0 == 0
            &&& coded.mmco5 && own.top is None && own.bottom is Some ==> kept.bottom->0 == 0
        }),
{
}

} // verus!
