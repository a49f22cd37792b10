//! Laws of sequence parameter sets.

use vstd::arithmetic::div_mod::{
    lemma_fundamental_div_mod, lemma_fundamental_div_mod_converse, lemma_mod_bound,
};
use vstd::prelude::*;

use super::stream::{flag, number, signed, unsigned};
use crate::h264::bits::Cursor;
use crate::h264::error::H264Error;
use crate::h264::rbsp::trailing_bits;
use crate::h264::sps::{
    aspect_ratio_syntax, coded_buffers_syntax, coded_size_of, crop_syntax, display_size_of,
    format_syntax, hrd_syntax, layout_syntax, offsets_syntax, pic_order_count_syntax,
    restrictions_syntax, scaling_list_syntax, scaling_matrices_syntax, sequence_header_syntax,
    sequence_syntax, timing_syntax, video_signal_syntax, visible_rect_of, vui_syntax,
    BitstreamRestrictions, CropOffsets, PicOrderCountView, Profile, SampleAspectRatio,
    ScalingListView, SequenceParameterSet, TimingInfo,
};
use crate::media::{ColorInfo, ColorMatrix, ColorPrimaries, ColorRange, Size, TransferFunction};

verus! {

proof fn lemma_reserved_bits(flags: u8)
    by (bit_vector)
    ensures
        (flags & 0b11 == 0) == (flags % 4 == 0),
        flags & 0b1111_1100 == flags - flags % 4,
{
}

/// A sequence parameter set begins with its profile, its constraints, its level and its
/// number. It is refused where the profile is none of the three, the two reserved bits
/// are not zero or the number is above 31.
pub proof fn law_sequences_begin_with_their_profile(
    at: Seq<Cursor>,
    profile: u8,
    flags: u8,
    level: u8,
    id: u32,
)
    requires
        number(at[0], 8, profile as int, at[1]),
        number(at[1], 8, flags as int, at[2]),
        number(at[2], 8, level as int, at[3]),
        unsigned(at[3], id as int, at[4]),
    ensures
        sequence_header_syntax(at[0]).1.error is None <==> (profile == 66 || profile == 77
            || profile == 100) && flags % 4 == 0 && id <= 31,
        sequence_header_syntax(at[0]).1.error is None ==> {
            let header = sequence_header_syntax(at[0]).0;
            &&& sequence_header_syntax(at[0]).1 == at[4]
            &&& header.profile_idc == profile
            &&& header.profile is Baseline <==> profile == 66
            &&& header.profile is Main <==> profile == 77
            &&& header.profile is High <==> profile == 100
            &&& header.constraint_flags == flags
            &&& header.level_idc == level
            &&& header.id == id
        },
{
    lemma_reserved_bits(flags);
}

/// The High profile states its chroma format and its bit depths, which are 4:2:0 and 8
/// bits, then whether the transform may be bypassed and whether scaling lists come.
/// Other profiles state none of it.
pub proof fn law_formats_are_stated_by_the_high_profile(
    at: Seq<Cursor>,
    chroma: u32,
    luma_depth: u32,
    chroma_depth: u32,
    bypass: bool,
    present: bool,
)
    requires
        unsigned(at[0], chroma as int, at[1]),
        unsigned(at[1], luma_depth as int, at[2]),
        unsigned(at[2], chroma_depth as int, at[3]),
        flag(at[3], bypass, at[4]),
        flag(at[4], present, at[5]),
    ensures
        format_syntax(at[0], Profile::Baseline) == (
            (false, None::<Seq<Option<ScalingListView>>>),
            at[0],
        ),
        format_syntax(at[0], Profile::Main) == (
            (false, None::<Seq<Option<ScalingListView>>>),
            at[0],
        ),
        !(chroma == 1 && luma_depth == 0 && chroma_depth == 0) ==> format_syntax(
            at[0],
            Profile::High,
        ).1.error is Some,
        chroma == 1 && luma_depth == 0 && chroma_depth == 0 && !present ==> format_syntax(
            at[0],
            Profile::High,
        ) == ((bypass, None::<Seq<Option<ScalingListView>>>), at[5]),
        chroma == 1 && luma_depth == 0 && chroma_depth == 0 && present ==> format_syntax(
            at[0],
            Profile::High,
        ) == (
            (bypass, Some(scaling_matrices_syntax(at[5], 8, Seq::empty()).0)),
            scaling_matrices_syntax(at[5], 8, Seq::empty()).1,
        ),
{
}

/// The value before the one at `index`. The first value is told from 8.
pub open spec fn value_before(values: Seq<u8>, index: int) -> int {
    if index == 0 {
        8
    } else {
        values[index - 1] as int
    }
}

proof fn lemma_repeats(cursor: Cursor, size: nat, done: Seq<u8>, last: u8, use_default: bool)
    requires
        cursor.error is None,
        done.len() <= size,
    ensures
        ({
            let (list, behind) = scaling_list_syntax(
                cursor,
                size,
                done,
                last as i32,
                0,
                use_default,
            );
            &&& behind == cursor
            &&& list.use_default == use_default
            &&& list.values == done + Seq::new((size - done.len()) as nat, |i: int| last)
        }),
    decreases size - done.len(),
{
    if done.len() < size {
        lemma_repeats(cursor, size, done.push(last), last, use_default);
        assert(done.push(last) + Seq::new((size - done.len() - 1) as nat, |i: int| last) =~= done
            + Seq::new((size - done.len()) as nat, |i: int| last));
    } else {
        assert(done + Seq::new((size - done.len()) as nat, |i: int| last) =~= done);
    }
}

proof fn lemma_listed(
    at: Seq<Cursor>,
    deltas: Seq<int>,
    size: nat,
    values: Seq<u8>,
    told: nat,
    done: int,
)
    requires
        values.len() == size,
        0 <= done <= told <= size,
        told == size ==> deltas.len() == size,
        told < size ==> deltas.len() == told + 1,
        at.len() == deltas.len() + 1,
        at[0].error is None,
        forall|i: int|
            0 <= i < deltas.len() ==> #[trigger] signed(at[i], deltas[i], at[i + 1]) && -128
                <= deltas[i] <= 127,
        forall|i: int|
            0 <= i < told ==> #[trigger] values[i] != 0 && values[i] == (value_before(values, i)
                + deltas[i]) % 256,
        told < size ==> (value_before(values, told as int) + deltas[told as int]) % 256 == 0,
        forall|i: int|
            told <= i < size ==> #[trigger] values[i] == value_before(values, told as int),
        1 <= value_before(values, done) <= 255,
    ensures
        scaling_list_syntax(
            at[done],
            size,
            values.take(done),
            value_before(values, done) as i32,
            value_before(values, done) as i32,
            false,
        ) == (ScalingListView { values, use_default: told == 0 && size > 0 }, at.last()),
    decreases told - done,
{
    let here = at[done];
    let last = value_before(values, done);
    if done > 0 {
        assert(signed(at[done - 1], deltas[done - 1], at[done - 1 + 1]));
    }
    if done == size {
        assert(values.take(done) =~= values);
    } else {
        assert(signed(at[done], deltas[done], at[done + 1]));
        let next = values.take(done).push(values[done]);
        if done < told {
            assert(next =~= values.take(done + 1));
            assert(values[done] != 0);
            assert(value_before(values, done + 1) == values[done]);
            lemma_listed(at, deltas, size, values, told, done + 1);
        } else {
            assert(values[done] == last);
            lemma_repeats(at[done + 1], size, next, last as u8, done == 0);
            assert(next + Seq::new((size - next.len()) as nat, |i: int| last as u8) =~= values);
        }
    }
}

/// Each value of a scaling list is the one before it plus a signed difference, modulo
/// 256. The first is told from 8. The list ends with a difference that comes to zero:
/// the value before it is repeated, and a list that begins so asks for the default.
pub proof fn law_scaling_lists_are_told_by_differences(
    at: Seq<Cursor>,
    deltas: Seq<int>,
    size: nat,
    values: Seq<u8>,
    told: nat,
)
    requires
        values.len() == size,
        told <= size,
        told == size ==> deltas.len() == size,
        told < size ==> deltas.len() == told + 1,
        at.len() == deltas.len() + 1,
        at[0].error is None,
        forall|i: int|
            0 <= i < deltas.len() ==> #[trigger] signed(at[i], deltas[i], at[i + 1]) && -128
                <= deltas[i] <= 127,
        forall|i: int|
            0 <= i < told ==> #[trigger] values[i] != 0 && values[i] == (value_before(values, i)
                + deltas[i]) % 256,
        told < size ==> (value_before(values, told as int) + deltas[told as int]) % 256 == 0,
        forall|i: int|
            told <= i < size ==> #[trigger] values[i] == value_before(values, told as int),
    ensures
        scaling_list_syntax(at[0], size, Seq::empty(), 8, 8, false) == (
            ScalingListView { values, use_default: told == 0 && size > 0 },
            at.last(),
        ),
{
    assert(values.take(0) =~= Seq::<u8>::empty());
    lemma_listed(at, deltas, size, values, told, 0);
}

proof fn lemma_matrices(
    at: Seq<Cursor>,
    lists: Seq<Option<ScalingListView>>,
    count: nat,
    done: int,
)
    requires
        lists.len() == count,
        at.len() == count + 1,
        0 <= done <= count,
        forall|i: int| 0 <= i <= count ==> (#[trigger] at[i]).error is None,
        forall|i: int|
            0 <= i < count ==> {
                let (present, behind) = (#[trigger] at[i]).flag();
                match lists[i] {
                    None => !present && behind == at[i + 1],
                    Some(list) => present && scaling_list_syntax(
                        behind,
                        if i < 6 {
                            16
                        } else {
                            64
                        },
                        Seq::empty(),
                        8,
                        8,
                        false,
                    ) == (list, at[i + 1]),
                }
            },
    ensures
        scaling_matrices_syntax(at[done], count, lists.take(done)) == (
            lists,
            at[count as int],
        ),
    decreases count - done,
{
    if done == count {
        assert(lists.take(done) =~= lists);
    } else {
        let here = at[done];
        assert(lists.take(done).push(lists[done]) =~= lists.take(done + 1));
        lemma_matrices(at, lists, count, done + 1);
    }
}

/// Scaling lists come one behind the other, each behind a bit that says whether it is
/// there. The first six have 16 values, the others 64.
pub proof fn law_scaling_lists_are_marked_by_their_presence(
    at: Seq<Cursor>,
    lists: Seq<Option<ScalingListView>>,
    count: nat,
)
    requires
        lists.len() == count,
        at.len() == count + 1,
        forall|i: int| 0 <= i <= count ==> (#[trigger] at[i]).error is None,
        forall|i: int|
            0 <= i < count ==> {
                let (present, behind) = (#[trigger] at[i]).flag();
                match lists[i] {
                    None => !present && behind == at[i + 1],
                    Some(list) => present && scaling_list_syntax(
                        behind,
                        if i < 6 {
                            16
                        } else {
                            64
                        },
                        Seq::empty(),
                        8,
                        8,
                        false,
                    ) == (list, at[i + 1]),
                }
            },
    ensures
        scaling_matrices_syntax(at[0], count, Seq::empty()) == (lists, at[count as int]),
{
    assert(lists.take(0) =~= Seq::<Option<ScalingListView>>::empty());
    lemma_matrices(at, lists, count, 0);
}

/// The sample aspect ratio is told by a code: 0 says nothing, 1 to 16 name a ratio and
/// 255 spells one out. Other codes are refused, as is a ratio with a zero.
pub proof fn law_aspect_ratios_are_told_by_a_code(
    at: Seq<Cursor>,
    code: u8,
    width: u16,
    height: u16,
)
    requires
        number(at[0], 8, code as int, at[1]),
        code == 255 ==> number(at[1], 16, width as int, at[2]),
        code == 255 ==> number(at[2], 16, height as int, at[3]),
    ensures
        ({
            let (ratio, behind) = aspect_ratio_syntax(at[0]);
            let names = |w: u16, h: u16|
                ratio == Some(SampleAspectRatio { width: w, height: h }) && behind == at[1];
            &&& code == 0 ==> ratio is None && behind == at[1]
            &&& code == 1 ==> names(1, 1)
            &&& code == 2 ==> names(12, 11)
            &&& code == 3 ==> names(10, 11)
            &&& code == 4 ==> names(16, 11)
            &&& code == 5 ==> names(40, 33)
            &&& code == 6 ==> names(24, 11)
            &&& code == 7 ==> names(20, 11)
            &&& code == 8 ==> names(32, 11)
            &&& code == 9 ==> names(80, 33)
            &&& code == 10 ==> names(18, 11)
            &&& code == 11 ==> names(15, 11)
            &&& code == 12 ==> names(64, 33)
            &&& code == 13 ==> names(160, 99)
            &&& code == 14 ==> names(4, 3)
            &&& code == 15 ==> names(3, 2)
            &&& code == 16 ==> names(2, 1)
            &&& 16 < code < 255 ==> behind.error is Some
            &&& code == 255 && (width == 0 || height == 0) ==> behind.error is Some
            &&& code == 255 && width != 0 && height != 0 ==> behind == at[3] && ratio == Some(
                SampleAspectRatio { width, height },
            )
        }),
{
}

/// Colors are told by their range and by three codes. Where the codes are missing, or
/// the whole, they stay unspecified.
pub proof fn law_colors_are_told_by_their_codes(
    at: Seq<Cursor>,
    format: u8,
    full: bool,
    described: bool,
    primaries: u8,
    transfer: u8,
    matrix: u8,
)
    requires
        flag(at[0], true, at[1]),
        number(at[1], 3, format as int, at[2]),
        flag(at[2], full, at[3]),
        flag(at[3], described, at[4]),
        described ==> number(at[4], 8, primaries as int, at[5]),
        described ==> number(at[5], 8, transfer as int, at[6]),
        described ==> number(at[6], 8, matrix as int, at[7]),
    ensures
        ({
            let ((told, color), behind) = video_signal_syntax(at[0]);
            &&& told == Some(format)
            &&& color.range == if full {
                ColorRange::Full
            } else {
                ColorRange::Limited
            }
            &&& !described ==> behind == at[4] && color.primaries is Unspecified
                && color.transfer is Unspecified && color.matrix is Unspecified
            &&& described ==> {
                &&& behind == at[7]
                &&& color.primaries is Bt709 <==> primaries == 1
                &&& color.primaries is Unspecified <==> primaries == 2
                &&& color.primaries is Bt601_625 <==> primaries == 5
                &&& color.primaries is Bt601_525 <==> primaries == 6
                &&& color.primaries is Bt2020 <==> primaries == 9
                &&& color.primaries matches ColorPrimaries::Other(code) ==> code == primaries
                &&& color.transfer is Bt709 <==> transfer == 1
                &&& color.transfer is Unspecified <==> transfer == 2
                &&& color.transfer is Bt470Bg <==> transfer == 5
                &&& color.transfer is Smpte170M <==> transfer == 6
                &&& color.transfer is Linear <==> transfer == 8
                &&& color.transfer is Srgb <==> transfer == 13
                &&& color.transfer is Bt2020TenBit <==> transfer == 14
                &&& color.transfer is Bt2020TwelveBit <==> transfer == 15
                &&& color.transfer matches TransferFunction::Other(code) ==> code == transfer
                &&& color.matrix is Identity <==> matrix == 0
                &&& color.matrix is Bt709 <==> matrix == 1
                &&& color.matrix is Unspecified <==> matrix == 2
                &&& color.matrix is Bt470Bg <==> matrix == 5
                &&& color.matrix is Smpte170M <==> matrix == 6
                &&& color.matrix is Bt2020NonConstantLuminance <==> matrix == 9
                &&& color.matrix is Bt2020ConstantLuminance <==> matrix == 10
                &&& color.matrix matches ColorMatrix::Other(code) ==> code == matrix
            }
        }),
{
}

/// Without a video signal nothing is said of colors.
pub proof fn law_colors_may_be_left_open(at: Seq<Cursor>)
    requires
        flag(at[0], false, at[1]),
    ensures
        video_signal_syntax(at[0]) == (
            (
                None::<u8>,
                ColorInfo {
                    range: ColorRange::Unspecified,
                    primaries: ColorPrimaries::Unspecified,
                    transfer: TransferFunction::Unspecified,
                    matrix: ColorMatrix::Unspecified,
                },
            ),
            at[1],
        ),
{
}

/// Timing is told by the units of a tick, the time scale and whether the rate is fixed.
/// Neither number may be zero.
pub proof fn law_timing_is_told_by_ticks(
    at: Seq<Cursor>,
    units: u32,
    scale: u32,
    fixed: bool,
)
    requires
        flag(at[0], true, at[1]),
        number(at[1], 32, units as int, at[2]),
        number(at[2], 32, scale as int, at[3]),
        flag(at[3], fixed, at[4]),
    ensures
        units == 0 || scale == 0 ==> timing_syntax(at[0]).1.error is Some,
        units != 0 && scale != 0 ==> timing_syntax(at[0]) == (
            Some(
                TimingInfo {
                    num_units_in_tick: units,
                    time_scale: scale,
                    fixed_frame_rate: fixed,
                },
            ),
            at[4],
        ),
{
}

/// The restrictions of a stream are listed in their order.
pub proof fn law_restrictions_are_listed(at: Seq<Cursor>, over: bool, values: Seq<u32>)
    requires
        flag(at[0], true, at[1]),
        flag(at[1], over, at[2]),
        unsigned(at[2], values[0] as int, at[3]),
        unsigned(at[3], values[1] as int, at[4]),
        unsigned(at[4], values[2] as int, at[5]),
        unsigned(at[5], values[3] as int, at[6]),
        unsigned(at[6], values[4] as int, at[7]),
        unsigned(at[7], values[5] as int, at[8]),
    ensures
        restrictions_syntax(at[0]) == (
            Some(
                BitstreamRestrictions {
                    motion_vectors_over_pic_boundaries: over,
                    max_bytes_per_pic_denom: values[0],
                    max_bits_per_mb_denom: values[1],
                    log2_max_mv_length_horizontal: values[2],
                    log2_max_mv_length_vertical: values[3],
                    max_num_reorder_frames: values[4],
                    max_dec_frame_buffering: values[5],
                },
            ),
            at[8],
        ),
{
}

proof fn lemma_buffers(at: Seq<Cursor>, count: nat, done: int)
    requires
        0 <= done <= count,
        forall|i: int| 0 <= i <= count ==> (#[trigger] at[i]).error is None,
        forall|i: int|
            0 <= i < count ==> (#[trigger] at[i]).ue().1.ue().1.flag().1 == at[i + 1],
    ensures
        coded_buffers_syntax(at[done], (count - done) as nat) == at[count as int],
    decreases count - done,
{
    if done < count {
        let here = at[done];
        lemma_buffers(at, count, done + 1);
    }
}

/// The parameters of the reference decoder take two numbers of four bits, two codes and
/// a bit for each of its buffers, and four numbers of five bits. There are 1 to 32
/// buffers.
pub proof fn law_decoder_parameters_are_passed_over(
    start: Cursor,
    at: Seq<Cursor>,
    behind: Seq<Cursor>,
    count: nat,
)
    requires
        1 <= count <= 32,
        start.error is None,
        start.ue().0 == count - 1,
        start.ue().1.bits(4).1.bits(4).1 == at[0],
        forall|i: int| 0 <= i <= count ==> (#[trigger] at[i]).error is None,
        forall|i: int|
            0 <= i < count ==> (#[trigger] at[i]).ue().1.ue().1.flag().1 == at[i + 1],
        behind[0] == at[count as int],
        number(behind[0], 5, behind[0].bits(5).0 as int, behind[1]),
        number(behind[1], 5, behind[1].bits(5).0 as int, behind[2]),
        number(behind[2], 5, behind[2].bits(5).0 as int, behind[3]),
        number(behind[3], 5, behind[3].bits(5).0 as int, behind[4]),
    ensures
        hrd_syntax(start).1 == behind[4],
{
    lemma_buffers(at, count, 0);
}

proof fn lemma_offsets(at: Seq<Cursor>, offsets: Seq<i32>, done: int)
    requires
        0 <= done <= offsets.len(),
        at.len() == offsets.len() + 1,
        at[0].error is None,
        forall|i: int|
            0 <= i < offsets.len() ==> signed(at[i], #[trigger] offsets[i] as int, at[i + 1]),
    ensures
        offsets_syntax(at[done], offsets.len(), offsets.take(done)) == (
            offsets,
            at.last(),
        ),
    decreases offsets.len() - done,
{
    if done == offsets.len() {
        assert(offsets.take(done) =~= offsets);
        if done > 0 {
            assert(signed(at[done - 1], offsets[done - 1] as int, at[done - 1 + 1]));
        }
    } else {
        assert(signed(at[done], offsets[done] as int, at[done + 1]));
        assert(offsets.take(done).push(offsets[done]) =~= offsets.take(done + 1));
        lemma_offsets(at, offsets, done + 1);
    }
}

/// Picture order counts of the first kind are told by the length of their low part,
/// four bits at least and sixteen at most.
pub proof fn law_order_counts_of_low_parts(at: Seq<Cursor>, length: int)
    requires
        unsigned(at[0], 0, at[1]),
        unsigned(at[1], length - 4, at[2]),
    ensures
        length <= 16 ==> pic_order_count_syntax(at[0]) == (
            PicOrderCountView::Type0 { log2_max_pic_order_cnt_lsb: length as u8 },
            at[2],
        ),
        length > 16 ==> pic_order_count_syntax(at[0]).1.error is Some,
{
}

/// Picture order counts of the second kind are told by their offsets: that of pictures
/// that are not referred to, that from one field to the other and those of a cycle.
pub proof fn law_order_counts_of_cycles(
    at: Seq<Cursor>,
    always_zero: bool,
    unreferred: i32,
    between_fields: i32,
    cycle_at: Seq<Cursor>,
    cycle: Seq<i32>,
)
    requires
        unsigned(at[0], 1, at[1]),
        flag(at[1], always_zero, at[2]),
        signed(at[2], unreferred as int, at[3]),
        signed(at[3], between_fields as int, at[4]),
        unsigned(at[4], cycle.len() as int, cycle_at[0]),
        cycle.len() <= 255,
        cycle_at.len() == cycle.len() + 1,
        forall|i: int|
            0 <= i < cycle.len() ==> signed(
                cycle_at[i],
                #[trigger] cycle[i] as int,
                cycle_at[i + 1],
            ),
    ensures
        pic_order_count_syntax(at[0]) == (
            PicOrderCountView::Type1 {
                delta_pic_order_always_zero: always_zero,
                offset_for_non_ref_pic: unreferred,
                offset_for_top_to_bottom_field: between_fields,
                offset_for_ref_frame: cycle,
            },
            cycle_at.last(),
        ),
{
    assert(cycle.take(0) =~= Seq::<i32>::empty());
    lemma_offsets(cycle_at, cycle, 0);
}

/// Picture order counts of the third kind need nothing else, and there is no fourth.
pub proof fn law_order_counts_of_output_order(at: Seq<Cursor>, kind: int)
    requires
        unsigned(at[0], kind, at[1]),
        kind >= 2,
    ensures
        kind == 2 ==> pic_order_count_syntax(at[0]) == (PicOrderCountView::Type2, at[1]),
        kind > 2 ==> pic_order_count_syntax(at[0]).1.error is Some,
{
}

/// Usability information tells the aspect ratio, whether overscan is fit, the colors,
/// where chroma samples lie, the timing, two sets of decoder parameters with a bit
/// behind them, whether pictures tell their structure, and the restrictions. Each part
/// but the structure stands behind a bit that says whether it is there.
pub proof fn law_usability_is_told_part_by_part(
    at: Seq<Cursor>,
    ratio: bool,
    overscan: Option<bool>,
    top: u32,
    bottom: u32,
    located: bool,
    first: bool,
    second: bool,
    delay: bool,
    structure: bool,
)
    requires
        flag(at[0], ratio, at[1]),
        ratio ==> aspect_ratio_syntax(at[1]).1 == at[2],
        !ratio ==> at[2] == at[1],
        flag(at[2], overscan is Some, at[3]),
        overscan matches Some(fit) ==> flag(at[3], fit, at[4]),
        overscan is None ==> at[4] == at[3],
        video_signal_syntax(at[4]).1 == at[5],
        flag(at[5], located, at[6]),
        located ==> unsigned(at[6], top as int, at[7]) && unsigned(at[7], bottom as int, at[8]),
        !located ==> at[8] == at[6],
        timing_syntax(at[8]).1 == at[9],
        flag(at[9], first, at[10]),
        first ==> hrd_syntax(at[10]).1 == at[11],
        !first ==> at[11] == at[10],
        flag(at[11], second, at[12]),
        second ==> hrd_syntax(at[12]).1 == at[13],
        !second ==> at[13] == at[12],
        first || second ==> flag(at[13], delay, at[14]),
        !(first || second) ==> at[14] == at[13],
        flag(at[14], structure, at[15]),
        restrictions_syntax(at[15]).1 == at[16],
    ensures
        ({
            let (vui, behind) = vui_syntax(at[0]);
            &&& behind == at[16]
            &&& ratio ==> vui.sample_aspect_ratio == aspect_ratio_syntax(at[1]).0
            &&& !ratio ==> vui.sample_aspect_ratio is None
            &&& vui.overscan_appropriate == overscan
            &&& (vui.video_format, vui.color) == video_signal_syntax(at[4]).0
            &&& vui.chroma_sample_loc_type_top_field is Some <==> located
            &&& vui.chroma_sample_loc_type_bottom_field is Some <==> located
            &&& vui.chroma_sample_loc_type_top_field matches Some(place) ==> place == top
            &&& vui.chroma_sample_loc_type_bottom_field matches Some(place) ==> place == bottom
            &&& vui.timing == timing_syntax(at[8]).0
            &&& vui.pic_struct_present == structure
            &&& vui.bitstream_restrictions == restrictions_syntax(at[15]).0
        }),
{
}

/// The four cropping offsets come in the order left, right, top, bottom.
pub proof fn law_crops_name_left_right_top_bottom(
    at: Seq<Cursor>,
    left: u32,
    right: u32,
    top: u32,
    bottom: u32,
)
    requires
        flag(at[0], true, at[1]),
        unsigned(at[1], left as int, at[2]),
        unsigned(at[2], right as int, at[3]),
        unsigned(at[3], top as int, at[4]),
        unsigned(at[4], bottom as int, at[5]),
    ensures
        crop_syntax(at[0]) == (Some(CropOffsets { left, right, top, bottom }), at[5]),
{
}

/// Cropping, timing and restrictions may be missing.
pub proof fn law_parts_may_be_missing(at: Seq<Cursor>)
    requires
        flag(at[0], false, at[1]),
    ensures
        crop_syntax(at[0]) == (None::<CropOffsets>, at[1]),
        timing_syntax(at[0]) == (None::<TimingInfo>, at[1]),
        restrictions_syntax(at[0]) == (None::<BitstreamRestrictions>, at[1]),
{
}

/// The geometry of frames is told by the number of references, whether gaps are
/// allowed, the width and the height in macroblocks, each as one less, and whether
/// there are frames alone. Only where there are not, a bit says whether frames and
/// fields alternate.
pub proof fn law_layouts_are_told_in_macroblocks(
    at: Seq<Cursor>,
    references: u32,
    gaps: bool,
    width: u32,
    height: u32,
    frames_only: bool,
    adaptive: bool,
    inference: bool,
)
    requires
        unsigned(at[0], references as int, at[1]),
        flag(at[1], gaps, at[2]),
        unsigned(at[2], width - 1, at[3]),
        unsigned(at[3], height - 1, at[4]),
        flag(at[4], frames_only, at[5]),
        frames_only ==> at[6] == at[5] && !adaptive,
        !frames_only ==> flag(at[5], adaptive, at[6]),
        flag(at[6], inference, at[7]),
        crop_syntax(at[7]).1 == at[8],
    ensures
        ({
            let (layout, behind) = layout_syntax(at[0]);
            &&& behind == at[8]
            &&& layout.max_num_ref_frames == references
            &&& layout.gaps_in_frame_num_value_allowed == gaps
            &&& layout.pic_width_in_mbs == width
            &&& layout.pic_height_in_map_units == height
            &&& layout.frame_mbs_only == frames_only
            &&& layout.mb_adaptive_frame_field == adaptive
            &&& layout.direct_8x8_inference == inference
            &&& layout.crop == crop_syntax(at[7]).0
        }),
{
}

/// Macroblocks are 16 samples wide and high. Where pictures may be coded as fields, the
/// height counts the rows of one field.
pub proof fn law_macroblocks_are_sixteen_samples_wide(width: u32, height: u32, frames_only: bool)
    ensures
        match coded_size_of(width, height, frames_only) {
            Ok(size) => {
                &&& size.width == 16 * width
                &&& frames_only ==> size.height == 16 * height
                &&& !frames_only ==> size.height == 2 * (16 * height)
            },
            Err(_) => 16 * width > u32::MAX || 32 * height > u32::MAX,
        },
{
}

/// What is cut off at the four sides and what stays visible make up the whole picture.
/// Something stays visible. Offsets count two samples, and in rows of both fields four.
pub proof fn law_crops_and_the_visible_make_up_the_whole(
    size: Size,
    frames_only: bool,
    crop: CropOffsets,
)
    ensures
        ({
            let step = if frames_only {
                2int
            } else {
                4int
            };
            match visible_rect_of(size, frames_only, Some(crop)) {
                Ok(rect) => {
                    &&& rect.x == 2 * crop.left
                    &&& rect.x + rect.width + 2 * crop.right == size.width
                    &&& frames_only ==> rect.y == 2 * crop.top
                    &&& !frames_only ==> rect.y == 4 * crop.top
                    &&& frames_only ==> rect.y + rect.height + 2 * crop.bottom == size.height
                    &&& !frames_only ==> rect.y + rect.height + 4 * crop.bottom == size.height
                    &&& rect.width > 0
                    &&& rect.height > 0
                },
                Err(_) => 2 * crop.left + 2 * crop.right >= size.width || step * crop.top + step
                    * crop.bottom >= size.height,
            }
        }),
        visible_rect_of(size, frames_only, None) matches Ok(rect) && rect.x == 0 && rect.y == 0
            && rect.width == size.width && rect.height == size.height,
{
    if frames_only {
    } else {
    }
}

/// Pictures are shown as wide as their samples are: no width is nearer to the visible
/// width times the sample aspect ratio. Square samples change nothing, and the height
/// never changes.
pub proof fn law_pictures_are_shown_by_their_aspect(visible: Size, ratio: SampleAspectRatio)
    requires
        ratio.height != 0,
    ensures
        display_size_of(visible, ratio) matches Ok(shown) ==> {
            &&& shown.height == visible.height
            &&& shown.width > 0
            &&& 2 * (shown.width * ratio.height) <= 2 * (visible.width * ratio.width) + ratio.height
            &&& 2 * (visible.width * ratio.width) < 2 * (shown.width * ratio.height) + ratio.height
                + 1
        },
        visible.width > 0 && ratio.width == ratio.height ==> display_size_of(visible, ratio) == Ok::<
            Size,
            H264Error,
        >(visible),
{
    let product = visible.width * ratio.width;
    let den = ratio.height as int;
    let sum = product + den / 2;
    lemma_fundamental_div_mod(sum, den);
    lemma_mod_bound(sum, den);
    let width = sum / den;
    assert(den * width == width * den) by (nonlinear_arith);
    if visible.width > 0 && ratio.width == ratio.height {
        lemma_fundamental_div_mod_converse(
            sum,
            den,
            visible.width as int,
            den / 2,
        );
    }
    assert(0 <= product) by (nonlinear_arith)
        requires
            product == visible.width * ratio.width,
    ;
}

/// A sequence parameter set holds what its parts say, one behind the other. Its frame
/// numbers have four bits more than it says, sixteen at most.
pub proof fn law_sequences_hold_their_parts(
    data: Seq<u8>,
    at: Seq<Cursor>,
    length: int,
    told: bool,
    sps: SequenceParameterSet,
)
    requires
        sps@ == sequence_syntax(data).0,
        at[0] == (Cursor { data, position: 0, error: None }),
        sequence_header_syntax(at[0]).1 == at[1],
        format_syntax(at[1], sequence_header_syntax(at[0]).0.profile).1 == at[2],
        unsigned(at[2], length - 4, at[3]),
        pic_order_count_syntax(at[3]).1 == at[4],
        layout_syntax(at[4]).1 == at[5],
        flag(at[5], told, at[6]),
        told ==> vui_syntax(at[6]).1 == at[7],
        !told ==> at[7] == at[6],
        trailing_bits(at[7]).1 == at[8],
    ensures
        ({
            let behind = sequence_syntax(data).1;
            let header = sequence_header_syntax(at[0]).0;
            let format = format_syntax(at[1], header.profile).0;
            let layout = layout_syntax(at[4]).0;
            &&& length > 16 ==> behind.error is Some
            &&& behind.error is None ==> {
                &&& sps.id == header.id
                &&& sps.profile == header.profile
                &&& sps.profile_idc == header.profile_idc
                &&& sps.constraint_flags == header.constraint_flags
                &&& sps.level_idc == header.level_idc
                &&& sps.bit_depth_luma == 8
                &&& sps.bit_depth_chroma == 8
                &&& sps.log2_max_frame_num == length
                &&& sps.pic_order_count@ == pic_order_count_syntax(at[3]).0
                &&& sps.scaling_matrices is Some <==> format.1 is Some
                &&& sps.qpprime_y_zero_transform_bypass == format.0
                &&& sps.max_num_ref_frames == layout.max_num_ref_frames
                &&& sps.gaps_in_frame_num_value_allowed == layout.gaps_in_frame_num_value_allowed
                &&& sps.pic_width_in_mbs == layout.pic_width_in_mbs
                &&& sps.pic_height_in_map_units == layout.pic_height_in_map_units
                &&& sps.frame_mbs_only == layout.frame_mbs_only
                &&& sps.mb_adaptive_frame_field == layout.mb_adaptive_frame_field
                &&& sps.direct_8x8_inference == layout.direct_8x8_inference
                &&& sps.coded_size.width == 16 * layout.pic_width_in_mbs
                &&& told ==> sps.vui == Some(vui_syntax(at[6]).0)
                &&& !told ==> sps.vui is None
                &&& !told ==> sps.display_size.width == sps.visible_rect.width
                &&& sps.display_size.height == sps.visible_rect.height
                &&& layout.crop is None ==> sps.visible_rect.width == sps.coded_size.width
                    && sps.visible_rect.height == sps.coded_size.height
            }
        }),
{
    if !told {
        let visible = sps.visible_rect;
        law_pictures_are_shown_by_their_aspect(
            Size { width: visible.width, height: visible.height },
            SampleAspectRatio { width: 1, height: 1 },
        );
    }
}

} // verus!
