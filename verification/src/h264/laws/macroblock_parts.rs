//! Laws of the order in which the parts of macroblocks are coded.

use vstd::prelude::*;

use super::bits::law_bytes_are_read_whole;
use super::stream::{flag, number, signed, unsigned};
use crate::h264::bits::{bit_at, Cursor};
use crate::h264::macroblock::{
    alignment_syntax, b_differences_syntax, b_inter_syntax, b_macroblock_syntax, b_motion_syntax,
    b_partitions_syntax, b_references_syntax, b_sub_macroblocks_syntax, b_sub_type_syntax,
    difference_syntax, differences_syntax, inter_tail_syntax, intra_16x16_syntax,
    intra_macroblock_syntax, intra_nxn_syntax, intra_patterns, intra_type_syntax, ones,
    p_inter_syntax, p_macroblock_syntax, p_motions_syntax, p_sub_macroblocks_syntax,
    p_sub_type_syntax, pattern_syntax, pcm_syntax, prediction_modes_syntax, reference_index_syntax,
    reference_indices_syntax, samples_syntax, skip_run_syntax, undivided, BMacroblockContext,
    BMacroblockView, BMotionView, BPartitionMode, BPredictionMode, BSubMacroblockType,
    IntraMacroblockView, IntraPredictionModeSyntax, LumaPredictionView, MotionVectorDifference,
    PMacroblockContext, PMacroblockView, PMotionView, PPartitionMode, PSubMacroblockType,
};

verus! {

/// A prediction mode is the one that is expected, or else told by three bits.
pub open spec fn mode_stands(
    before: Cursor,
    middle: Cursor,
    mode: IntraPredictionModeSyntax,
    behind: Cursor,
) -> bool {
    match mode.remaining_mode {
        None => mode.use_predicted && flag(before, true, middle) && behind == middle,
        Some(value) => {
            &&& !mode.use_predicted
            &&& flag(before, false, middle)
            &&& number(middle, 3, value as int, behind)
        },
    }
}

proof fn lemma_modes(
    at: Seq<Cursor>,
    middle: Seq<Cursor>,
    modes: Seq<IntraPredictionModeSyntax>,
    done: int,
)
    requires
        0 <= done <= modes.len(),
        at.len() == modes.len() + 1,
        at[0].error is None,
        forall|i: int|
            0 <= i < modes.len() ==> mode_stands(at[i], middle[i], #[trigger] modes[i], at[i + 1]),
    ensures
        prediction_modes_syntax(at[done], modes.len(), modes.take(done)) == (modes, at.last()),
        at.last().error is None,
    decreases modes.len() - done,
{
    if modes.len() > 0 {
        let last = modes.len() - 1;
        assert(mode_stands(at[last], middle[last], modes[last], at[last + 1]));
    }
    if done == modes.len() {
        assert(modes.take(done) =~= modes);
    } else {
        assert(mode_stands(at[done], middle[done], modes[done], at[done + 1]));
        assert(modes.take(done).push(modes[done]) =~= modes.take(done + 1));
        lemma_modes(at, middle, modes, done + 1);
    }
}

/// An intra macroblock of small blocks tells the size of its transform, where there are
/// two, a mode for each block, the chroma mode, the coded block pattern and, where that
/// is not empty, the change of the quantizer.
pub proof fn law_small_intra_blocks_have_a_mode_each(
    start: Seq<Cursor>,
    large: bool,
    enabled: bool,
    at: Seq<Cursor>,
    middle: Seq<Cursor>,
    modes: Seq<IntraPredictionModeSyntax>,
    chroma: u8,
    change: i8,
    tail: Seq<Cursor>,
)
    requires
        unsigned(start[0], 0, start[1]),
        enabled ==> flag(start[1], large, at[0]),
        !enabled ==> at[0] == start[1] && !large,
        modes.len() == if large {
            4int
        } else {
            16
        },
        at.len() == modes.len() + 1,
        forall|i: int|
            0 <= i < modes.len() ==> mode_stands(at[i], middle[i], #[trigger] modes[i], at[i + 1]),
        unsigned(at.last(), chroma as int, tail[0]),
        chroma <= 3,
        pattern_syntax(tail[0], intra_patterns()).1 == tail[1],
        tail[1].error is None,
        ({
            let pattern = pattern_syntax(tail[0], intra_patterns()).0;
            if pattern.luma == 0 && pattern.chroma == 0 {
                change == 0 && tail[2] == tail[1]
            } else {
                signed(tail[1], change as int, tail[2]) && -26 <= change <= 25
            }
        }),
    ensures
        ({
            let (macroblock, behind) = intra_macroblock_syntax(
                start[0],
                enabled,
            );
            &&& behind == tail[2]
            &&& macroblock matches IntraMacroblockView::Predicted(header) && {
                &&& large ==> header.luma_prediction == LumaPredictionView::EightByEight(modes)
                &&& !large ==> header.luma_prediction == LumaPredictionView::FourByFour(modes)
                &&& header.chroma_prediction_mode == chroma
                &&& header.coded_block_pattern == pattern_syntax(tail[0], intra_patterns()).0
                &&& header.qp_delta == change
            }
        }),
{
    reveal(intra_nxn_syntax);
    reveal(intra_type_syntax);
    assert(modes.take(0) =~= Seq::<IntraPredictionModeSyntax>::empty());
    lemma_modes(at, middle, modes, 0);
}

/// An intra macroblock of one block tells its chroma mode and always the change of the
/// quantizer.
pub proof fn law_large_intra_blocks_change_the_quantizer(
    at: Seq<Cursor>,
    mb_type: u32,
    chroma: u8,
    change: i8,
)
    requires
        1 <= mb_type <= 24,
        unsigned(at[0], chroma as int, at[1]),
        signed(at[1], change as int, at[2]),
    ensures
        intra_16x16_syntax(at[0], mb_type).1.error is None <==> chroma <= 3 && -26 <= change <= 25,
        intra_16x16_syntax(at[0], mb_type).1.error is None ==> {
            let (header, behind) = intra_16x16_syntax(at[0], mb_type);
            &&& header.chroma_prediction_mode == chroma
            &&& header.qp_delta == change
            &&& behind == at[2]
        },
{
}

proof fn lemma_alignment(cursor: Cursor, left: nat)
    requires
        cursor.error is None,
        cursor.position + left <= 8 * cursor.data.len(),
        forall|i: int| 0 <= i < left ==> !#[trigger] bit_at(cursor.data, cursor.position + i),
    ensures
        alignment_syntax(cursor, left) == (Cursor { position: cursor.position + left, ..cursor }),
    decreases left,
{
    if left > 0 {
        assert(!bit_at(cursor.data, cursor.position + 0));
        let next = Cursor { position: cursor.position + 1, ..cursor };
        assert forall|i: int| 0 <= i < left - 1 implies !#[trigger] bit_at(
            next.data,
            next.position + i,
        ) by {
            assert(!bit_at(cursor.data, cursor.position + (i + 1)));
        }
        lemma_alignment(next, (left - 1) as nat);
    }
}

proof fn lemma_samples(cursor: Cursor, byte: int, count: nat, done: Seq<u8>)
    requires
        cursor.error is None,
        0 <= byte,
        cursor.position == 8 * (byte + done.len()),
        done.len() <= count,
        byte + count <= cursor.data.len(),
        done == cursor.data.subrange(byte, byte + done.len()),
    ensures
        samples_syntax(cursor, count, done) == (
            cursor.data.subrange(byte, byte + count),
            Cursor { position: 8 * (byte + count), ..cursor },
        ),
    decreases count - done.len(),
{
    if done.len() < count {
        let index = byte + done.len();
        law_bytes_are_read_whole(cursor.data, index);
        let sample = cursor.data[index];
        assert(cursor.bits(8).0 == sample);
        assert(done.push(sample) =~= cursor.data.subrange(byte, byte + done.len() + 1));
        lemma_samples(cursor.bits(8).1, byte, count, done.push(sample));
    }
}

/// Samples that are not predicted begin at the next byte behind zeros: 256 bytes of
/// luma, then 128 bytes of chroma.
pub proof fn law_plain_samples_are_bytes(cursor: Cursor, byte: int)
    requires
        cursor.error is None,
        0 <= cursor.position,
        8 * byte - 7 <= cursor.position <= 8 * byte,
        forall|i: int|
            cursor.position <= i < 8 * byte ==> !#[trigger] bit_at(cursor.data, i),
        byte + 384 <= cursor.data.len(),
    ensures
        pcm_syntax(cursor) == (
            IntraMacroblockView::Pcm {
                luma: cursor.data.subrange(byte, byte + 256),
                chroma: cursor.data.subrange(byte + 256, byte + 384),
            },
            Cursor { position: 8 * (byte + 384), ..cursor },
        ),
{
    let left = (8 * byte - cursor.position) as nat;
    assert((8 - cursor.position % 8) % 8 == left);
    lemma_alignment(cursor, left);
    let aligned = Cursor { position: 8 * byte, ..cursor };
    assert(aligned.data.subrange(byte, byte) =~= Seq::<u8>::empty());
    lemma_samples(aligned, byte, 256, Seq::empty());
    let behind = Cursor { position: 8 * (byte + 256), ..cursor };
    assert(behind.data.subrange(byte + 256, byte + 256) =~= Seq::<u8>::empty());
    lemma_samples(behind, byte + 256, 128, Seq::empty());
}

/// Plain samples are the last of the intra types.
pub proof fn law_plain_samples_have_their_type(cursor: Cursor, enabled: bool)
    ensures
        intra_type_syntax(cursor, 25, enabled) == pcm_syntax(cursor),
        forall|mb_type: u32|
            mb_type > 25 && cursor.error is None ==> (#[trigger] intra_type_syntax(
                cursor,
                mb_type,
                enabled,
            )).1.error is Some,
{
    reveal(intra_type_syntax);
}

/// A run of skipped macroblocks ends inside the picture.
pub proof fn law_skipped_runs_end_inside(at: Seq<Cursor>, run: nat, remaining: nat)
    requires
        unsigned(at[0], run as int, at[1]),
    ensures
        run <= remaining ==> skip_run_syntax(at[0], remaining) == (run as int, at[1]),
        run > remaining ==> skip_run_syntax(at[0], remaining).1.error is Some,
{
}

proof fn lemma_indices(at: Seq<Cursor>, indices: Seq<u8>, active: u8, done: int)
    requires
        0 <= done <= indices.len(),
        at.len() == indices.len() + 1,
        forall|i: int| 0 <= i <= indices.len() ==> (#[trigger] at[i]).error is None,
        forall|i: int|
            0 <= i < indices.len() ==> reference_index_syntax(at[i], active) == (
                #[trigger] indices[i],
                at[i + 1],
            ),
    ensures
        reference_indices_syntax(at[done], indices.len(), active, indices.take(done)) == (
            indices,
            at.last(),
        ),
    decreases indices.len() - done,
{
    assert(at[done].error is None);
    if done == indices.len() {
        assert(indices.take(done) =~= indices);
    } else {
        assert(reference_index_syntax(at[done], active) == (indices[done], at[done + 1]));
        assert(indices.take(done).push(indices[done]) =~= indices.take(done + 1));
        lemma_indices(at, indices, active, done + 1);
    }
}

proof fn lemma_differences(at: Seq<Cursor>, differences: Seq<MotionVectorDifference>, done: int)
    requires
        0 <= done <= differences.len(),
        at.len() == differences.len() + 1,
        forall|i: int| 0 <= i <= differences.len() ==> (#[trigger] at[i]).error is None,
        forall|i: int|
            0 <= i < differences.len() ==> difference_syntax(at[i]) == (
                #[trigger] differences[i],
                at[i + 1],
            ),
    ensures
        differences_syntax(at[done], differences.len(), differences.take(done)) == (
            differences,
            at.last(),
        ),
    decreases differences.len() - done,
{
    assert(at[done].error is None);
    if done == differences.len() {
        assert(differences.take(done) =~= differences);
    } else {
        assert(difference_syntax(at[done]) == (differences[done], at[done + 1]));
        assert(differences.take(done).push(differences[done]) =~= differences.take(done + 1));
        lemma_differences(at, differences, done + 1);
    }
}

/// Motion vector differences stand one behind the other.
pub proof fn law_differences_stand_in_turn(
    at: Seq<Cursor>,
    differences: Seq<MotionVectorDifference>,
)
    requires
        at.len() == differences.len() + 1,
        forall|i: int| 0 <= i <= differences.len() ==> (#[trigger] at[i]).error is None,
        forall|i: int|
            0 <= i < differences.len() ==> difference_syntax(at[i]) == (
                #[trigger] differences[i],
                at[i + 1],
            ),
    ensures
        differences_syntax(at[0], differences.len(), Seq::empty()) == (differences, at.last()),
{
    assert(differences.take(0) =~= Seq::<MotionVectorDifference>::empty());
    lemma_differences(at, differences, 0);
}

proof fn lemma_p_motions(
    at: Seq<Cursor>,
    partitions: Seq<PMotionView>,
    references: Seq<u8>,
    counts: Seq<nat>,
    done: int,
)
    requires
        0 <= done <= partitions.len(),
        references.len() == partitions.len(),
        at.len() == partitions.len() + 1,
        forall|i: int| 0 <= i <= partitions.len() ==> (#[trigger] at[i]).error is None,
        forall|i: int|
            0 <= i < partitions.len() ==> (#[trigger] partitions[i]).reference_index
                == references[i] && differences_syntax(at[i], counts[i], Seq::empty()) == (
                partitions[i].differences,
                at[i + 1],
            ),
    ensures
        p_motions_syntax(at[done], references, counts, partitions.take(done)) == (
            partitions,
            at.last(),
        ),
    decreases partitions.len() - done,
{
    assert(at[done].error is None);
    if done == partitions.len() {
        assert(partitions.take(done) =~= partitions);
    } else {
        let partition = partitions[done];
        assert(partition == PMotionView {
            reference_index: references[done],
            differences: partition.differences,
        });
        assert(partitions.take(done).push(partition) =~= partitions.take(done + 1));
        lemma_p_motions(at, partitions, references, counts, done + 1);
    }
}

/// Whole partitions of a P macroblock: first the references of all, then one difference
/// for each. A macroblock is undivided, divided into an upper and a lower half or into a
/// left and a right half.
pub proof fn law_p_partitions_tell_references_first(
    start: Seq<Cursor>,
    mb_type: u32,
    context: PMacroblockContext,
    references_at: Seq<Cursor>,
    differences_at: Seq<Cursor>,
    partitions: Seq<PMotionView>,
)
    requires
        mb_type <= 2,
        unsigned(start[0], mb_type as int, start[1]),
        1 <= context.num_ref_idx_l0_active <= 32,
        partitions.len() == if mb_type == 0 {
            1int
        } else {
            2
        },
        references_at.len() == partitions.len() + 1,
        references_at[0] == start[1],
        forall|i: int| 0 <= i <= partitions.len() ==> (#[trigger] references_at[i]).error is None,
        forall|i: int|
            0 <= i < partitions.len() ==> reference_index_syntax(
                references_at[i],
                context.num_ref_idx_l0_active,
            ) == ((#[trigger] partitions[i]).reference_index, references_at[i + 1]),
        differences_at.len() == partitions.len() + 1,
        differences_at[0] == references_at.last(),
        forall|i: int| 0 <= i <= partitions.len() ==> (#[trigger] differences_at[i]).error is None,
        forall|i: int|
            0 <= i < partitions.len() ==> (#[trigger] partitions[i]).differences.len() == 1
                && difference_syntax(differences_at[i]) == (
                partitions[i].differences[0],
                differences_at[i + 1],
            ),
    ensures
        ({
            let (macroblock, behind) = p_macroblock_syntax(start[0], context);
            let (tail, end) = inter_tail_syntax(
                differences_at.last(),
                context.transform_8x8_mode_enabled,
            );
            &&& behind == end
            &&& macroblock matches PMacroblockView::Inter(header) && {
                &&& header.partitions == partitions
                &&& header.partition_mode is L0_16x16 <==> mb_type == 0
                &&& header.partition_mode is L0_16x8 <==> mb_type == 1
                &&& header.partition_mode is L0_8x16 <==> mb_type == 2
                &&& header.coded_block_pattern == tail.coded_block_pattern
                &&& header.transform_size_8x8 == tail.transform_size_8x8
                &&& header.qp_delta == tail.qp_delta
            }
        }),
{
    reveal(p_inter_syntax);
    let count = partitions.len();
    let active = context.num_ref_idx_l0_active;
    let references = partitions.map_values(|partition: PMotionView| partition.reference_index);
    assert(references.take(0) =~= Seq::<u8>::empty());
    lemma_indices(references_at, references, active, 0);
    let counts = ones(count);
    assert forall|i: int| 0 <= i < count implies (#[trigger] partitions[i]).reference_index
        == references[i] && differences_syntax(differences_at[i], counts[i], Seq::empty()) == (
        partitions[i].differences,
        differences_at[i + 1],
    ) by {
        assert(differences_at[i].error is None && differences_at[i + 1].error is None);
        reveal_with_fuel(differences_syntax, 2);
        assert(Seq::<MotionVectorDifference>::empty().push(partitions[i].differences[0])
            =~= partitions[i].differences);
    }
    assert(partitions.take(0) =~= Seq::<PMotionView>::empty());
    lemma_p_motions(differences_at, partitions, references, counts, 0);
}

/// Four quarters of a P macroblock: first their types, then their references, unless
/// those are zero by the type of the macroblock, then as many differences for each as
/// it has parts. The 8x8 transform is permitted where no quarter is divided.
pub proof fn law_p_quarters_tell_types_first(
    start: Seq<Cursor>,
    forced_zero: bool,
    context: PMacroblockContext,
    types: [PSubMacroblockType; 4],
    references_at: Seq<Cursor>,
    differences_at: Seq<Cursor>,
    partitions: Seq<PMotionView>,
)
    requires
        unsigned(
            start[0],
            if forced_zero {
                4
            } else {
                3
            },
            start[1],
        ),
        1 <= context.num_ref_idx_l0_active <= 32,
        p_sub_type_syntax(start[1]) == (types[0], start[2]),
        p_sub_type_syntax(start[2]) == (types[1], start[3]),
        p_sub_type_syntax(start[3]) == (types[2], start[4]),
        p_sub_type_syntax(start[4]) == (types[3], start[5]),
        partitions.len() == 4,
        references_at.len() == 5,
        references_at[0] == start[5],
        forall|i: int| 0 <= i <= 4 ==> (#[trigger] references_at[i]).error is None,
        !forced_zero ==> forall|i: int|
            0 <= i < 4 ==> reference_index_syntax(
                references_at[i],
                context.num_ref_idx_l0_active,
            ) == ((#[trigger] partitions[i]).reference_index, references_at[i + 1]),
        forced_zero ==> references_at[4] == references_at[0],
        forced_zero ==> forall|i: int|
            0 <= i < 4 ==> (#[trigger] partitions[i]).reference_index == 0,
        differences_at.len() == 5,
        differences_at[0] == references_at[4],
        forall|i: int| 0 <= i <= 4 ==> (#[trigger] differences_at[i]).error is None,
        forall|i: int|
            0 <= i < 4 ==> differences_syntax(
                differences_at[i],
                match types[i] {
                    PSubMacroblockType::L0_8x8 => 1,
                    PSubMacroblockType::L0_8x4 => 2,
                    PSubMacroblockType::L0_4x8 => 2,
                    PSubMacroblockType::L0_4x4 => 4,
                },
                Seq::empty(),
            ) == ((#[trigger] partitions[i]).differences, differences_at[i + 1]),
    ensures
        ({
            let (macroblock, behind) = p_macroblock_syntax(start[0], context);
            let whole = forall|i: int| 0 <= i < 4 ==> #[trigger] types[i] is L0_8x8;
            let (tail, end) = inter_tail_syntax(
                differences_at[4],
                context.transform_8x8_mode_enabled && whole,
            );
            &&& behind == end
            &&& macroblock matches PMacroblockView::Inter(header) && {
                &&& header.partitions == partitions
                &&& header.partition_mode == (PPartitionMode::L0_8x8 {
                    sub_macroblocks: types,
                    reference_index_forced_zero: forced_zero,
                })
                &&& header.coded_block_pattern == tail.coded_block_pattern
                &&& header.transform_size_8x8 == tail.transform_size_8x8
                &&& header.qp_delta == tail.qp_delta
            }
        }),
{
    reveal(p_inter_syntax);
    reveal(p_sub_macroblocks_syntax);
    let active = context.num_ref_idx_l0_active;
    let references = partitions.map_values(|partition: PMotionView| partition.reference_index);
    if forced_zero {
        assert(references =~= seq![0u8, 0u8, 0u8, 0u8]);
    } else {
        assert(references.take(0) =~= Seq::<u8>::empty());
        lemma_indices(references_at, references, active, 0);
    }
    let counts = seq![types[0].count(), types[1].count(), types[2].count(), types[3].count()];
    assert(partitions.take(0) =~= Seq::<PMotionView>::empty());
    lemma_p_motions(differences_at, partitions, references, counts, 0);
    assert([types[0], types[1], types[2], types[3]] =~= types);
    let whole = forall|i: int| 0 <= i < 4 ==> #[trigger] types[i] is L0_8x8;
    assert(whole == undivided(types));
}

/// The partition uses the list.
pub open spec fn refers(mode: BPredictionMode, second: bool) -> bool {
    match mode {
        BPredictionMode::Direct => false,
        BPredictionMode::List0 => !second,
        BPredictionMode::List1 => second,
        BPredictionMode::Bi => true,
    }
}

proof fn lemma_b_references(
    at: Seq<Cursor>,
    before: Seq<BMotionView>,
    after: Seq<BMotionView>,
    indices: Seq<u8>,
    second: bool,
    active: u8,
    done: int,
)
    requires
        0 <= done <= before.len(),
        after.len() == before.len(),
        at.len() == before.len() + 1,
        forall|i: int| 0 <= i <= before.len() ==> (#[trigger] at[i]).error is None,
        forall|i: int|
            0 <= i < before.len() ==> if refers((#[trigger] before[i]).prediction, second) {
                &&& reference_index_syntax(at[i], active) == (indices[i], at[i + 1])
                &&& after[i] == before[i].with_reference(second, indices[i])
            } else {
                at[i + 1] == at[i] && after[i] == before[i]
            },
    ensures
        b_references_syntax(
            at[done],
            after.take(done) + before.skip(done),
            done as nat,
            second,
            active,
        ) == (after, at.last()),
    decreases before.len() - done,
{
    assert(at[done].error is None);
    let here = after.take(done) + before.skip(done);
    if done == before.len() {
        assert(here =~= after);
    } else {
        assert(here[done] == before[done]);
        assert(here.update(done, after[done]) =~= after.take(done + 1) + before.skip(done + 1));
        assert(here.update(done, here[done]) =~= here);
        lemma_b_references(at, before, after, indices, second, active, done + 1);
    }
}

proof fn lemma_b_differences(
    at: Seq<Cursor>,
    before: Seq<BMotionView>,
    after: Seq<BMotionView>,
    differences: Seq<Seq<MotionVectorDifference>>,
    counts: Seq<nat>,
    second: bool,
    done: int,
)
    requires
        0 <= done <= before.len(),
        after.len() == before.len(),
        at.len() == before.len() + 1,
        forall|i: int| 0 <= i <= before.len() ==> (#[trigger] at[i]).error is None,
        forall|i: int|
            0 <= i < before.len() ==> if refers((#[trigger] before[i]).prediction, second) {
                &&& differences_syntax(at[i], counts[i], Seq::empty()) == (
                    differences[i],
                    at[i + 1],
                )
                &&& after[i] == before[i].with_differences(second, differences[i])
            } else {
                at[i + 1] == at[i] && after[i] == before[i]
            },
    ensures
        b_differences_syntax(
            at[done],
            after.take(done) + before.skip(done),
            counts,
            done as nat,
            second,
        ) == (after, at.last()),
    decreases before.len() - done,
{
    assert(at[done].error is None);
    let here = after.take(done) + before.skip(done);
    if done == before.len() {
        assert(here =~= after);
    } else {
        assert(here[done] == before[done]);
        assert(here.update(done, after[done]) =~= after.take(done + 1) + before.skip(done + 1));
        assert(here.update(done, here[done]) =~= here);
        lemma_b_differences(at, before, after, differences, counts, second, done + 1);
    }
}

/// The motion of B partitions: the references to the first list of all that use it,
/// those to the second list, the differences of the first list and those of the second.
/// What a partition does not use, it does not hold.
pub proof fn law_b_partitions_tell_list_by_list(
    modes: Seq<BPredictionMode>,
    counts: Seq<nat>,
    context: BMacroblockContext,
    first: Seq<Cursor>,
    second: Seq<Cursor>,
    third: Seq<Cursor>,
    fourth: Seq<Cursor>,
    index0: Seq<u8>,
    index1: Seq<u8>,
    differences0: Seq<Seq<MotionVectorDifference>>,
    differences1: Seq<Seq<MotionVectorDifference>>,
)
    requires
        first.len() == modes.len() + 1,
        second.len() == modes.len() + 1,
        third.len() == modes.len() + 1,
        fourth.len() == modes.len() + 1,
        second[0] == first.last(),
        third[0] == second.last(),
        fourth[0] == third.last(),
        forall|i: int| 0 <= i <= modes.len() ==> (#[trigger] first[i]).error is None,
        forall|i: int| 0 <= i <= modes.len() ==> (#[trigger] second[i]).error is None,
        forall|i: int| 0 <= i <= modes.len() ==> (#[trigger] third[i]).error is None,
        forall|i: int| 0 <= i <= modes.len() ==> (#[trigger] fourth[i]).error is None,
        forall|i: int|
            0 <= i < modes.len() ==> if refers(#[trigger] modes[i], false) {
                &&& reference_index_syntax(first[i], context.num_ref_idx_l0_active) == (
                    index0[i],
                    first[i + 1],
                )
                &&& differences_syntax(third[i], counts[i], Seq::empty()) == (
                    differences0[i],
                    third[i + 1],
                )
            } else {
                first[i + 1] == first[i] && third[i + 1] == third[i]
            },
        forall|i: int|
            0 <= i < modes.len() ==> if refers(#[trigger] modes[i], true) {
                &&& reference_index_syntax(second[i], context.num_ref_idx_l1_active) == (
                    index1[i],
                    second[i + 1],
                )
                &&& differences_syntax(fourth[i], counts[i], Seq::empty()) == (
                    differences1[i],
                    fourth[i + 1],
                )
            } else {
                second[i + 1] == second[i] && fourth[i + 1] == fourth[i]
            },
    ensures
        ({
            let (partitions, behind) = b_motion_syntax(first[0], modes, counts, context);
            &&& behind == fourth.last()
            &&& partitions.len() == modes.len()
            &&& forall|i: int|
                0 <= i < modes.len() ==> {
                    let partition = #[trigger] partitions[i];
                    &&& partition.prediction == modes[i]
                    &&& partition.reference_index_l0 == if refers(modes[i], false) {
                        Some(index0[i])
                    } else {
                        None
                    }
                    &&& partition.reference_index_l1 == if refers(modes[i], true) {
                        Some(index1[i])
                    } else {
                        None
                    }
                    &&& partition.differences_l0 == if refers(modes[i], false) {
                        differences0[i]
                    } else {
                        Seq::empty()
                    }
                    &&& partition.differences_l1 == if refers(modes[i], true) {
                        differences1[i]
                    } else {
                        Seq::empty()
                    }
                }
        }),
{
    reveal(b_motion_syntax);
    let start = modes.map_values(|mode: BPredictionMode| BMotionView::empty(mode));
    let a = Seq::new(
        modes.len(),
        |i: int|
            if refers(modes[i], false) {
                start[i].with_reference(false, index0[i])
            } else {
                start[i]
            },
    );
    let b = Seq::new(
        modes.len(),
        |i: int|
            if refers(modes[i], true) {
                a[i].with_reference(true, index1[i])
            } else {
                a[i]
            },
    );
    let c = Seq::new(
        modes.len(),
        |i: int|
            if refers(modes[i], false) {
                b[i].with_differences(false, differences0[i])
            } else {
                b[i]
            },
    );
    let d = Seq::new(
        modes.len(),
        |i: int|
            if refers(modes[i], true) {
                c[i].with_differences(true, differences1[i])
            } else {
                c[i]
            },
    );
    assert forall|i: int| 0 <= i < modes.len() implies (#[trigger] start[i]).prediction == modes[i]
        by {}
    assert forall|i: int| 0 <= i < modes.len() implies (#[trigger] a[i]).prediction == modes[i] by {
        assert(start[i].prediction == modes[i]);
    }
    assert forall|i: int| 0 <= i < modes.len() implies (#[trigger] b[i]).prediction == modes[i] by {
        assert(a[i].prediction == modes[i]);
    }
    assert forall|i: int| 0 <= i < modes.len() implies (#[trigger] c[i]).prediction == modes[i] by {
        assert(b[i].prediction == modes[i]);
    }
    lemma_b_references(first, start, a, index0, false, context.num_ref_idx_l0_active, 0);
    assert(a.take(0) + start.skip(0) =~= start);
    lemma_b_references(second, a, b, index1, true, context.num_ref_idx_l1_active, 0);
    assert(b.take(0) + a.skip(0) =~= a);
    lemma_b_differences(third, b, c, differences0, counts, false, 0);
    assert(c.take(0) + b.skip(0) =~= b);
    lemma_b_differences(fourth, c, d, differences1, counts, true, 0);
    assert(d.take(0) + c.skip(0) =~= c);
    assert(b_motion_syntax(first[0], modes, counts, context) == (d, fourth.last()));
}

/// The modes of the two halves of a B macroblock by its type. Even types have an upper
/// and a lower half, odd types a left and a right half.
pub proof fn law_b_halves_by_their_type(
    cursor: Cursor,
    mb_type: u32,
    context: BMacroblockContext,
)
    requires
        4 <= mb_type <= 21,
    ensures
        ({
            let ((mode, partitions, permits), behind) = b_partitions_syntax(
                cursor,
                mb_type,
                context,
            );
            let read = |first: BPredictionMode, second: BPredictionMode|
                (partitions, behind) == b_motion_syntax(
                    cursor,
                    seq![first, second],
                    seq![1nat, 1nat],
                    context,
                );
            &&& permits
            &&& mb_type % 2 == 0 ==> mode is SixteenByEight
            &&& mb_type % 2 == 1 ==> mode is EightBySixteen
            &&& mb_type == 4 || mb_type == 5 ==> read(
                BPredictionMode::List0,
                BPredictionMode::List0,
            )
            &&& mb_type == 6 || mb_type == 7 ==> read(
                BPredictionMode::List1,
                BPredictionMode::List1,
            )
            &&& mb_type == 8 || mb_type == 9 ==> read(
                BPredictionMode::List0,
                BPredictionMode::List1,
            )
            &&& mb_type == 10 || mb_type == 11 ==> read(
                BPredictionMode::List1,
                BPredictionMode::List0,
            )
            &&& mb_type == 12 || mb_type == 13 ==> read(
                BPredictionMode::List0,
                BPredictionMode::Bi,
            )
            &&& mb_type == 14 || mb_type == 15 ==> read(
                BPredictionMode::List1,
                BPredictionMode::Bi,
            )
            &&& mb_type == 16 || mb_type == 17 ==> read(
                BPredictionMode::Bi,
                BPredictionMode::List0,
            )
            &&& mb_type == 18 || mb_type == 19 ==> read(
                BPredictionMode::Bi,
                BPredictionMode::List1,
            )
            &&& mb_type == 20 || mb_type == 21 ==> read(BPredictionMode::Bi, BPredictionMode::Bi)
        }),
{
    reveal(b_partitions_syntax);
    assert(ones(2) =~= seq![1nat, 1nat]);
}

/// Undivided B macroblocks: the first type is direct and tells nothing, the next three
/// use the first list, the second or both. A direct macroblock permits the 8x8 transform
/// where its vectors are inferred for whole quarters.
pub proof fn law_undivided_b_macroblocks_by_their_type(cursor: Cursor, context: BMacroblockContext)
    ensures
        ({
            let ((mode, partitions, permits), behind) = b_partitions_syntax(cursor, 0, context);
            &&& mode is Direct16x16
            &&& permits == context.direct_8x8_inference
            &&& behind == cursor
            &&& partitions.len() == 1
            &&& partitions[0].prediction is Direct
            &&& partitions[0].reference_index_l0 is None
            &&& partitions[0].reference_index_l1 is None
            &&& partitions[0].differences_l0.len() == 0
            &&& partitions[0].differences_l1.len() == 0
        }),
        ({
            let read = |mb_type: u32, mode: BPredictionMode|
                {
                    let step = b_motion_syntax(cursor, seq![mode], seq![1nat], context);
                    b_partitions_syntax(cursor, mb_type, context) == (
                        (BPartitionMode::SixteenBySixteen, step.0, true),
                        step.1,
                    )
                };
            &&& read(1, BPredictionMode::List0)
            &&& read(2, BPredictionMode::List1)
            &&& read(3, BPredictionMode::Bi)
        }),
{
    reveal(b_partitions_syntax);
    assert(ones(1) =~= seq![1nat]);
}

/// Four quarters of a B macroblock: first their types, then their motion. The 8x8
/// transform is permitted where no quarter is divided and direct ones are inferred
/// whole.
pub proof fn law_b_quarters_tell_types_first(
    at: Seq<Cursor>,
    context: BMacroblockContext,
    types: [BSubMacroblockType; 4],
)
    requires
        b_sub_type_syntax(at[0]) == (types[0], at[1]),
        b_sub_type_syntax(at[1]) == (types[1], at[2]),
        b_sub_type_syntax(at[2]) == (types[2], at[3]),
        b_sub_type_syntax(at[3]) == (types[3], at[4]),
    ensures
        ({
            let ((mode, partitions, permits), behind) = b_partitions_syntax(at[0], 22, context);
            let whole = |t: BSubMacroblockType|
                t.size() == (8u8, 8u8) && (t is Direct8x8 ==> context.direct_8x8_inference);
            &&& mode == BPartitionMode::EightByEight { sub_macroblocks: types }
            &&& permits <==> whole(types[0]) && whole(types[1]) && whole(types[2]) && whole(
                types[3],
            )
            &&& (partitions, behind) == b_motion_syntax(
                at[4],
                seq![types[0].mode(), types[1].mode(), types[2].mode(), types[3].mode()],
                seq![types[0].count(), types[1].count(), types[2].count(), types[3].count()],
                context,
            )
        }),
{
    reveal(b_partitions_syntax);
    reveal(b_sub_macroblocks_syntax);
    assert([types[0], types[1], types[2], types[3]] =~= types);
}

/// Behind its partitions a B macroblock tells what other inter macroblocks tell.
pub proof fn law_b_macroblocks_hold_their_parts(
    at: Seq<Cursor>,
    mb_type: u32,
    context: BMacroblockContext,
)
    requires
        unsigned(at[0], mb_type as int, at[1]),
        mb_type <= 22,
        1 <= context.num_ref_idx_l0_active <= 32,
        1 <= context.num_ref_idx_l1_active <= 32,
        b_partitions_syntax(at[1], mb_type, context).1 == at[2],
    ensures
        ({
            let (macroblock, behind) = b_macroblock_syntax(at[0], context);
            let (mode, partitions, permits) = b_partitions_syntax(at[1], mb_type, context).0;
            let (tail, end) = inter_tail_syntax(
                at[2],
                context.transform_8x8_mode_enabled && permits,
            );
            &&& behind == end
            &&& macroblock matches BMacroblockView::Inter(header) && {
                &&& header.partition_mode == mode
                &&& header.partitions == partitions
                &&& header.coded_block_pattern == tail.coded_block_pattern
                &&& header.transform_size_8x8 == tail.transform_size_8x8
                &&& header.qp_delta == tail.qp_delta
            }
        }),
{
    reveal(b_inter_syntax);
}

} // verus!
