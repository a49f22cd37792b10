//! Laws of quantizers and of the residuals of macroblocks.

use vstd::arithmetic::power2::pow2;
use vstd::prelude::*;

use super::transform::{
    even_step, law_chroma_constants_are_scaled_sums, law_hadamard_is_a_signed_sum,
    law_six_steps_double, nearest, signed_4x4,
};
use crate::h264::error::Result;
use crate::h264::macroblock::{IntraLumaPrediction, IntraResidual};
use crate::h264::quantization::{chroma_qp, MacroblockQuantizer, MacroblockQuantizerState};
use crate::h264::reconstruction::{
    block_residual, chroma_residual, holds_residual, luma_residual, merged, reconstructs,
    ReconstructedIntraResidual,
};
use crate::h264::transform::{
    chroma_dc, factors_4x4, fits, holds_4x4, law_dc_alone_is_flat_4x4,
    law_scan_4x4_is_a_permutation, luma_dc, reconstructs_4x4, scaled_4x4, scan_4x4, scanned_4x4,
    Block4x4, ScanMode,
};

verus! {

/// A chroma quantizer is the luma quantizer with its offset, held to 0 and 51. Up to 29
/// it stays as it is, and above it rises ever more slowly, up to 39.
pub proof fn law_chroma_quantizers(luma: u8, offset: i8)
    requires
        luma <= 51,
    ensures
        ({
            let index = luma + offset;
            let chroma = chroma_qp(luma, offset);
            &&& index < 0 ==> chroma == 0
            &&& 0 <= index <= 29 ==> chroma == index
            &&& 30 <= index <= 32 ==> chroma == index - 1
            &&& index == 33 || index == 34 ==> chroma == 32
            &&& index == 35 ==> chroma == 33
            &&& index == 36 || index == 37 ==> chroma == 34
            &&& index == 38 || index == 39 ==> chroma == 35
            &&& index == 40 || index == 41 ==> chroma == 36
            &&& 42 <= index <= 44 ==> chroma == 37
            &&& 45 <= index <= 47 ==> chroma == 38
            &&& 48 <= index ==> chroma == 39
        }),
{
}

/// The luma quantizer moves by the change, around a circle of 52, each chroma quantizer
/// follows it with its own offset, and a quantizer of zero bypasses the transform where
/// that is said.
pub proof fn law_quantizers_follow_the_luma_quantizer(state: MacroblockQuantizerState, change: i8)
    requires
        state.previous() <= 51,
        -26 <= change <= 25,
    ensures
        state.derived(change) matches Ok(quantizer) && {
            let moved = state.previous() + change;
            &&& quantizer.luma == if moved < 0 {
                moved + 52
            } else if moved > 51 {
                moved - 52
            } else {
                moved
            }
            &&& quantizer.chroma_cb == chroma_qp(quantizer.luma, state.cb_offset())
            &&& quantizer.chroma_cr == chroma_qp(quantizer.luma, state.cr_offset())
            &&& quantizer.transform_bypass <==> state.bypass_at_zero() && quantizer.luma == 0
        },
{
}

/// A block with nothing but a constant that was scaled before is flat.
proof fn lemma_constant_block(
    dc: int,
    ac: Seq<i32>,
    mode: ScanMode,
    qp: u8,
    list: Seq<u8>,
    row: int,
    column: int,
)
    requires
        qp <= 51,
        i32::MIN <= dc <= i32::MAX,
        15 <= ac.len(),
        forall|i: int| 0 <= i < 15 ==> #[trigger] ac[i] == 0,
        0 <= row < 4,
        0 <= column < 4,
    ensures
        block_residual(merged(dc, ac), mode, qp, list, true)(row, column) == (dc + 32) / 64,
{
    let values = merged(dc, ac);
    let scaled = scaled_4x4(scanned_4x4(values, mode), factors_4x4(qp, list), qp, true);
    assert(scan_4x4(mode, 0, 0) == 0);
    assert(scaled(0, 0) == dc);
    assert forall|r: int, c: int| 0 <= r < 4 && 0 <= c < 4 && (r != 0 || c != 0) implies #[trigger] scaled(
        r,
        c,
    ) == 0 by {
        law_scan_4x4_is_a_permutation(mode, r, c, 0, 0);
        let place = scan_4x4(mode, r, c);
        assert(values[place] == ac.take(15)[place - 1]);
        assert(ac[place - 1] == 0);
        let factor = factors_4x4(qp, list)(r, c);
        assert(0 * factor == 0) by (nonlinear_arith);
        law_six_steps_double(0, qp, 4);
        let power = pow2((qp / 6) as nat);
        assert(0 * power == 0) by (nonlinear_arith);
    }
    law_dc_alone_is_flat_4x4(scaled, row, column);
}

/// Where a macroblock with one 16x16 prediction has nothing but constants, its luma
/// block at a row and a column is flat, at the signed sum of the constants for that
/// place. Blocks are numbered by quarters of the macroblock, and inside these again.
pub proof fn law_luma_constants_go_to_their_blocks(
    reconstructed: ReconstructedIntraResidual,
    prediction: IntraLumaPrediction,
    residual: IntraResidual,
    quantizer: MacroblockQuantizer,
    lists: Seq<Seq<u8>>,
    mode: ScanMode,
    block_row: int,
    block_column: int,
    index: int,
    row: int,
    column: int,
)
    requires
        reconstructs(Ok(reconstructed), prediction, residual, quantizer, lists, mode),
        prediction is SixteenBySixteen,
        0 <= block_row < 4,
        0 <= block_column < 4,
        index == 8 * (block_row / 2) + 4 * (block_column / 2) + 2 * (block_row % 2) + block_column
            % 2,
        forall|i: int| 0 <= i < 15 ==> #[trigger] residual.luma[index].coefficients[i] == 0,
        0 <= row < 4,
        0 <= column < 4,
    ensures
        exists|dc: int|
            #![trigger nearest(
                dc,
                signed_4x4(
                    scanned_4x4(residual.luma_dc->0.coefficients@, mode),
                    block_row,
                    block_column,
                ) * (lists[0][0] * even_step(quantizer.luma)) * pow2((quantizer.luma / 6) as nat),
                64,
            )]
            nearest(
                dc,
                signed_4x4(
                    scanned_4x4(residual.luma_dc->0.coefficients@, mode),
                    block_row,
                    block_column,
                ) * (lists[0][0] * even_step(quantizer.luma)) * pow2((quantizer.luma / 6) as nat),
                64,
            ) && reconstructed.luma[index][row][column] == (dc + 32) / 64,
{
    assert(holds_residual(reconstructed, prediction, residual, quantizer, lists, mode));
    let qp = quantizer.luma;
    let numbers = scanned_4x4(residual.luma_dc->0.coefficients@, mode);
    let dc = luma_dc(numbers, qp, lists[0])(block_row, block_column);
    law_hadamard_is_a_signed_sum(numbers, block_row, block_column);
    law_six_steps_double(
        signed_4x4(numbers, block_row, block_column) * (lists[0][0] * even_step(qp)),
        qp,
        6,
    );
    let ac = residual.luma[index].coefficients@;
    assert forall|i: int| 0 <= i < 15 implies #[trigger] ac[i] == 0 by {
        assert(residual.luma[index].coefficients[i] == 0);
    }
    lemma_constant_block(dc, ac, mode, qp, lists[0], row, column);
    assert(holds_4x4(
        reconstructed.luma[index],
        luma_residual(prediction, residual, index, mode, qp, lists[0]),
    ));
    assert(reconstructed.luma[index][row][column] == (dc + 32) / 64);
}

/// Where a macroblock has nothing but constants in Cb, the four blocks of that are
/// flat, at the sums and differences of the constants: by columns for those on the
/// right, by rows for the lower ones, and by both for the last.
pub proof fn law_cb_constants_go_to_their_blocks(
    reconstructed: ReconstructedIntraResidual,
    prediction: IntraLumaPrediction,
    residual: IntraResidual,
    quantizer: MacroblockQuantizer,
    lists: Seq<Seq<u8>>,
    mode: ScanMode,
    index: int,
    row: int,
    column: int,
)
    requires
        reconstructs(Ok(reconstructed), prediction, residual, quantizer, lists, mode),
        0 <= index < 4,
        forall|i: int| 0 <= i < 15 ==> #[trigger] residual.chroma_ac[0][index].coefficients[i] == 0,
        0 <= row < 4,
        0 <= column < 4,
    ensures
        ({
            let values = residual.chroma_dc[0].coefficients;
            let sum = if index == 0 {
                values[0] + values[1] + values[2] + values[3]
            } else if index == 1 {
                values[0] - values[1] + values[2] - values[3]
            } else if index == 2 {
                values[0] + values[1] - values[2] - values[3]
            } else {
                values[0] - values[1] - values[2] + values[3]
            };
            let dc = sum * (lists[1][0] * even_step(quantizer.chroma_cb)) * pow2(
                (quantizer.chroma_cb / 6) as nat,
            ) / 32;
            reconstructed.chroma_cb[index][row][column] == (dc + 32) / 64
        }),
{
    assert(holds_residual(reconstructed, prediction, residual, quantizer, lists, mode));
    let qp = quantizer.chroma_cb;
    let list = lists[1];
    let values = residual.chroma_dc[0].coefficients@.take(4);
    law_chroma_constants_are_scaled_sums(values, qp, list);
    let dc = chroma_dc(values, qp, list)(index / 2, index % 2);
    let ac = residual.chroma_ac[0][index].coefficients@;
    assert forall|i: int| 0 <= i < 15 implies #[trigger] ac[i] == 0 by {
        assert(residual.chroma_ac[0][index].coefficients[i] == 0);
    }
    assert(fits(chroma_dc(values, qp, list)(index / 2, index % 2)));
    lemma_constant_block(dc, ac, mode, qp, list, row, column);
    assert(holds_4x4(
        reconstructed.chroma_cb[index],
        chroma_residual(
            residual.chroma_dc[0],
            residual.chroma_ac[0],
            index,
            mode,
            qp,
            list,
        ),
    ));
    assert(reconstructed.chroma_cb[index][row][column] == (dc + 32) / 64);
}

/// Where a macroblock has nothing but constants in Cr, the four blocks of that are
/// flat, at the sums and differences of the constants: by columns for those on the
/// right, by rows for the lower ones, and by both for the last.
pub proof fn law_cr_constants_go_to_their_blocks(
    reconstructed: ReconstructedIntraResidual,
    prediction: IntraLumaPrediction,
    residual: IntraResidual,
    quantizer: MacroblockQuantizer,
    lists: Seq<Seq<u8>>,
    mode: ScanMode,
    index: int,
    row: int,
    column: int,
)
    requires
        reconstructs(Ok(reconstructed), prediction, residual, quantizer, lists, mode),
        0 <= index < 4,
        forall|i: int| 0 <= i < 15 ==> #[trigger] residual.chroma_ac[1][index].coefficients[i] == 0,
        0 <= row < 4,
        0 <= column < 4,
    ensures
        ({
            let values = residual.chroma_dc[1].coefficients;
            let sum = if index == 0 {
                values[0] + values[1] + values[2] + values[3]
            } else if index == 1 {
                values[0] - values[1] + values[2] - values[3]
            } else if index == 2 {
                values[0] + values[1] - values[2] - values[3]
            } else {
                values[0] - values[1] - values[2] + values[3]
            };
            let dc = sum * (lists[2][0] * even_step(quantizer.chroma_cr)) * pow2(
                (quantizer.chroma_cr / 6) as nat,
            ) / 32;
            reconstructed.chroma_cr[index][row][column] == (dc + 32) / 64
        }),
{
    assert(holds_residual(reconstructed, prediction, residual, quantizer, lists, mode));
    let qp = quantizer.chroma_cr;
    let list = lists[2];
    let values = residual.chroma_dc[1].coefficients@.take(4);
    law_chroma_constants_are_scaled_sums(values, qp, list);
    let dc = chroma_dc(values, qp, list)(index / 2, index % 2);
    let ac = residual.chroma_ac[1][index].coefficients@;
    assert forall|i: int| 0 <= i < 15 implies #[trigger] ac[i] == 0 by {
        assert(residual.chroma_ac[1][index].coefficients[i] == 0);
    }
    assert(fits(chroma_dc(values, qp, list)(index / 2, index % 2)));
    lemma_constant_block(dc, ac, mode, qp, list, row, column);
    assert(holds_4x4(
        reconstructed.chroma_cr[index],
        chroma_residual(
            residual.chroma_dc[1],
            residual.chroma_ac[1],
            index,
            mode,
            qp,
            list,
        ),
    ));
    assert(reconstructed.chroma_cr[index][row][column] == (dc + 32) / 64);
}

/// Without a 16x16 prediction, each luma block is what its own coefficients are
/// reconstructed to, with the quantizer and the weights of luma.
pub proof fn law_luma_blocks_are_reconstructed_alone(
    reconstructed: ReconstructedIntraResidual,
    prediction: IntraLumaPrediction,
    residual: IntraResidual,
    quantizer: MacroblockQuantizer,
    lists: Seq<Seq<u8>>,
    mode: ScanMode,
    index: int,
    alone: Result<Block4x4>,
)
    requires
        reconstructs(Ok(reconstructed), prediction, residual, quantizer, lists, mode),
        !(prediction is SixteenBySixteen),
        0 <= index < 16,
        reconstructs_4x4(
            alone,
            scaled_4x4(
                scanned_4x4(residual.luma[index].coefficients@, mode),
                factors_4x4(quantizer.luma, lists[0]),
                quantizer.luma,
                false,
            ),
        ),
        alone is Ok,
    ensures
        forall|row: int, column: int|
            0 <= row < 4 && 0 <= column < 4 ==> #[trigger] alone->Ok_0[row][column]
                == reconstructed.luma[index][row][column],
{
    assert(holds_residual(reconstructed, prediction, residual, quantizer, lists, mode));
    assert(holds_4x4(
        reconstructed.luma[index],
        luma_residual(prediction, residual, index, mode, quantizer.luma, lists[0]),
    ));
}

} // verus!
