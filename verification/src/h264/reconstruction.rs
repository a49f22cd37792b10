//! Conversion from decoded transform coefficients to spatial residual samples.

use vstd::prelude::*;

use super::error::{first_error, lemma_first_error, or_error, H264Error, Result};
use super::macroblock::{IntraLumaPrediction, IntraMacroblockHeader, IntraResidual, ResidualBlock};
use super::quantization::MacroblockQuantizer;
use super::transform::{
    all_fit, chroma_dc, factors_4x4, holds_4x4, inverse_transform_chroma_dc_420,
    inverse_transform_luma_dc_4x4, luma_dc, reconstruct_residual_4x4, scaled_4x4, scaling_error,
    scanned_4x4, transformed_4x4, Block4x4, ColorComponent, Matrix, PredictionClass,
    ResolvedScalingLists4x4, ScanMode,
};

verus! {

/// The columns of the sixteen luma blocks of a macroblock, in decoding order.
pub const LUMA_BLOCK_COLUMNS: [usize; 16] = [0, 1, 0, 1, 2, 3, 2, 3, 0, 1, 0, 1, 2, 3, 2, 3];

/// The rows of the sixteen luma blocks of a macroblock, in decoding order.
pub const LUMA_BLOCK_ROWS: [usize; 16] = [0, 0, 1, 1, 0, 0, 1, 1, 2, 2, 3, 3, 2, 2, 3, 3];

#[derive(Debug, Clone, PartialEq, Eq)]
pub struct ReconstructedIntraResidual {
    pub luma: [Block4x4; 16],
    pub chroma_cb: [Block4x4; 4],
    pub chroma_cr: [Block4x4; 4],
}

/// Coefficients with their DC in front of fifteen others.
pub open spec fn merged(dc: int, ac: Seq<i32>) -> Seq<i32> {
    seq![dc as i32] + ac.take(15)
}

/// Why a list of coefficients has no residual.
pub open spec fn block_error(
    values: Seq<i32>,
    mode: ScanMode,
    qp: u8,
    list: Seq<u8>,
    preserve_dc: bool,
) -> Option<H264Error> {
    match scaling_error(qp, list, "4x4 scaling-list entries must be non-zero") {
        Some(error) => Some(error),
        None => if all_fit(
            scaled_4x4(scanned_4x4(values, mode), factors_4x4(qp, list), qp, preserve_dc),
            4,
        ) {
            None
        } else {
            Some(H264Error::IntegerOverflow)
        },
    }
}

/// The residual of a list of coefficients.
pub open spec fn block_residual(
    values: Seq<i32>,
    mode: ScanMode,
    qp: u8,
    list: Seq<u8>,
    preserve_dc: bool,
) -> Matrix {
    transformed_4x4(scaled_4x4(scanned_4x4(values, mode), factors_4x4(qp, list), qp, preserve_dc))
}

/// The error of a block that is not of the size that its path takes.
pub open spec fn size_error(block: ResidualBlock, expected: int) -> Option<H264Error> {
    if block.max_num_coeff != expected {
        Some(
            H264Error::InvalidSyntax("residual block size does not match its transform path"),
        )
    } else {
        None
    }
}

/// The coefficients of an Intra16x16 luma block, its DC out of the transform of
/// all sixteen.
pub open spec fn sixteen_values(
    dc: Seq<i32>,
    ac: Seq<i32>,
    index: int,
    mode: ScanMode,
    qp: u8,
    list: Seq<u8>,
) -> Seq<i32> {
    merged(
        luma_dc(scanned_4x4(dc, mode), qp, list)(
            LUMA_BLOCK_ROWS[index] as int,
            LUMA_BLOCK_COLUMNS[index] as int,
        ),
        ac,
    )
}

/// Why the DC transform of an Intra16x16 macroblock is refused.
pub open spec fn luma_dc_error(
    dc: Option<ResidualBlock>,
    mode: ScanMode,
    qp: u8,
    list: Seq<u8>,
) -> Option<H264Error> {
    match dc {
        None => Some(
            H264Error::InvalidSyntax("Intra16x16 residual is missing its luma DC block"),
        ),
        Some(dc) => or_error(
            size_error(dc, 16),
            or_error(
                scaling_error(qp, list, "4x4 scaling-list entries must be non-zero"),
                if all_fit(luma_dc(scanned_4x4(dc.coefficients@, mode), qp, list), 4) {
                    None
                } else {
                    Some(H264Error::IntegerOverflow)
                },
            ),
        ),
    }
}

/// Why the luma blocks of an Intra16x16 macroblock have no residual.
pub open spec fn sixteen_errors(
    residual: IntraResidual,
    mode: ScanMode,
    qp: u8,
    list: Seq<u8>,
) -> spec_fn(int) -> Option<H264Error> {
    |index: int|
        or_error(
            size_error(residual.luma[index], 15),
            block_error(
                sixteen_values(
                    residual.luma_dc->0.coefficients@,
                    residual.luma[index].coefficients@,
                    index,
                    mode,
                    qp,
                    list,
                ),
                mode,
                qp,
                list,
                true,
            ),
        )
}

/// Why the luma blocks of an Intra4x4 macroblock have no residual.
pub open spec fn four_errors(
    residual: IntraResidual,
    mode: ScanMode,
    qp: u8,
    list: Seq<u8>,
) -> spec_fn(int) -> Option<H264Error> {
    |index: int|
        or_error(
            size_error(residual.luma[index], 16),
            block_error(residual.luma[index].coefficients@, mode, qp, list, false),
        )
}

/// Why a macroblock has no luma residual.
pub open spec fn luma_error(
    prediction: IntraLumaPrediction,
    residual: IntraResidual,
    mode: ScanMode,
    qp: u8,
    list: Seq<u8>,
) -> Option<H264Error> {
    match prediction {
        IntraLumaPrediction::SixteenBySixteen { .. } => or_error(
            luma_dc_error(residual.luma_dc, mode, qp, list),
            first_error(sixteen_errors(residual, mode, qp, list), 16),
        ),
        _ => if residual.luma_dc is Some {
            Some(H264Error::InvalidSyntax("Intra4x4 residual unexpectedly contains luma DC"))
        } else {
            first_error(four_errors(residual, mode, qp, list), 16)
        },
    }
}

/// The residual of a luma block.
pub open spec fn luma_residual(
    prediction: IntraLumaPrediction,
    residual: IntraResidual,
    index: int,
    mode: ScanMode,
    qp: u8,
    list: Seq<u8>,
) -> Matrix {
    match prediction {
        IntraLumaPrediction::SixteenBySixteen { .. } => block_residual(
            sixteen_values(
                residual.luma_dc->0.coefficients@,
                residual.luma[index].coefficients@,
                index,
                mode,
                qp,
                list,
            ),
            mode,
            qp,
            list,
            true,
        ),
        _ => block_residual(residual.luma[index].coefficients@, mode, qp, list, false),
    }
}

/// The coefficients of a chroma block, its DC out of the transform of all four.
pub open spec fn chroma_values(
    dc: Seq<i32>,
    ac: Seq<i32>,
    index: int,
    qp: u8,
    list: Seq<u8>,
) -> Seq<i32> {
    merged(chroma_dc(dc.take(4), qp, list)(index / 2, index % 2), ac)
}

/// Why the blocks of a chroma component have no residual.
pub open spec fn chroma_errors(
    dc: ResidualBlock,
    ac: [ResidualBlock; 4],
    mode: ScanMode,
    qp: u8,
    list: Seq<u8>,
) -> spec_fn(int) -> Option<H264Error> {
    |index: int|
        or_error(
            size_error(ac[index], 15),
            block_error(
                chroma_values(dc.coefficients@, ac[index].coefficients@, index, qp, list),
                mode,
                qp,
                list,
                true,
            ),
        )
}

/// Why a macroblock has no residual in a chroma component.
pub open spec fn chroma_error(
    dc: ResidualBlock,
    ac: [ResidualBlock; 4],
    mode: ScanMode,
    qp: u8,
    list: Seq<u8>,
) -> Option<H264Error> {
    or_error(
        or_error(
            size_error(dc, 4),
            or_error(
                scaling_error(qp, list, "4x4 scaling-list entries must be non-zero"),
                if all_fit(chroma_dc(dc.coefficients@.take(4), qp, list), 2) {
                    None
                } else {
                    Some(H264Error::IntegerOverflow)
                },
            ),
        ),
        first_error(chroma_errors(dc, ac, mode, qp, list), 4),
    )
}

/// The residual of a chroma block.
pub open spec fn chroma_residual(
    dc: ResidualBlock,
    ac: [ResidualBlock; 4],
    index: int,
    mode: ScanMode,
    qp: u8,
    list: Seq<u8>,
) -> Matrix {
    block_residual(
        chroma_values(dc.coefficients@, ac[index].coefficients@, index, qp, list),
        mode,
        qp,
        list,
        true,
    )
}

/// Why a macroblock has no residual.
pub open spec fn intra_residual_error(
    prediction: IntraLumaPrediction,
    residual: IntraResidual,
    quantizer: MacroblockQuantizer,
    lists: Seq<Seq<u8>>,
    mode: ScanMode,
) -> Option<H264Error> {
    if quantizer.transform_bypass {
        Some(H264Error::UnsupportedFeature("transform-bypass macroblock reconstruction"))
    } else if prediction is EightByEight {
        Some(H264Error::UnsupportedFeature("8x8 inverse transform reconstruction"))
    } else {
        or_error(
            luma_error(prediction, residual, mode, quantizer.luma, lists[0]),
            or_error(
                chroma_error(
                    residual.chroma_dc[0],
                    residual.chroma_ac[0],
                    mode,
                    quantizer.chroma_cb,
                    lists[1],
                ),
                chroma_error(
                    residual.chroma_dc[1],
                    residual.chroma_ac[1],
                    mode,
                    quantizer.chroma_cr,
                    lists[2],
                ),
            ),
        )
    }
}

/// A macroblock's residual holds that of each of its blocks.
pub open spec fn holds_residual(
    reconstructed: ReconstructedIntraResidual,
    prediction: IntraLumaPrediction,
    residual: IntraResidual,
    quantizer: MacroblockQuantizer,
    lists: Seq<Seq<u8>>,
    mode: ScanMode,
) -> bool {
    &&& forall|index: int|
        0 <= index < 16 ==> holds_4x4(
            #[trigger] reconstructed.luma[index],
            luma_residual(prediction, residual, index, mode, quantizer.luma, lists[0]),
        )
    &&& forall|index: int|
        0 <= index < 4 ==> holds_4x4(
            #[trigger] reconstructed.chroma_cb[index],
            chroma_residual(
                residual.chroma_dc[0],
                residual.chroma_ac[0],
                index,
                mode,
                quantizer.chroma_cb,
                lists[1],
            ),
        )
    &&& forall|index: int|
        0 <= index < 4 ==> holds_4x4(
            #[trigger] reconstructed.chroma_cr[index],
            chroma_residual(
                residual.chroma_dc[1],
                residual.chroma_ac[1],
                index,
                mode,
                quantizer.chroma_cr,
                lists[2],
            ),
        )
}

/// A result holds the residual of a macroblock, or says why it has none.
pub open spec fn reconstructs(
    result: Result<ReconstructedIntraResidual>,
    prediction: IntraLumaPrediction,
    residual: IntraResidual,
    quantizer: MacroblockQuantizer,
    lists: Seq<Seq<u8>>,
    mode: ScanMode,
) -> bool {
    match intra_residual_error(prediction, residual, quantizer, lists, mode) {
        Some(error) => result == Err::<ReconstructedIntraResidual, H264Error>(error),
        None => result matches Ok(reconstructed) && holds_residual(
            reconstructed,
            prediction,
            residual,
            quantizer,
            lists,
            mode,
        ),
    }
}

fn ensure_block_size(block: &ResidualBlock, expected: u8) -> (result: Result<()>)
    ensures
        result == match size_error(*block, expected as int) {
            Some(error) => Err::<(), H264Error>(error),
            None => Ok(()),
        },
{
    if block.max_num_coeff != expected {
        return Err(
            H264Error::InvalidSyntax("residual block size does not match its transform path"),
        );
    }
    Ok(())
}

fn merge_dc_and_ac(dc: i32, ac: &[i32; 16]) -> (coefficients: [i32; 16])
    ensures
        coefficients@ == merged(dc as int, ac@),
{
    let mut coefficients = [0i32; 16];
    coefficients[0] = dc;
    let mut index: usize = 1;
    while index < 16
        invariant
            1 <= index <= 16,
            coefficients[0] == dc,
            forall|i: int| 1 <= i < index ==> coefficients[i] == ac[i - 1],
        decreases 16 - index,
    {
        coefficients[index] = ac[index - 1];
        index = index + 1;
    }
    assert(coefficients@ =~= merged(dc as int, ac@));
    coefficients
}

fn reconstruct_block(
    values: &[i32; 16],
    scan_mode: ScanMode,
    qp: u8,
    scaling_list: &[u8; 16],
    preserve_dc: bool,
) -> (result: Result<Block4x4>)
    ensures
        match block_error(values@, scan_mode, qp, scaling_list@, preserve_dc) {
            Some(error) => result == Err::<Block4x4, H264Error>(error),
            None => result matches Ok(block) && holds_4x4(
                block,
                block_residual(values@, scan_mode, qp, scaling_list@, preserve_dc),
            ),
        },
{
    reconstruct_residual_4x4(values, scan_mode, qp, scaling_list, preserve_dc)
}

fn reconstruct_sixteen(
    residual: &IntraResidual,
    scan_mode: ScanMode,
    qp: u8,
    scaling_list: &[u8; 16],
) -> (result: Result<[Block4x4; 16]>)
    ensures
        match or_error(
            luma_dc_error(residual.luma_dc, scan_mode, qp, scaling_list@),
            first_error(sixteen_errors(*residual, scan_mode, qp, scaling_list@), 16),
        ) {
            Some(error) => result == Err::<[Block4x4; 16], H264Error>(error),
            None => result matches Ok(luma) && forall|index: int|
                0 <= index < 16 ==> holds_4x4(
                    #[trigger] luma[index],
                    block_residual(
                        sixteen_values(
                            residual.luma_dc->0.coefficients@,
                            residual.luma[index].coefficients@,
                            index,
                            scan_mode,
                            qp,
                            scaling_list@,
                        ),
                        scan_mode,
                        qp,
                        scaling_list@,
                        true,
                    ),
                ),
        },
{
    let dc = match &residual.luma_dc {
        Some(dc) => dc,
        None => return Err(
            H264Error::InvalidSyntax("Intra16x16 residual is missing its luma DC block"),
        ),
    };
    ensure_block_size(dc, 16)?;
    let transformed_dc = inverse_transform_luma_dc_4x4(
        &dc.coefficients,
        scan_mode,
        qp,
        scaling_list,
    )?;
    let ghost errors = sixteen_errors(*residual, scan_mode, qp, scaling_list@);
    let ghost numbers = luma_dc(scanned_4x4(dc.coefficients@, scan_mode), qp, scaling_list@);
    let mut luma: [Block4x4; 16] = [[[0i32; 4]; 4]; 16];
    let mut index: usize = 0;
    while index < 16
        invariant
            index <= 16,
            residual.luma_dc == Some(*dc),
            luma_dc_error(residual.luma_dc, scan_mode, qp, scaling_list@) is None,
            errors == sixteen_errors(*residual, scan_mode, qp, scaling_list@),
            numbers == luma_dc(scanned_4x4(dc.coefficients@, scan_mode), qp, scaling_list@),
            holds_4x4(transformed_dc, numbers),
            first_error(errors, index as int) is None,
            forall|i: int|
                0 <= i < index ==> holds_4x4(
                    #[trigger] luma[i],
                    block_residual(
                        sixteen_values(
                            residual.luma_dc->0.coefficients@,
                            residual.luma[i].coefficients@,
                            i,
                            scan_mode,
                            qp,
                            scaling_list@,
                        ),
                        scan_mode,
                        qp,
                        scaling_list@,
                        true,
                    ),
                ),
        decreases 16 - index,
    {
        proof {
            if errors(index as int) is Some {
                lemma_first_error(errors, index as int, 16);
            }
        }
        let block = &residual.luma[index];
        ensure_block_size(block, 15)?;
        let value: i32 = transformed_dc[LUMA_BLOCK_ROWS[index]][LUMA_BLOCK_COLUMNS[index]];
        let coefficients = merge_dc_and_ac(value, &block.coefficients);
        luma[index] = reconstruct_block(&coefficients, scan_mode, qp, scaling_list, true)?;
        index = index + 1;
    }
    Ok(luma)
}

fn reconstruct_four(
    residual: &IntraResidual,
    scan_mode: ScanMode,
    qp: u8,
    scaling_list: &[u8; 16],
) -> (result: Result<[Block4x4; 16]>)
    ensures
        match first_error(four_errors(*residual, scan_mode, qp, scaling_list@), 16) {
            Some(error) => result == Err::<[Block4x4; 16], H264Error>(error),
            None => result matches Ok(luma) && forall|index: int|
                0 <= index < 16 ==> holds_4x4(
                    #[trigger] luma[index],
                    block_residual(
                        residual.luma[index].coefficients@,
                        scan_mode,
                        qp,
                        scaling_list@,
                        false,
                    ),
                ),
        },
{
    let ghost errors = four_errors(*residual, scan_mode, qp, scaling_list@);
    let mut luma: [Block4x4; 16] = [[[0i32; 4]; 4]; 16];
    let mut index: usize = 0;
    while index < 16
        invariant
            index <= 16,
            errors == four_errors(*residual, scan_mode, qp, scaling_list@),
            first_error(errors, index as int) is None,
            forall|i: int|
                0 <= i < index ==> holds_4x4(
                    #[trigger] luma[i],
                    block_residual(
                        residual.luma[i].coefficients@,
                        scan_mode,
                        qp,
                        scaling_list@,
                        false,
                    ),
                ),
        decreases 16 - index,
    {
        proof {
            if errors(index as int) is Some {
                lemma_first_error(errors, index as int, 16);
            }
        }
        let block = &residual.luma[index];
        ensure_block_size(block, 16)?;
        luma[index] = reconstruct_block(&block.coefficients, scan_mode, qp, scaling_list, false)?;
        index = index + 1;
    }
    Ok(luma)
}

fn reconstruct_chroma(
    dc: &ResidualBlock,
    ac: &[ResidualBlock; 4],
    qp: u8,
    scaling_list: &[u8; 16],
    scan_mode: ScanMode,
) -> (result: Result<[Block4x4; 4]>)
    ensures
        match chroma_error(*dc, *ac, scan_mode, qp, scaling_list@) {
            Some(error) => result == Err::<[Block4x4; 4], H264Error>(error),
            None => result matches Ok(chroma) && forall|index: int|
                0 <= index < 4 ==> holds_4x4(
                    #[trigger] chroma[index],
                    chroma_residual(*dc, *ac, index, scan_mode, qp, scaling_list@),
                ),
        },
{
    ensure_block_size(dc, 4)?;
    let dc_values = [
        dc.coefficients[0],
        dc.coefficients[1],
        dc.coefficients[2],
        dc.coefficients[3],
    ];
    assert(dc_values@ =~= dc.coefficients@.take(4));
    let transformed_dc = inverse_transform_chroma_dc_420(&dc_values, qp, scaling_list)?;
    let ghost errors = chroma_errors(*dc, *ac, scan_mode, qp, scaling_list@);
    let ghost numbers = chroma_dc(dc.coefficients@.take(4), qp, scaling_list@);
    let mut output: [Block4x4; 4] = [[[0i32; 4]; 4]; 4];
    let mut index: usize = 0;
    while index < 4
        invariant
            index <= 4,
            errors == chroma_errors(*dc, *ac, scan_mode, qp, scaling_list@),
            chroma_error(*dc, *ac, scan_mode, qp, scaling_list@) == first_error(errors, 4),
            numbers == chroma_dc(dc.coefficients@.take(4), qp, scaling_list@),
            transformed_dc[0][0] == numbers(0, 0),
            transformed_dc[0][1] == numbers(0, 1),
            transformed_dc[1][0] == numbers(1, 0),
            transformed_dc[1][1] == numbers(1, 1),
            first_error(errors, index as int) is None,
            forall|i: int|
                0 <= i < index ==> holds_4x4(
                    #[trigger] output[i],
                    chroma_residual(*dc, *ac, i, scan_mode, qp, scaling_list@),
                ),
        decreases 4 - index,
    {
        proof {
            if errors(index as int) is Some {
                lemma_first_error(errors, index as int, 4);
            }
        }
        let block = &ac[index];
        ensure_block_size(block, 15)?;
        let value: i32 = transformed_dc[index / 2][index % 2];
        assert(value == numbers(index as int / 2, index as int % 2));
        let coefficients = merge_dc_and_ac(value, &block.coefficients);
        output[index] = reconstruct_block(&coefficients, scan_mode, qp, scaling_list, true)?;
        index = index + 1;
    }
    Ok(output)
}

/// Applies the 8-bit 4x4 inverse-scan, inverse-scaling, and inverse-transform
/// pipeline for one intra macroblock.
pub fn reconstruct_intra_residual(
    header: &IntraMacroblockHeader,
    residual: &IntraResidual,
    quantizer: MacroblockQuantizer,
    scaling_lists: &ResolvedScalingLists4x4,
    scan_mode: ScanMode,
) -> (result: Result<ReconstructedIntraResidual>)
    ensures
        reconstructs(
            result,
            header.luma_prediction,
            *residual,
            quantizer,
            scaling_lists@,
            scan_mode,
        ),
{
    if quantizer.transform_bypass {
        return Err(H264Error::UnsupportedFeature("transform-bypass macroblock reconstruction"));
    }
    let luma_scaling = scaling_lists.get(PredictionClass::Intra, ColorComponent::Luma);
    let luma = match &header.luma_prediction {
        IntraLumaPrediction::EightByEight(_) => return Err(
            H264Error::UnsupportedFeature("8x8 inverse transform reconstruction"),
        ),
        IntraLumaPrediction::SixteenBySixteen { .. } => reconstruct_sixteen(
            residual,
            scan_mode,
            quantizer.luma,
            luma_scaling,
        )?,
        IntraLumaPrediction::FourByFour(_) => {
            if residual.luma_dc.is_some() {
                return Err(
                    H264Error::InvalidSyntax("Intra4x4 residual unexpectedly contains luma DC"),
                );
            }
            reconstruct_four(residual, scan_mode, quantizer.luma, luma_scaling)?
        },
    };
    let chroma_cb = reconstruct_chroma(
        &residual.chroma_dc[0],
        &residual.chroma_ac[0],
        quantizer.chroma_cb,
        scaling_lists.get(PredictionClass::Intra, ColorComponent::Cb),
        scan_mode,
    )?;
    let chroma_cr = reconstruct_chroma(
        &residual.chroma_dc[1],
        &residual.chroma_ac[1],
        quantizer.chroma_cr,
        scaling_lists.get(PredictionClass::Intra, ColorComponent::Cr),
        scan_mode,
    )?;
    Ok(ReconstructedIntraResidual { luma, chroma_cb, chroma_cr })
}

/// Blocks that hold the same numbers are the same.
proof fn lemma_same_block(first: Block4x4, second: Block4x4, numbers: Matrix)
    requires
        holds_4x4(first, numbers),
        holds_4x4(second, numbers),
    ensures
        first == second,
{
    assert forall|row: int| 0 <= row < 4 implies #[trigger] first[row] == second[row] by {
        assert forall|column: int| 0 <= column < 4 implies #[trigger] first[row][column]
            == second[row][column] by {
            assert(first[row][column] == numbers(row, column));
            assert(second[row][column] == numbers(row, column));
        }
        assert(first[row] =~= second[row]);
    }
    assert(first =~= second);
}

/// The components of a macroblock do not depend on each other: luma is the same
/// for the same luma blocks, and each chroma component for its own blocks,
/// whatever the other blocks are.
pub proof fn law_components_are_independent(
    prediction: IntraLumaPrediction,
    quantizer: MacroblockQuantizer,
    lists: Seq<Seq<u8>>,
    mode: ScanMode,
    residual: IntraResidual,
    other: IntraResidual,
    first: ReconstructedIntraResidual,
    second: ReconstructedIntraResidual,
)
    requires
        reconstructs(Ok(first), prediction, residual, quantizer, lists, mode),
        reconstructs(Ok(second), prediction, other, quantizer, lists, mode),
    ensures
        residual.luma_dc == other.luma_dc && residual.luma == other.luma ==> first.luma
            == second.luma,
        residual.chroma_dc[0] == other.chroma_dc[0] && residual.chroma_ac[0]
            == other.chroma_ac[0] ==> first.chroma_cb == second.chroma_cb,
        residual.chroma_dc[1] == other.chroma_dc[1] && residual.chroma_ac[1]
            == other.chroma_ac[1] ==> first.chroma_cr == second.chroma_cr,
{
    assert(holds_residual(first, prediction, residual, quantizer, lists, mode));
    assert(holds_residual(second, prediction, other, quantizer, lists, mode));
    if residual.luma_dc == other.luma_dc && residual.luma == other.luma {
        assert forall|index: int| 0 <= index < 16 implies #[trigger] first.luma[index]
            == second.luma[index] by {
            lemma_same_block(
                first.luma[index],
                second.luma[index],
                luma_residual(prediction, residual, index, mode, quantizer.luma, lists[0]),
            );
        }
        assert(first.luma =~= second.luma);
    }
    if residual.chroma_dc[0] == other.chroma_dc[0] && residual.chroma_ac[0]
        == other.chroma_ac[0] {
        assert forall|index: int| 0 <= index < 4 implies #[trigger] first.chroma_cb[index]
            == second.chroma_cb[index] by {
            lemma_same_block(
                first.chroma_cb[index],
                second.chroma_cb[index],
                chroma_residual(
                    residual.chroma_dc[0],
                    residual.chroma_ac[0],
                    index,
                    mode,
                    quantizer.chroma_cb,
                    lists[1],
                ),
            );
        }
        assert(first.chroma_cb =~= second.chroma_cb);
    }
    if residual.chroma_dc[1] == other.chroma_dc[1] && residual.chroma_ac[1]
        == other.chroma_ac[1] {
        assert forall|index: int| 0 <= index < 4 implies #[trigger] first.chroma_cr[index]
            == second.chroma_cr[index] by {
            lemma_same_block(
                first.chroma_cr[index],
                second.chroma_cr[index],
                chroma_residual(
                    residual.chroma_dc[1],
                    residual.chroma_ac[1],
                    index,
                    mode,
                    quantizer.chroma_cr,
                    lists[2],
                ),
            );
        }
        assert(first.chroma_cr =~= second.chroma_cr);
    }
}

/// Macroblocks that bypass the transform or have 8x8 blocks are refused as not
/// supported, whatever they hold.
pub proof fn law_other_transforms_are_refused(
    result: Result<ReconstructedIntraResidual>,
    prediction: IntraLumaPrediction,
    residual: IntraResidual,
    quantizer: MacroblockQuantizer,
    lists: Seq<Seq<u8>>,
    mode: ScanMode,
)
    requires
        reconstructs(result, prediction, residual, quantizer, lists, mode),
        quantizer.transform_bypass || prediction is EightByEight,
    ensures
        result matches Err(error) && error is UnsupportedFeature,
{
}

} // verus!
