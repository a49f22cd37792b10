//! Laws of the counters of a profile.

use vstd::prelude::*;

use crate::h264::profiling::{
    with_chroma, with_decision, with_direct_grid, with_luma, with_size, with_uniform_direct,
    CABAC_DECISIONS, CABAC_LPS, CABAC_MPS_NO_RENORMALIZATION, CABAC_MPS_RENORMALIZATION, CALLS,
    CHROMA_BILINEAR_CALLS, CHROMA_BILINEAR_PIXELS, CHROMA_CLIPPED_CALLS, CHROMA_CLIPPED_PIXELS,
    CHROMA_INTEGER_CALLS, CHROMA_INTEGER_PIXELS, CHROMA_PIXELS, LUMA_CLIPPED_CALLS,
    LUMA_CLIPPED_PIXELS, LUMA_HORIZONTAL_CALLS, LUMA_HORIZONTAL_PIXELS, LUMA_INTEGER_CALLS,
    LUMA_INTEGER_PIXELS, LUMA_PIXELS, LUMA_TWO_DIMENSIONAL_CALLS, LUMA_TWO_DIMENSIONAL_PIXELS,
    LUMA_VERTICAL_CALLS, LUMA_VERTICAL_PIXELS, SPATIAL_DIRECT_BOTH_REFERENCE_ZERO,
    SPATIAL_DIRECT_BOTH_ZERO, SPATIAL_DIRECT_COL_ZERO_CLEAR, SPATIAL_DIRECT_COL_ZERO_MIXED,
    SPATIAL_DIRECT_COL_ZERO_SET, SPATIAL_DIRECT_LIST0_ZERO, SPATIAL_DIRECT_LIST1_ZERO,
    SPATIAL_DIRECT_MACROBLOCKS, SPATIAL_DIRECT_UNIFORM_PREDICTION, WIDTH_16, WIDTH_4, WIDTH_8,
};

verus! {

/// By how much a counter was raised. Counters start again from zero.
pub open spec fn gained(before: Seq<u64>, after: Seq<u64>, counter: usize, count: int) -> bool {
    after[counter as int] == (before[counter as int] + count) % 0x1_0000_0000_0000_0000
}

/// One where a condition holds.
pub open spec fn one_if(condition: bool) -> int {
    if condition {
        1
    } else {
        0
    }
}

/// A prediction is counted once, with its samples, of which there are half as many of
/// chroma, and by its width.
pub proof fn law_predictions_are_counted(counters: Seq<u64>, width: u8, pixels: u64)
    requires
        counters.len() == 36,
    ensures
        ({
            let after = with_size(counters, width, pixels);
            &&& gained(counters, after, CALLS, 1)
            &&& gained(counters, after, LUMA_PIXELS, pixels as int)
            &&& gained(counters, after, CHROMA_PIXELS, pixels as int / 2)
            &&& gained(counters, after, WIDTH_4, one_if(width == 4))
            &&& gained(counters, after, WIDTH_8, one_if(width == 8))
            &&& gained(counters, after, WIDTH_16, one_if(width == 16))
            &&& forall|i: int| 6 <= i < 36 ==> #[trigger] after[i] == counters[i]
        }),
{
}

/// A luma prediction is counted once, by whether it lies between columns, between rows,
/// between both or between none, and again where it reaches over an edge.
pub proof fn law_luma_predictions_are_counted(
    counters: Seq<u64>,
    x: u8,
    y: u8,
    clipped: bool,
    pixels: u64,
)
    requires
        counters.len() == 36,
    ensures
        ({
            let after = with_luma(counters, x, y, clipped, pixels);
            let whole = x == 0 && y == 0;
            let across = x != 0 && y == 0;
            let down = x == 0 && y != 0;
            let both = x != 0 && y != 0;
            &&& gained(counters, after, LUMA_INTEGER_CALLS, one_if(whole))
            &&& gained(counters, after, LUMA_HORIZONTAL_CALLS, one_if(across))
            &&& gained(counters, after, LUMA_VERTICAL_CALLS, one_if(down))
            &&& gained(counters, after, LUMA_TWO_DIMENSIONAL_CALLS, one_if(both))
            &&& gained(counters, after, LUMA_CLIPPED_CALLS, one_if(clipped))
            &&& whole ==> gained(counters, after, LUMA_INTEGER_PIXELS, pixels as int)
            &&& across ==> gained(counters, after, LUMA_HORIZONTAL_PIXELS, pixels as int)
            &&& down ==> gained(counters, after, LUMA_VERTICAL_PIXELS, pixels as int)
            &&& both ==> gained(counters, after, LUMA_TWO_DIMENSIONAL_PIXELS, pixels as int)
            &&& !whole ==> gained(counters, after, LUMA_INTEGER_PIXELS, 0)
            &&& !across ==> gained(counters, after, LUMA_HORIZONTAL_PIXELS, 0)
            &&& !down ==> gained(counters, after, LUMA_VERTICAL_PIXELS, 0)
            &&& !both ==> gained(counters, after, LUMA_TWO_DIMENSIONAL_PIXELS, 0)
            &&& clipped ==> gained(counters, after, LUMA_CLIPPED_PIXELS, pixels as int)
            &&& !clipped ==> gained(counters, after, LUMA_CLIPPED_PIXELS, 0)
            &&& forall|i: int| 0 <= i < 6 || 16 <= i < 36 ==> #[trigger] after[i] == counters[i]
        }),
{
}

/// A chroma prediction is counted once, by whether it lies between samples, and again
/// where it reaches over an edge.
pub proof fn law_chroma_predictions_are_counted(
    counters: Seq<u64>,
    x: u8,
    y: u8,
    clipped: bool,
    pixels: u64,
)
    requires
        counters.len() == 36,
    ensures
        ({
            let after = with_chroma(counters, x, y, clipped, pixels);
            let whole = x == 0 && y == 0;
            &&& gained(counters, after, CHROMA_INTEGER_CALLS, one_if(whole))
            &&& gained(counters, after, CHROMA_BILINEAR_CALLS, one_if(!whole))
            &&& gained(counters, after, CHROMA_CLIPPED_CALLS, one_if(clipped))
            &&& whole ==> gained(counters, after, CHROMA_INTEGER_PIXELS, pixels as int)
            &&& !whole ==> gained(counters, after, CHROMA_INTEGER_PIXELS, 0)
            &&& whole ==> gained(counters, after, CHROMA_BILINEAR_PIXELS, 0)
            &&& !whole ==> gained(counters, after, CHROMA_BILINEAR_PIXELS, pixels as int)
            &&& clipped ==> gained(counters, after, CHROMA_CLIPPED_PIXELS, pixels as int)
            &&& !clipped ==> gained(counters, after, CHROMA_CLIPPED_PIXELS, 0)
            &&& forall|i: int| 0 <= i < 16 || 22 <= i < 36 ==> #[trigger] after[i] == counters[i]
        }),
{
}

/// A decision is counted once, by whether it was the less probable one, and by whether
/// the more probable one made the decoder renormalize.
pub proof fn law_decisions_are_counted(counters: Seq<u64>, less: bool, renormalized: bool)
    requires
        counters.len() == 36,
    ensures
        ({
            let after = with_decision(counters, less, renormalized);
            &&& gained(counters, after, CABAC_DECISIONS, 1)
            &&& gained(counters, after, CABAC_LPS, one_if(less))
            &&& gained(
                counters,
                after,
                CABAC_MPS_RENORMALIZATION,
                one_if(!less && renormalized),
            )
            &&& gained(
                counters,
                after,
                CABAC_MPS_NO_RENORMALIZATION,
                one_if(!less && !renormalized),
            )
            &&& forall|i: int| 0 <= i < 32 ==> #[trigger] after[i] == counters[i]
        }),
{
}

/// A uniform direct macroblock is counted once, and by which of its lists are zero.
pub proof fn law_uniform_direct_macroblocks_are_counted(
    counters: Seq<u64>,
    first: bool,
    second: bool,
    references: bool,
)
    requires
        counters.len() == 36,
    ensures
        ({
            let after = with_uniform_direct(counters, first, second, references);
            &&& gained(counters, after, SPATIAL_DIRECT_MACROBLOCKS, 1)
            &&& gained(counters, after, SPATIAL_DIRECT_UNIFORM_PREDICTION, 1)
            &&& gained(counters, after, SPATIAL_DIRECT_LIST0_ZERO, one_if(first))
            &&& gained(counters, after, SPATIAL_DIRECT_LIST1_ZERO, one_if(second))
            &&& gained(counters, after, SPATIAL_DIRECT_BOTH_ZERO, one_if(first && second))
            &&& gained(counters, after, SPATIAL_DIRECT_BOTH_REFERENCE_ZERO, one_if(references))
        }),
{
}

proof fn lemma_masks()
    by (bit_vector)
    ensures
        0xffffu16 >> 15usize == 1,
        0xffffu16 >> 12usize == 0xf,
        0xffffu16 >> 0usize == 0xffff,
{
}

/// A direct macroblock of one, four or sixteen cells is counted once, by whether none of
/// its cells is zero, all of them or some.
pub proof fn law_direct_macroblocks_are_counted(counters: Seq<u64>, cells: usize, mask: u16)
    requires
        counters.len() == 36,
        cells == 1 || cells == 4 || cells == 16,
    ensures
        ({
            let after = with_direct_grid(counters, cells, mask);
            let all = cells == 1 && mask == 1 || cells == 4 && mask == 0xf || cells == 16 && mask
                == 0xffff;
            &&& gained(counters, after, SPATIAL_DIRECT_MACROBLOCKS, 1)
            &&& gained(counters, after, SPATIAL_DIRECT_COL_ZERO_CLEAR, one_if(mask == 0))
            &&& gained(counters, after, SPATIAL_DIRECT_COL_ZERO_SET, one_if(all))
            &&& gained(
                counters,
                after,
                SPATIAL_DIRECT_COL_ZERO_MIXED,
                one_if(mask != 0 && !all),
            )
        }),
{
    lemma_masks();
}

} // verus!
