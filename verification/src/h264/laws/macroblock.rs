//! Laws of macroblock syntax.

use vstd::prelude::*;

use crate::h264::bits::{bit_at, Cursor};
use crate::h264::macroblock::{
    b_sub_type_syntax, difference_syntax, inter_patterns, inter_tail_syntax,
    intra_macroblock_syntax, intra_patterns, intra_type_syntax, p_sub_type_syntax, pattern_syntax,
    qp_delta_syntax, reference_index_syntax, CodedBlockPattern, IntraMacroblockView,
    LumaPredictionView,
};

verus! {

/// The codes of the coded block patterns of intra macroblocks: those without chroma
/// coefficients, then those with constants alone, then those with all, each by its
/// luma regions.
pub const INTRA_PATTERN_CODES: [u32; 48] = [
    3, 29, 30, 17, 31, 18, 37, 8, 32, 38, 19, 9, 20, 10, 11, 2,
    16, 33, 34, 21, 35, 22, 39, 4, 36, 40, 23, 5, 24, 6, 7, 1,
    41, 42, 43, 25, 44, 26, 46, 12, 45, 47, 27, 13, 28, 14, 15, 0,
];

/// The codes of the coded block patterns of inter macroblocks, in the same order.
pub const INTER_PATTERN_CODES: [u32; 48] = [
    0, 2, 3, 7, 4, 8, 17, 13, 5, 18, 9, 14, 10, 15, 16, 11,
    1, 32, 33, 36, 34, 37, 44, 40, 35, 45, 38, 41, 39, 42, 43, 19,
    6, 24, 25, 20, 26, 21, 46, 28, 27, 47, 22, 29, 23, 30, 31, 12,
];

/// The 24 types of intra macroblocks with one 16x16 prediction count through the
/// modes, then the chroma patterns, then the luma patterns: none or all regions.
pub proof fn law_intra_16x16_types_count_their_fields(
    cursor: Cursor,
    transform_8x8_mode: bool,
    mode: u8,
    chroma: u8,
    luma: u8,
)
    requires
        mode < 4,
        chroma < 3,
        luma == 0 || luma == 15,
        cursor.ue().1.error is None,
        cursor.ue().0 == 1 + mode + 4 * chroma + if luma == 15 {
            12int
        } else {
            0
        },
    ensures
        intra_macroblock_syntax(cursor, transform_8x8_mode).0 matches
            IntraMacroblockView::Predicted(header) && {
            &&& header.luma_prediction == LumaPredictionView::SixteenBySixteen { mode }
            &&& header.coded_block_pattern == CodedBlockPattern { luma, chroma }
            &&& header.chroma_prediction_mode == cursor.ue().1.ue().0 as u8
        },
{
    reveal(intra_type_syntax);
    let index = cursor.ue().0 - 1;
    assert(index % 4 == mode && index / 4 % 3 == chroma && (index >= 12 <==> luma == 15));
}

/// Every coded block pattern has its own code, for intra and for inter macroblocks.
pub proof fn law_pattern_codes(cursor: Cursor, luma: u8, chroma: u8)
    requires
        luma < 16,
        chroma < 3,
    ensures
        INTRA_PATTERN_CODES[16 * chroma + luma] < 48,
        INTER_PATTERN_CODES[16 * chroma + luma] < 48,
        cursor.ue().0 == INTRA_PATTERN_CODES[16 * chroma + luma] ==> pattern_syntax(
            cursor,
            intra_patterns(),
        ) == (CodedBlockPattern { luma, chroma }, cursor.ue().1),
        cursor.ue().0 == INTER_PATTERN_CODES[16 * chroma + luma] ==> pattern_syntax(
            cursor,
            inter_patterns(),
        ) == (CodedBlockPattern { luma, chroma }, cursor.ue().1),
{
    let value = 16 * chroma + luma;
    assert(intra_patterns()[INTRA_PATTERN_CODES[value] as int] == value);
    assert(inter_patterns()[INTER_PATTERN_CODES[value] as int] == value);
}

/// The types of B sub-macroblocks by their codes: which lists they use and how large
/// their partitions are.
pub proof fn law_b_sub_macroblock_codes(cursor: Cursor)
    requires
        cursor.ue().1.error is None,
    ensures
        ({
            let code = cursor.ue().0;
            let (sub_type, next) = b_sub_type_syntax(cursor);
            &&& code > 12 <==> next.error is Some
            &&& code <= 12 ==> next == cursor.ue().1
            &&& sub_type.mode() is Direct <==> code == 0 || code > 12
            &&& sub_type.mode() is List0 <==> code == 1 || code == 4 || code == 5 || code == 10
            &&& sub_type.mode() is List1 <==> code == 2 || code == 6 || code == 7 || code == 11
            &&& sub_type.mode() is Bi <==> code == 3 || code == 8 || code == 9 || code == 12
            &&& code <= 3 ==> sub_type.size() == (8u8, 8u8) && sub_type.count() == 1
            &&& code == 4 || code == 6 || code == 8 ==> sub_type.size() == (8u8, 4u8)
                && sub_type.count() == 2
            &&& code == 5 || code == 7 || code == 9 ==> sub_type.size() == (4u8, 8u8)
                && sub_type.count() == 2
            &&& 10 <= code <= 12 ==> sub_type.size() == (4u8, 4u8) && sub_type.count() == 4
        }),
{
}

/// The types of P sub-macroblocks by their codes.
pub proof fn law_p_sub_macroblock_codes(cursor: Cursor)
    requires
        cursor.ue().1.error is None,
    ensures
        ({
            let code = cursor.ue().0;
            let (sub_type, next) = p_sub_type_syntax(cursor);
            &&& code > 3 <==> next.error is Some
            &&& code == 0 ==> sub_type.size() == (8u8, 8u8) && sub_type.count() == 1
            &&& code == 1 ==> sub_type.size() == (8u8, 4u8) && sub_type.count() == 2
            &&& code == 2 ==> sub_type.size() == (4u8, 8u8) && sub_type.count() == 2
            &&& code == 3 ==> sub_type.size() == (4u8, 4u8) && sub_type.count() == 4
        }),
{
}

/// A reference index takes no bits where there is one reference, one bit that is
/// inverted where there are two, and a code elsewhere.
pub proof fn law_reference_indices(cursor: Cursor, active: u8)
    requires
        cursor.error is None,
        active >= 1,
    ensures
        active == 1 ==> reference_index_syntax(cursor, active) == (0u8, cursor),
        active == 2 && cursor.position < 8 * cursor.data.len() ==> reference_index_syntax(
            cursor,
            active,
        ) == (
            if bit_at(cursor.data, cursor.position) {
                0u8
            } else {
                1u8
            },
            Cursor { position: cursor.position + 1, ..cursor },
        ),
        active > 2 && cursor.ue().1.error is None ==> if cursor.ue().0 < active {
            reference_index_syntax(cursor, active) == (cursor.ue().0 as u8, cursor.ue().1)
        } else {
            reference_index_syntax(cursor, active).1.error is Some
        },
{
}

/// A motion vector difference is a horizontal and then a vertical number.
pub proof fn law_differences_are_horizontal_first(cursor: Cursor)
    requires
        cursor.se().1.se().1.error is None,
    ensures
        ({
            let (x, between) = cursor.se();
            let (y, behind) = between.se();
            let (difference, next) = difference_syntax(cursor);
            if -0x8000 <= x <= 0x7fff && -0x8000 <= y <= 0x7fff {
                difference.x == x && difference.y == y && next == behind
            } else {
                next.error is Some
            }
        }),
{
}

/// A change of the quantizer is read only where coefficients follow, and the size of
/// the transform only where luma coefficients follow and 8x8 blocks are permitted.
pub proof fn law_inter_tails(cursor: Cursor, permits: bool)
    requires
        pattern_syntax(cursor, inter_patterns()).1.error is None,
    ensures
        ({
            let (pattern, behind) = pattern_syntax(cursor, inter_patterns());
            let (tail, next) = inter_tail_syntax(cursor, permits);
            &&& tail.coded_block_pattern == pattern
            &&& pattern.luma == 0 && pattern.chroma == 0 ==> next == behind && tail.qp_delta == 0
                && !tail.transform_size_8x8
            &&& pattern.luma == 0 && pattern.chroma != 0 ==> !tail.transform_size_8x8 && next
                == qp_delta_syntax(behind).1 && tail.qp_delta == behind.se().0 as i8
            &&& pattern.luma != 0 && !permits ==> !tail.transform_size_8x8 && next
                == qp_delta_syntax(behind).1 && tail.qp_delta == behind.se().0 as i8
            &&& pattern.luma != 0 && permits ==> tail.transform_size_8x8 == behind.flag().0 && next
                == qp_delta_syntax(behind.flag().1).1 && tail.qp_delta
                == behind.flag().1.se().0 as i8
        }),
{
    reveal(inter_tail_syntax);
}

/// A change of the quantizer is a signed number from -26 to 25.
pub proof fn law_quantizer_changes(cursor: Cursor)
    requires
        cursor.se().1.error is None,
    ensures
        -26 <= cursor.se().0 <= 25 <==> qp_delta_syntax(cursor).1.error is None,
        -26 <= cursor.se().0 <= 25 ==> qp_delta_syntax(cursor).0 == cursor.se().0
            && qp_delta_syntax(cursor).1 == cursor.se().1,
{
}

} // verus!
