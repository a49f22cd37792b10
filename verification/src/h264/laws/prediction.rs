//! Laws of intra prediction.

use vstd::prelude::*;

use crate::h264::prediction::{
    clipped, directional, filters_to, gradient, intra_16x16_error, intra_4x4_error, intra_8x8_error,
    intra_chroma_error, plane, predicted_16x16, predicted_4x4, predicted_8x8, predicted_chroma,
    side, total, Intra16x16References, Intra4x4References, Intra8x8References,
    IntraChroma420References,
};

verus! {

/// The sample beside a block at column `x` and row `y`, of which one is -1 and the
/// other counts from the corner on.
pub open spec fn beside(top: Seq<u8>, corner: u8, left: Seq<u8>, x: int, y: int) -> int {
    if x < 0 && y < 0 {
        corner as int
    } else if y < 0 {
        top[x] as int
    } else {
        left[y] as int
    }
}

/// Three neighbouring numbers, the middle one twice, and rounded.
pub open spec fn smooth_3(first: int, middle: int, last: int) -> int {
    (first + 2 * middle + last + 2) / 4
}

/// Two neighbouring numbers, rounded up.
pub open spec fn smooth_2(first: int, second: int) -> int {
    (first + second + 1) / 2
}

/// The vertical and the horizontal prediction continue the samples of one side.
pub proof fn law_straight_predictions_continue_a_side(
    size: int,
    top: Seq<u8>,
    corner: u8,
    left: Seq<u8>,
    row: int,
    column: int,
)
    requires
        size == 4 || size == 8,
        top.len() == 2 * size,
        left.len() == size,
        0 <= row < size,
        0 <= column < size,
    ensures
        directional(0, size, top, corner, left, row, column) == top[column],
        directional(1, size, top, corner, left, row, column) == left[row],
{
}

/// Each diagonal prediction repeats a sample one step along its direction.
pub proof fn law_diagonal_predictions_keep_their_direction(
    mode: u8,
    size: int,
    top: Seq<u8>,
    corner: u8,
    left: Seq<u8>,
    row: int,
    column: int,
    other_row: int,
    other_column: int,
)
    requires
        size == 4 || size == 8,
        top.len() == 2 * size,
        left.len() == size,
        3 <= mode <= 8,
        0 <= row < size,
        0 <= column < size,
        0 <= other_row < size,
        0 <= other_column < size,
        mode == 3 ==> other_row == row + 1 && other_column == column - 1,
        mode == 4 ==> other_row == row + 1 && other_column == column + 1,
        mode == 5 ==> other_row == row + 2 && other_column == column + 1,
        mode == 6 ==> other_row == row + 1 && other_column == column + 2,
        mode == 7 ==> other_row == row + 2 && other_column == column - 1,
        mode == 8 ==> other_row == row + 1 && other_column == column - 2,
    ensures
        directional(mode, size, top, corner, left, row, column) == directional(
            mode,
            size,
            top,
            corner,
            left,
            other_row,
            other_column,
        ),
{
    if mode == 3 {
    } else if mode == 4 {
    } else if mode == 5 {
        assert(column - row / 2 == other_column - other_row / 2);
    } else if mode == 6 {
        assert(row - column / 2 == other_row - other_column / 2);
    } else if mode == 7 {
        assert(column + row / 2 == other_column + other_row / 2);
        assert(row % 2 == other_row % 2);
    } else {
        assert(row + column / 2 == other_row + other_column / 2);
    }
}

/// The prediction down to the left smooths the samples above, where the diagonal
/// meets them.
pub proof fn law_down_left(
    size: int,
    top: Seq<u8>,
    corner: u8,
    left: Seq<u8>,
    y: int,
    x: int,
)
    requires
        size == 4 || size == 8,
        top.len() == 2 * size,
        0 <= y < size,
        0 <= x < size,
    ensures
        directional(3, size, top, corner, left, y, x) == if x == size - 1 && y == size - 1 {
            (top[2 * size - 2] + 3 * top[2 * size - 1] + 2) / 4
        } else {
            smooth_3(top[x + y] as int, top[x + y + 1] as int, top[x + y + 2] as int)
        },
{
}

/// The prediction down to the right smooths the border where the diagonal meets it.
pub proof fn law_down_right(
    size: int,
    top: Seq<u8>,
    corner: u8,
    left: Seq<u8>,
    y: int,
    x: int,
)
    requires
        size == 4 || size == 8,
        top.len() == 2 * size,
        left.len() == size,
        0 <= y < size,
        0 <= x < size,
    ensures
        directional(4, size, top, corner, left, y, x) == if x > y {
            smooth_3(
                beside(top, corner, left, x - y - 2, -1),
                top[x - y - 1] as int,
                top[x - y] as int,
            )
        } else if x < y {
            smooth_3(
                beside(top, corner, left, -1, y - x - 2),
                left[y - x - 1] as int,
                left[y - x] as int,
            )
        } else {
            smooth_3(top[0] as int, corner as int, left[0] as int)
        },
{
}

/// The prediction to the right of vertical takes the mean of two or three samples
/// above, half a column further every row, and those on the left below.
pub proof fn law_vertical_right(
    size: int,
    top: Seq<u8>,
    corner: u8,
    left: Seq<u8>,
    y: int,
    x: int,
)
    requires
        size == 4 || size == 8,
        top.len() == 2 * size,
        left.len() == size,
        0 <= y < size,
        0 <= x < size,
    ensures
        directional(5, size, top, corner, left, y, x) == if y == 0 || y % 2 == 0 && 2 * x >= y {
            smooth_2(
                beside(top, corner, left, x - y / 2 - 1, -1),
                beside(top, corner, left, x - y / 2, -1),
            )
        } else if 2 * x - y >= 1 {
            smooth_3(
                beside(top, corner, left, x - y / 2 - 2, -1),
                beside(top, corner, left, x - y / 2 - 1, -1),
                beside(top, corner, left, x - y / 2, -1),
            )
        } else if 2 * x - y == -1 {
            smooth_3(left[0] as int, corner as int, top[0] as int)
        } else {
            smooth_3(
                left[y - 2 * x - 1] as int,
                left[y - 2 * x - 2] as int,
                beside(top, corner, left, -1, y - 2 * x - 3),
            )
        },
{
}

/// The prediction down from horizontal takes the mean of two or three samples on the
/// left, half a row further every column, and those above beyond.
pub proof fn law_horizontal_down(
    size: int,
    top: Seq<u8>,
    corner: u8,
    left: Seq<u8>,
    y: int,
    x: int,
)
    requires
        size == 4 || size == 8,
        top.len() == 2 * size,
        left.len() == size,
        0 <= y < size,
        0 <= x < size,
    ensures
        directional(6, size, top, corner, left, y, x) == if x == 0 || x % 2 == 0 && 2 * y >= x {
            smooth_2(
                beside(top, corner, left, -1, y - x / 2 - 1),
                beside(top, corner, left, -1, y - x / 2),
            )
        } else if 2 * y - x >= 1 {
            smooth_3(
                beside(top, corner, left, -1, y - x / 2 - 2),
                beside(top, corner, left, -1, y - x / 2 - 1),
                beside(top, corner, left, -1, y - x / 2),
            )
        } else if 2 * y - x == -1 {
            smooth_3(left[0] as int, corner as int, top[0] as int)
        } else {
            smooth_3(
                top[x - 2 * y - 1] as int,
                top[x - 2 * y - 2] as int,
                beside(top, corner, left, x - 2 * y - 3, -1),
            )
        },
{
}

/// The prediction to the left of vertical takes the mean of two samples above on even
/// rows and of three on odd ones.
pub proof fn law_vertical_left(
    size: int,
    top: Seq<u8>,
    corner: u8,
    left: Seq<u8>,
    y: int,
    x: int,
)
    requires
        size == 4 || size == 8,
        top.len() == 2 * size,
        0 <= y < size,
        0 <= x < size,
    ensures
        directional(7, size, top, corner, left, y, x) == if y == 0 || y == 2 || y == 4 || y == 6 {
            smooth_2(top[x + y / 2] as int, top[x + y / 2 + 1] as int)
        } else {
            smooth_3(
                top[x + y / 2] as int,
                top[x + y / 2 + 1] as int,
                top[x + y / 2 + 2] as int,
            )
        },
{
}

/// The prediction up from horizontal takes the mean of two or three samples on the
/// left, and repeats the last of them at the end.
pub proof fn law_horizontal_up(
    size: int,
    top: Seq<u8>,
    corner: u8,
    left: Seq<u8>,
    y: int,
    x: int,
)
    requires
        size == 4 || size == 8,
        left.len() == size,
        0 <= y < size,
        0 <= x < size,
    ensures
        directional(8, size, top, corner, left, y, x) == if y + x / 2 >= size - 1 {
            left[size - 1] as int
        } else if x % 2 == 0 {
            smooth_2(left[y + x / 2] as int, left[y + x / 2 + 1] as int)
        } else if y + x / 2 == size - 2 {
            (left[size - 2] + 3 * left[size - 1] + 2) / 4
        } else {
            smooth_3(
                left[y + x / 2] as int,
                left[y + x / 2 + 1] as int,
                left[y + x / 2 + 2] as int,
            )
        },
{
}

/// A 4x4 block is predicted from the samples around it as they are.
pub proof fn law_4x4_predicts_from_its_border(
    mode: u8,
    references: Intra4x4References,
    row: int,
    column: int,
)
    requires
        mode <= 8,
        mode != 2,
        references.top is Some,
        references.left is Some,
        references.top_left is Some,
    ensures
        predicted_4x4(mode, references, row, column) == directional(
            mode,
            4,
            references.top->0@,
            references.top_left->0,
            references.left->0@,
            row,
            column,
        ),
{
}

/// The first eight samples above an 8x8 block, the corner and those on the left are
/// each smoothed with their neighbours before they predict.
pub proof fn law_8x8_filters_its_border(
    references: Intra8x8References,
    filtered: Intra8x8References,
)
    requires
        filters_to(references, filtered),
    ensures
        filtered.top is Some == references.top is Some,
        filtered.left is Some == references.left is Some,
        filtered.top_left is Some == references.top_left is Some,
        references.top matches Some(top) ==> {
            let smoothed = filtered.top->0;
            &&& forall|x: int|
                #![trigger smoothed[x]]
                1 <= x < 15 ==> smoothed[x] == smooth_3(
                    top[x - 1] as int,
                    top[x] as int,
                    top[x + 1] as int,
                )
            &&& smoothed[15] == (top[14] + 3 * top[15] + 2) / 4
            &&& references.top_left matches Some(corner) ==> smoothed[0] == smooth_3(
                corner as int,
                top[0] as int,
                top[1] as int,
            )
            &&& references.top_left is None ==> smoothed[0] == (3 * top[0] + top[1] + 2) / 4
        },
        references.left matches Some(left) ==> {
            let smoothed = filtered.left->0;
            &&& forall|y: int|
                #![trigger smoothed[y]]
                1 <= y < 7 ==> smoothed[y] == smooth_3(
                    left[y - 1] as int,
                    left[y] as int,
                    left[y + 1] as int,
                )
            &&& smoothed[7] == (left[6] + 3 * left[7] + 2) / 4
            &&& references.top_left matches Some(corner) ==> smoothed[0] == smooth_3(
                corner as int,
                left[0] as int,
                left[1] as int,
            )
            &&& references.top_left is None ==> smoothed[0] == (3 * left[0] + left[1] + 2) / 4
        },
        references.top_left matches Some(corner) ==> filtered.top_left->0 == match (
            references.top,
            references.left,
        ) {
            (Some(top), Some(left)) => smooth_3(top[0] as int, corner as int, left[0] as int),
            (Some(top), None) => (3 * corner + top[0] + 2) / 4,
            (None, Some(left)) => (3 * corner + left[0] + 2) / 4,
            (None, None) => corner as int,
        },
{
    if let Some(top) = references.top {
        let smoothed = filtered.top->0;
        assert forall|x: int| 1 <= x < 15 implies #[trigger] smoothed[x] == smooth_3(
            top[x - 1] as int,
            top[x] as int,
            top[x + 1] as int,
        ) by {
            assert(smoothed@[x] == smoothed[x]);
        }
        assert(smoothed@[0] == smoothed[0] && smoothed@[15] == smoothed[15]);
    }
    if let Some(left) = references.left {
        let smoothed = filtered.left->0;
        assert forall|y: int| 1 <= y < 7 implies #[trigger] smoothed[y] == smooth_3(
            left[y - 1] as int,
            left[y] as int,
            left[y + 1] as int,
        ) by {
            assert(smoothed@[y] == smoothed[y]);
        }
        assert(smoothed@[0] == smoothed[0] && smoothed@[7] == smoothed[7]);
    }
}

/// An 8x8 block is predicted from its filtered border.
pub proof fn law_8x8_predicts_from_its_filtered_border(
    mode: u8,
    references: Intra8x8References,
    filtered: Intra8x8References,
    row: int,
    column: int,
)
    requires
        filters_to(references, filtered),
        mode <= 8,
        mode != 2,
        references.top is Some,
        references.left is Some,
        references.top_left is Some,
    ensures
        predicted_8x8(mode, references, row, column) == directional(
            mode,
            8,
            filtered.top->0@,
            filtered.top_left->0,
            filtered.left->0@,
            row,
            column,
        ),
{
}

/// The sum of four samples from one on.
pub open spec fn four(samples: Seq<u8>, from: int) -> int {
    samples[from] + samples[from + 1] + samples[from + 2] + samples[from + 3]
}

/// The sum of eight samples from one on.
pub open spec fn eight(samples: Seq<u8>, from: int) -> int {
    four(samples, from) + four(samples, from + 4)
}

/// The sum of sixteen samples.
pub open spec fn sixteen(samples: Seq<u8>) -> int {
    eight(samples, 0) + eight(samples, 8)
}

/// The last four samples of a sum.
proof fn lemma_last_four(samples: Seq<u8>)
    requires
        4 <= samples.len(),
    ensures
        total(samples) == total(samples.take(samples.len() - 4)) + four(
            samples,
            samples.len() - 4,
        ),
{
    reveal_with_fuel(total, 5);
    let n = samples.len() as int;
    assert(samples.drop_last().drop_last().drop_last().drop_last() =~= samples.take(n - 4));
}

/// A sum of 4, 8 or 16 samples takes each of them once.
proof fn lemma_totals(samples: Seq<u8>)
    ensures
        samples.len() == 4 ==> total(samples) == four(samples, 0),
        samples.len() == 8 ==> total(samples) == eight(samples, 0),
        samples.len() == 16 ==> total(samples) == sixteen(samples),
{
    assert(total(Seq::<u8>::empty()) == 0);
    if samples.len() == 4 {
        lemma_last_four(samples);
        assert(samples.take(0) =~= Seq::<u8>::empty());
    } else if samples.len() == 8 {
        lemma_last_four(samples);
        lemma_last_four(samples.take(4));
        assert(samples.take(4).take(0) =~= Seq::<u8>::empty());
    } else if samples.len() == 16 {
        lemma_last_four(samples);
        lemma_last_four(samples.take(12));
        lemma_last_four(samples.take(12).take(8));
        lemma_last_four(samples.take(12).take(8).take(4));
        assert(samples.take(12).take(8).take(4).take(0) =~= Seq::<u8>::empty());
    }
}

/// The flat prediction of a 4x4 block is the rounded mean of the four samples above
/// and the four on the left, of those that there are, or 128.
pub proof fn law_4x4_mean(references: Intra4x4References, row: int, column: int)
    ensures
        predicted_4x4(2, references, row, column) == match (references.top, references.left) {
            (Some(top), Some(left)) => (four(top@, 0) + four(left@, 0) + 4) / 8,
            (Some(top), None) => (four(top@, 0) + 2) / 4,
            (None, Some(left)) => (four(left@, 0) + 2) / 4,
            (None, None) => 128int,
        },
{
    if let Some(top) = references.top {
        lemma_totals(top@.take(4));
    }
    if let Some(left) = references.left {
        lemma_totals(left@);
    }
}

/// The flat prediction of an 8x8 block is the rounded mean of the filtered samples
/// above and on the left, of those that there are, or 128.
pub proof fn law_8x8_mean(
    references: Intra8x8References,
    filtered: Intra8x8References,
    row: int,
    column: int,
)
    requires
        filters_to(references, filtered),
    ensures
        predicted_8x8(2, references, row, column) == match (filtered.top, filtered.left) {
            (Some(top), Some(left)) => (eight(top@, 0) + eight(left@, 0) + 8) / 16,
            (Some(top), None) => (eight(top@, 0) + 4) / 8,
            (None, Some(left)) => (eight(left@, 0) + 4) / 8,
            (None, None) => 128int,
        },
{
    if let Some(top) = filtered.top {
        lemma_totals(top@.take(8));
    }
    if let Some(left) = filtered.left {
        lemma_totals(left@);
    }
}

/// A 16x16 block continues the samples above or on the left, or is their rounded mean.
pub proof fn law_16x16_sides_and_mean(references: Intra16x16References, row: int, column: int)
    requires
        0 <= row < 16,
        0 <= column < 16,
    ensures
        references.top matches Some(top) ==> predicted_16x16(0, references, row, column)
            == top[column],
        references.left matches Some(left) ==> predicted_16x16(1, references, row, column)
            == left[row],
        predicted_16x16(2, references, row, column) == match (references.top, references.left) {
            (Some(top), Some(left)) => (sixteen(top@) + sixteen(left@) + 16) / 32,
            (Some(top), None) => (sixteen(top@) + 8) / 16,
            (None, Some(left)) => (sixteen(left@) + 8) / 16,
            (None, None) => 128int,
        },
{
    if let Some(top) = references.top {
        lemma_totals(top@);
    }
    if let Some(left) = references.left {
        lemma_totals(left@);
    }
}

/// A chroma block continues the samples on the left or above. Its flat prediction
/// takes, for each 4x4 block, the mean of both sides on the diagonal, and elsewhere of
/// the side that the block touches, or of the other where that is missing.
pub proof fn law_chroma_sides_and_means(
    references: IntraChroma420References,
    row: int,
    column: int,
)
    requires
        0 <= row < 8,
        0 <= column < 8,
    ensures
        references.left matches Some(left) ==> predicted_chroma(1, references, row, column)
            == left[row],
        references.top matches Some(top) ==> predicted_chroma(2, references, row, column)
            == top[column],
        ({
            let above = match references.top {
                Some(top) => four(
                    top@,
                    if column < 4 {
                        0
                    } else {
                        4
                    },
                ),
                None => 0,
            };
            let beside = match references.left {
                Some(left) => four(
                    left@,
                    if row < 4 {
                        0
                    } else {
                        4
                    },
                ),
                None => 0,
            };
            let value = predicted_chroma(0, references, row, column);
            let prefers_top = row < 4 && column >= 4;
            let prefers_left = row >= 4 && column < 4;
            if references.top is None && references.left is None {
                value == 128
            } else if references.left is None || references.top is Some && prefers_top {
                value == (above + 2) / 4
            } else if references.top is None || prefers_left {
                value == (beside + 2) / 4
            } else {
                value == (above + beside + 4) / 8
            }
        }),
{
    let above = if column < 4 {
        0
    } else {
        4int
    };
    let beside = if row < 4 {
        0
    } else {
        4int
    };
    if let Some(top) = references.top {
        lemma_totals(top@.subrange(above, above + 4));
    }
    if let Some(left) = references.left {
        lemma_totals(left@.subrange(beside, beside + 4));
    }
}

/// The slope of a side of sixteen samples: each pair around the middle by its
/// distance, the farthest with the corner.
pub open spec fn slope_of_sixteen(samples: Seq<u8>, corner: u8) -> int {
    (samples[8] - samples[6]) + 2 * (samples[9] - samples[5]) + 3 * (samples[10] - samples[4]) + 4
        * (samples[11] - samples[3]) + 5 * (samples[12] - samples[2]) + 6 * (samples[13]
        - samples[1]) + 7 * (samples[14] - samples[0]) + 8 * (samples[15] - corner)
}

/// The slope of a side of eight samples.
pub open spec fn slope_of_eight(samples: Seq<u8>, corner: u8) -> int {
    (samples[4] - samples[2]) + 2 * (samples[5] - samples[1]) + 3 * (samples[6] - samples[0]) + 4
        * (samples[7] - corner)
}

/// The sums of weighted differences.
proof fn lemma_slopes(samples: Seq<u8>, corner: u8)
    ensures
        samples.len() == 16 ==> gradient(samples, corner, 8) == slope_of_sixteen(samples, corner),
        samples.len() == 8 ==> gradient(samples, corner, 4) == slope_of_eight(samples, corner),
{
    reveal_with_fuel(gradient, 9);
}

/// The plane of a 16x16 block goes through the far ends of its sides, with the slopes
/// of the two sides.
pub proof fn law_16x16_plane(references: Intra16x16References, row: int, column: int)
    requires
        references.top is Some,
        references.left is Some,
        references.top_left is Some,
    ensures
        ({
            let top = references.top->0@;
            let left = references.left->0@;
            let corner = references.top_left->0;
            let across = (5 * slope_of_sixteen(top, corner) + 32) / 64;
            let down = (5 * slope_of_sixteen(left, corner) + 32) / 64;
            predicted_16x16(3, references, row, column) == clipped(
                (16 * (top[15] + left[15]) + across * (column - 7) + down * (row - 7) + 16) / 32,
            )
        }),
{
    lemma_slopes(references.top->0@, references.top_left->0);
    lemma_slopes(references.left->0@, references.top_left->0);
}

/// The plane of a chroma block goes through the far ends of its sides, with the slopes
/// of the two sides.
pub proof fn law_chroma_plane(references: IntraChroma420References, row: int, column: int)
    requires
        references.top is Some,
        references.left is Some,
        references.top_left is Some,
    ensures
        ({
            let top = references.top->0@;
            let left = references.left->0@;
            let corner = references.top_left->0;
            let across = (34 * slope_of_eight(top, corner) + 32) / 64;
            let down = (34 * slope_of_eight(left, corner) + 32) / 64;
            predicted_chroma(3, references, row, column) == clipped(
                (16 * (top[7] + left[7]) + across * (column - 3) + down * (row - 3) + 16) / 32,
            )
        }),
{
    lemma_slopes(references.top->0@, references.top_left->0);
    lemma_slopes(references.left->0@, references.top_left->0);
}

/// A number is within one of another, both held to the range of a sample.
pub open spec fn within_one(sample: u8, number: int) -> bool {
    let held = if number < 0 {
        0
    } else if number > 255 {
        255
    } else {
        number
    };
    held - 1 <= sample <= held + 1
}

/// A side that rises or falls by the same step from the corner on.
pub open spec fn linear(samples: Seq<u8>, corner: u8, step: int) -> bool {
    forall|i: int| 0 <= i < samples.len() ==> #[trigger] samples[i] == corner + step * (i + 1)
}

/// The values of a linear side of sixteen samples.
proof fn lemma_linear(samples: Seq<u8>, corner: u8, step: int, i: int)
    requires
        linear(samples, corner, step),
        0 <= i < samples.len(),
    ensures
        samples[i] == corner + step * (i + 1),
{
}

/// The slope of a linear side of sixteen samples is 408 steps.
proof fn lemma_linear_sixteen(samples: Seq<u8>, corner: u8, step: int)
    requires
        samples.len() == 16,
        linear(samples, corner, step),
    ensures
        slope_of_sixteen(samples, corner) == 408 * step,
        samples[15] == corner + 16 * step,
        -16 < step < 16,
{
    assert(samples[0] == corner + step * 1 && samples[1] == corner + step * 2);
    assert(samples[2] == corner + step * 3 && samples[3] == corner + step * 4);
    assert(samples[4] == corner + step * 5 && samples[5] == corner + step * 6);
    assert(samples[6] == corner + step * 7 && samples[8] == corner + step * 9);
    assert(samples[9] == corner + step * 10 && samples[10] == corner + step * 11);
    assert(samples[11] == corner + step * 12 && samples[12] == corner + step * 13);
    assert(samples[13] == corner + step * 14 && samples[14] == corner + step * 15);
    assert(samples[15] == corner + step * 16);
}

/// The slope of a linear side of eight samples is 60 steps.
proof fn lemma_linear_eight(samples: Seq<u8>, corner: u8, step: int)
    requires
        samples.len() == 8,
        linear(samples, corner, step),
    ensures
        slope_of_eight(samples, corner) == 60 * step,
        samples[7] == corner + 8 * step,
        -32 < step < 32,
{
    assert(samples[0] == corner + step * 1 && samples[1] == corner + step * 2);
    assert(samples[2] == corner + step * 3 && samples[4] == corner + step * 5);
    assert(samples[5] == corner + step * 6 && samples[6] == corner + step * 7);
    assert(samples[7] == corner + step * 8);
}

/// A plane with nearly the slopes of its sides is within one of them.
proof fn lemma_near_plane(
    corner: int,
    s: int,
    t: int,
    across: int,
    down: int,
    x: int,
    y: int,
    reach: int,
    size: int,
)
    requires
        reach == 8 && size == 16 && -16 < s < 16 && -16 < t < 16 && -8 < x <= 8 && -8 < y <= 8
            || reach == 4 && size == 8 && -32 < s < 32 && -32 < t < 32 && -4 < x <= 4 && -4 < y
            <= 4,
        across == (2040 * s + 32) / 64,
        down == (2040 * t + 32) / 64,
    ensures
        ({
            let exact = corner + s * (x + reach) + t * (y + reach);
            let plane = (16 * (2 * corner + size * s + size * t) + across * x + down * y + 16) / 32;
            exact - 1 <= plane <= exact + 1
        }),
        -4 < s <= 4 && -4 < t <= 4 ==> (16 * (2 * corner + size * s + size * t) + across * x + down
            * y + 16) / 32 == corner + s * (x + reach) + t * (y + reach),
{
    let short = across - 32 * s;
    let low = down - 32 * t;
    assert(reach == 8 ==> -2 <= short <= 2 && -2 <= low <= 2);
    assert(reach == 4 ==> -4 <= short <= 4 && -4 <= low <= 4);
    assert(-4 < s <= 4 ==> short == 0);
    assert(-4 < t <= 4 ==> low == 0);
    assert(-16 <= short * x <= 16) by (nonlinear_arith)
        requires
            -2 <= short <= 2 && -8 < x <= 8 || -4 <= short <= 4 && -4 < x <= 4,
    ;
    assert(-16 <= low * y <= 16) by (nonlinear_arith)
        requires
            -2 <= low <= 2 && -8 < y <= 8 || -4 <= low <= 4 && -4 < y <= 4,
    ;
    assert(across * x == 32 * (s * x) + short * x) by (nonlinear_arith)
        requires
            across == 32 * s + short,
    ;
    assert(down * y == 32 * (t * y) + low * y) by (nonlinear_arith)
        requires
            down == 32 * t + low,
    ;
    assert(s * (x + reach) == s * x + s * reach) by (nonlinear_arith);
    assert(t * (y + reach) == t * y + t * reach) by (nonlinear_arith);
    if reach == 8 {
        assert(s * reach == 8 * s && t * reach == 8 * t && size * s == 16 * s && size * t == 16 * t)
            by (nonlinear_arith)
            requires
                reach == 8,
                size == 16,
        ;
    } else {
        assert(s * reach == 4 * s && t * reach == 4 * t && size * s == 8 * s && size * t == 8 * t)
            by (nonlinear_arith)
            requires
                reach == 4,
                size == 8,
        ;
    }
    assert(short == 0 ==> short * x == 0) by (nonlinear_arith);
    assert(low == 0 ==> low * y == 0) by (nonlinear_arith);
}

/// The plane of a 16x16 block with linear sides continues them: across by the step of
/// the top and down by that of the left, to within a rounding unit, and exactly where
/// the steps are small.
pub proof fn law_16x16_plane_continues_linear_sides(
    references: Intra16x16References,
    s: int,
    t: int,
    row: int,
    column: int,
)
    requires
        references.top is Some,
        references.left is Some,
        references.top_left is Some,
        linear(references.top->0@, references.top_left->0, s),
        linear(references.left->0@, references.top_left->0, t),
        0 <= row < 16,
        0 <= column < 16,
    ensures
        ({
            let exact = references.top_left->0 + s * (column + 1) + t * (row + 1);
            let sample = predicted_16x16(3, references, row, column);
            &&& within_one(sample, exact)
            &&& -4 < s <= 4 && -4 < t <= 4 ==> sample == clipped(exact)
        }),
{
    let corner = references.top_left->0;
    law_16x16_plane(references, row, column);
    lemma_linear_sixteen(references.top->0@, corner, s);
    lemma_linear_sixteen(references.left->0@, corner, t);
    let across = (5 * (408 * s) + 32) / 64;
    let down = (5 * (408 * t) + 32) / 64;
    lemma_near_plane(corner as int, s, t, across, down, column - 7, row - 7, 8, 16);
}

/// The plane of a chroma block with linear sides continues them, to within a rounding
/// unit, and exactly where the steps are small.
pub proof fn law_chroma_plane_continues_linear_sides(
    references: IntraChroma420References,
    s: int,
    t: int,
    row: int,
    column: int,
)
    requires
        references.top is Some,
        references.left is Some,
        references.top_left is Some,
        linear(references.top->0@, references.top_left->0, s),
        linear(references.left->0@, references.top_left->0, t),
        0 <= row < 8,
        0 <= column < 8,
    ensures
        ({
            let exact = references.top_left->0 + s * (column + 1) + t * (row + 1);
            let sample = predicted_chroma(3, references, row, column);
            &&& within_one(sample, exact)
            &&& -4 < s <= 4 && -4 < t <= 4 ==> sample == clipped(exact)
        }),
{
    let corner = references.top_left->0;
    law_chroma_plane(references, row, column);
    lemma_linear_eight(references.top->0@, corner, s);
    lemma_linear_eight(references.left->0@, corner, t);
    let across = (34 * (60 * s) + 32) / 64;
    let down = (34 * (60 * t) + 32) / 64;
    lemma_near_plane(corner as int, s, t, across, down, column - 3, row - 3, 4, 8);
}

/// The samples of a plane do not fall from left to right where the top rises, nor
/// from top to bottom where the left does.
pub proof fn law_16x16_plane_follows_its_slopes(
    references: Intra16x16References,
    row: int,
    column: int,
)
    requires
        references.top is Some,
        references.left is Some,
        references.top_left is Some,
    ensures
        ({
            let across = slope_of_sixteen(references.top->0@, references.top_left->0);
            let down = slope_of_sixteen(references.left->0@, references.top_left->0);
            let sample = predicted_16x16(3, references, row, column);
            let right = predicted_16x16(3, references, row, column + 1);
            let below = predicted_16x16(3, references, row + 1, column);
            &&& across >= 0 ==> sample <= right
            &&& across <= 0 ==> right <= sample
            &&& down >= 0 ==> sample <= below
            &&& down <= 0 ==> below <= sample
        }),
{
    law_16x16_plane(references, row, column);
    law_16x16_plane(references, row, column + 1);
    law_16x16_plane(references, row + 1, column);
    let across = (5 * slope_of_sixteen(references.top->0@, references.top_left->0) + 32) / 64;
    let down = (5 * slope_of_sixteen(references.left->0@, references.top_left->0) + 32) / 64;
    assert(across * (column + 1 - 7) == across * (column - 7) + across) by (nonlinear_arith);
    assert(down * (row + 1 - 7) == down * (row - 7) + down) by (nonlinear_arith);
}

/// Which modes of small blocks need which samples around them: those that look up need
/// the top, those that look left the left side, and those that look between both also
/// the corner. The mean needs none, and there are nine modes.
pub open spec fn suffices(mode: u8, top: bool, left: bool, corner: bool) -> bool {
    ||| mode == 0 && top
    ||| mode == 1 && left
    ||| mode == 2
    ||| mode == 3 && top
    ||| mode == 4 && top && left && corner
    ||| mode == 5 && top && left && corner
    ||| mode == 6 && top && left && corner
    ||| mode == 7 && top
    ||| mode == 8 && left
}

/// A prediction is refused where the samples that its mode needs are missing, and
/// nowhere else.
pub proof fn law_predictions_need_the_samples_of_their_mode(
    mode: u8,
    four: Intra4x4References,
    eight: Intra8x8References,
    sixteen: Intra16x16References,
    chroma: IntraChroma420References,
)
    ensures
        intra_4x4_error(mode, four) is None <==> suffices(
            mode,
            four.top is Some,
            four.left is Some,
            four.top_left is Some,
        ),
        intra_8x8_error(mode, eight) is None <==> suffices(
            mode,
            eight.top is Some,
            eight.left is Some,
            eight.top_left is Some,
        ),
        intra_16x16_error(mode, sixteen) is None <==> {
            ||| mode == 0 && sixteen.top is Some
            ||| mode == 1 && sixteen.left is Some
            ||| mode == 2
            ||| mode == 3 && sixteen.top is Some && sixteen.left is Some && sixteen.top_left is Some
        },
        intra_chroma_error(mode, chroma) is None <==> {
            ||| mode == 0
            ||| mode == 1 && chroma.left is Some
            ||| mode == 2 && chroma.top is Some
            ||| mode == 3 && chroma.top is Some && chroma.left is Some && chroma.top_left is Some
        },
{
}

/// What a mode does not look at does not matter.
pub proof fn law_predictions_depend_on_the_samples_of_their_mode(
    mode: u8,
    first: Intra4x4References,
    second: Intra4x4References,
    row: int,
    column: int,
)
    requires
        0 <= row < 4,
        0 <= column < 4,
        mode == 0 || mode == 3 || mode == 7 ==> first.top is Some && first.top == second.top,
        mode == 1 || mode == 8 ==> first.left is Some && first.left == second.left,
        mode == 0 || mode == 1 || mode == 3 || mode == 7 || mode == 8,
    ensures
        predicted_4x4(mode, first, row, column) == predicted_4x4(mode, second, row, column),
{
}

} // verus!
