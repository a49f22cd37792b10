//! Intra prediction from the samples around a block.

use vstd::arithmetic::power2::lemma2_to64;
use vstd::prelude::*;

use super::arithmetic::shift_right;
use super::error::{H264Error, Result};

verus! {

pub type Prediction16x16 = [[u8; 16]; 16];

pub type Prediction8x8 = [[u8; 8]; 8];

pub type Prediction4x4 = [[u8; 4]; 4];

#[derive(Debug, Clone, Copy, PartialEq, Eq)]
pub struct Intra4x4References {
    /// The eight samples above the block. The caller substitutes `top[3]` for
    /// unavailable top-right samples.
    pub top: Option<[u8; 8]>,
    pub left: Option<[u8; 4]>,
    pub top_left: Option<u8>,
}

#[derive(Debug, Clone, Copy, PartialEq, Eq)]
pub struct Intra8x8References {
    /// The sixteen samples above the block. The caller substitutes `top[7]`
    /// for unavailable top-right samples.
    pub top: Option<[u8; 16]>,
    pub left: Option<[u8; 8]>,
    pub top_left: Option<u8>,
}

#[derive(Debug, Clone, Copy, PartialEq, Eq)]
pub struct Intra16x16References {
    pub top: Option<[u8; 16]>,
    pub left: Option<[u8; 16]>,
    pub top_left: Option<u8>,
}

#[derive(Debug, Clone, Copy, PartialEq, Eq)]
pub struct IntraChroma420References {
    pub top: Option<[u8; 8]>,
    pub left: Option<[u8; 8]>,
    pub top_left: Option<u8>,
}

/// The samples of one side of a block, where they are available.
pub open spec fn side<const LENGTH: usize>(samples: Option<[u8; LENGTH]>) -> Option<Seq<u8>> {
    match samples {
        Some(samples) => Some(samples@),
        None => None,
    }
}

/// The samples of a side, or none.
pub open spec fn or_none(samples: Option<Seq<u8>>) -> Seq<u8> {
    match samples {
        Some(samples) => samples,
        None => Seq::empty(),
    }
}

/// A sample, or zero.
pub open spec fn or_zero(sample: Option<u8>) -> u8 {
    match sample {
        Some(sample) => sample,
        None => 0,
    }
}

/// The rounded mean of two samples.
pub open spec fn mean_2(first: u8, second: u8) -> u8 {
    ((first + second + 1) / 2) as u8
}

/// The rounded mean of three samples, the middle one counted twice.
pub open spec fn mean_3(first: u8, middle: u8, last: u8) -> u8 {
    ((first + 2 * middle + last + 2) / 4) as u8
}

/// The sum of samples.
pub open spec fn total(samples: Seq<u8>) -> int
    decreases samples.len(),
{
    if samples.len() == 0 {
        0
    } else {
        total(samples.drop_last()) + samples.last()
    }
}

/// The border of a block as one line of samples: those on the left from the
/// bottom up at negative places, the corner at zero, and those above after it.
pub open spec fn border(top: Seq<u8>, corner: u8, left: Seq<u8>, place: int) -> u8 {
    if place < 0 {
        left[-place - 1]
    } else if place == 0 {
        corner
    } else {
        top[place - 1]
    }
}

/// Three neighbouring samples of the border, filtered.
pub open spec fn border_mean_3(top: Seq<u8>, corner: u8, left: Seq<u8>, place: int) -> u8 {
    mean_3(
        border(top, corner, left, place - 1),
        border(top, corner, left, place),
        border(top, corner, left, place + 1),
    )
}

/// A sample of a directional prediction of a block with sides of `size`. The
/// modes are vertical (0), horizontal (1), diagonal down left (3), diagonal
/// down right (4), vertical right (5), horizontal down (6), vertical left (7)
/// and horizontal up (8).
pub open spec fn directional(
    mode: u8,
    size: int,
    top: Seq<u8>,
    corner: u8,
    left: Seq<u8>,
    row: int,
    column: int,
) -> u8 {
    if mode == 0 {
        top[column]
    } else if mode == 1 {
        left[row]
    } else if mode == 3 {
        if row == size - 1 && column == size - 1 {
            mean_3(top[2 * size - 2], top[2 * size - 1], top[2 * size - 1])
        } else {
            mean_3(top[row + column], top[row + column + 1], top[row + column + 2])
        }
    } else if mode == 4 {
        border_mean_3(top, corner, left, column - row)
    } else if mode == 5 {
        let z = 2 * column - row;
        let place = column - row / 2;
        if z < 0 {
            border_mean_3(top, corner, left, z + 1)
        } else if z % 2 == 0 {
            mean_2(border(top, corner, left, place), border(top, corner, left, place + 1))
        } else {
            border_mean_3(top, corner, left, place)
        }
    } else if mode == 6 {
        let z = 2 * row - column;
        let place = row - column / 2;
        if z < 0 {
            border_mean_3(top, corner, left, -z - 1)
        } else if z % 2 == 0 {
            mean_2(border(top, corner, left, -place), border(top, corner, left, -place - 1))
        } else {
            border_mean_3(top, corner, left, -place)
        }
    } else if mode == 7 {
        let index = column + row / 2;
        if row % 2 == 0 {
            mean_2(top[index], top[index + 1])
        } else {
            mean_3(top[index], top[index + 1], top[index + 2])
        }
    } else {
        let z = column + 2 * row;
        let index = row + column / 2;
        if z > 2 * size - 3 {
            left[size - 1]
        } else if z == 2 * size - 3 {
            mean_3(left[size - 2], left[size - 1], left[size - 1])
        } else if z % 2 == 0 {
            mean_2(left[index], left[index + 1])
        } else {
            mean_3(left[index], left[index + 1], left[index + 2])
        }
    }
}

/// The mean of the available sides, of `size` samples each, rounded; 128 where
/// there is none.
pub open spec fn dc(top: Option<Seq<u8>>, left: Option<Seq<u8>>, size: int) -> u8 {
    match (top, left) {
        (Some(top), Some(left)) => ((total(top) + total(left) + size) / (2 * size)) as u8,
        (Some(samples), None) => ((total(samples) + size / 2) / size) as u8,
        (None, Some(samples)) => ((total(samples) + size / 2) / size) as u8,
        (None, None) => 128,
    }
}

/// Why the samples around a block do not do for a directional mode.
pub open spec fn missing_border(
    mode: u8,
    top: Option<Seq<u8>>,
    left: Option<Seq<u8>>,
    corner: Option<u8>,
    vertical_needs_top: &'static str,
    diagonal_needs_top: &'static str,
    corner_needs_top: &'static str,
    needs_left: &'static str,
    needs_corner: &'static str,
    unknown_mode: &'static str,
) -> Option<H264Error> {
    if mode > 8 {
        Some(H264Error::InvalidSyntax(unknown_mode))
    } else if mode == 0 && top is None {
        Some(H264Error::InvalidSyntax(vertical_needs_top))
    } else if (mode == 3 || mode == 7) && top is None {
        Some(H264Error::InvalidSyntax(diagonal_needs_top))
    } else if 4 <= mode <= 6 && top is None {
        Some(H264Error::InvalidSyntax(corner_needs_top))
    } else if (mode == 1 || 4 <= mode <= 6 || mode == 8) && left is None {
        Some(H264Error::InvalidSyntax(needs_left))
    } else if 4 <= mode <= 6 && corner is None {
        Some(H264Error::InvalidSyntax(needs_corner))
    } else {
        None
    }
}

fn find_missing_border(
    mode: u8,
    has_top: bool,
    has_left: bool,
    has_corner: bool,
    vertical_needs_top: &'static str,
    diagonal_needs_top: &'static str,
    corner_needs_top: &'static str,
    needs_left: &'static str,
    needs_corner: &'static str,
    unknown_mode: &'static str,
) -> (error: Option<H264Error>)
    ensures
        forall|top: Option<Seq<u8>>, left: Option<Seq<u8>>, corner: Option<u8>|
            has_top == top is Some && has_left == left is Some && has_corner == corner is Some
                ==> error == #[trigger] missing_border(
                mode,
                top,
                left,
                corner,
                vertical_needs_top,
                diagonal_needs_top,
                corner_needs_top,
                needs_left,
                needs_corner,
                unknown_mode,
            ),
{
    let cornered: bool = 4 <= mode && mode <= 6;
    if mode > 8 {
        Some(H264Error::InvalidSyntax(unknown_mode))
    } else if mode == 0 && !has_top {
        Some(H264Error::InvalidSyntax(vertical_needs_top))
    } else if (mode == 3 || mode == 7) && !has_top {
        Some(H264Error::InvalidSyntax(diagonal_needs_top))
    } else if cornered && !has_top {
        Some(H264Error::InvalidSyntax(corner_needs_top))
    } else if (mode == 1 || cornered || mode == 8) && !has_left {
        Some(H264Error::InvalidSyntax(needs_left))
    } else if cornered && !has_corner {
        Some(H264Error::InvalidSyntax(needs_corner))
    } else {
        None
    }
}

fn average2(first: u8, second: u8) -> (mean: u8)
    ensures
        mean == mean_2(first, second),
{
    ((first as u16 + second as u16 + 1) / 2) as u8
}

fn weighted3(first: u8, middle: u8, last: u8) -> (mean: u8)
    ensures
        mean == mean_3(first, middle, last),
{
    ((first as u16 + 2 * middle as u16 + last as u16 + 2) / 4) as u8
}

fn border_sample(top: &[u8], corner: u8, left: &[u8], place: i32) -> (sample: u8)
    requires
        -left@.len() <= place <= top@.len(),
        -100 <= place,
    ensures
        sample == border(top@, corner, left@, place as int),
{
    if place < 0 {
        left[(-place - 1) as usize]
    } else if place == 0 {
        corner
    } else {
        top[(place - 1) as usize]
    }
}

fn border_weighted3(top: &[u8], corner: u8, left: &[u8], place: i32) -> (sample: u8)
    requires
        -left@.len() < place < top@.len(),
        -100 < place < 100,
    ensures
        sample == border_mean_3(top@, corner, left@, place as int),
{
    weighted3(
        border_sample(top, corner, left, place - 1),
        border_sample(top, corner, left, place),
        border_sample(top, corner, left, place + 1),
    )
}

/// The samples that a directional mode reads are there.
spec fn border_suffices(mode: u8, size: int, top: Seq<u8>, left: Seq<u8>) -> bool {
    &&& mode <= 8
    &&& mode == 0 || 3 <= mode <= 7 ==> top.len() == 2 * size
    &&& mode == 1 || 4 <= mode <= 6 || mode == 8 ==> left.len() == size
}

fn corner_sample(
    mode: u8,
    size: usize,
    top: &[u8],
    corner: u8,
    left: &[u8],
    row: usize,
    column: usize,
) -> (sample: u8)
    requires
        size == 4 || size == 8,
        row < size,
        column < size,
        top@.len() == 2 * size,
        left@.len() == size,
        4 <= mode <= 6,
    ensures
        sample == directional(
            mode,
            size as int,
            top@,
            corner,
            left@,
            row as int,
            column as int,
        ),
{
    let x: i32 = column as i32;
    let y: i32 = row as i32;
    if mode == 4 {
        border_weighted3(top, corner, left, x - y)
    } else if mode == 5 {
        let z: i32 = 2 * x - y;
        let place: i32 = x - y / 2;
        if z < 0 {
            border_weighted3(top, corner, left, z + 1)
        } else if z % 2 == 0 {
            average2(
                border_sample(top, corner, left, place),
                border_sample(top, corner, left, place + 1),
            )
        } else {
            border_weighted3(top, corner, left, place)
        }
    } else {
        let z: i32 = 2 * y - x;
        let place: i32 = y - x / 2;
        if z < 0 {
            border_weighted3(top, corner, left, -z - 1)
        } else if z % 2 == 0 {
            average2(
                border_sample(top, corner, left, -place),
                border_sample(top, corner, left, -place - 1),
            )
        } else {
            border_weighted3(top, corner, left, -place)
        }
    }
}

fn directional_sample(
    mode: u8,
    size: usize,
    top: &[u8],
    corner: u8,
    left: &[u8],
    row: usize,
    column: usize,
) -> (sample: u8)
    requires
        size == 4 || size == 8,
        row < size,
        column < size,
        border_suffices(mode, size as int, top@, left@),
        mode != 2,
    ensures
        sample == directional(
            mode,
            size as int,
            top@,
            corner,
            left@,
            row as int,
            column as int,
        ),
{
    if mode == 0 {
        top[column]
    } else if mode == 1 {
        left[row]
    } else if mode == 3 {
        if row == size - 1 && column == size - 1 {
            weighted3(top[2 * size - 2], top[2 * size - 1], top[2 * size - 1])
        } else {
            let index: usize = row + column;
            weighted3(top[index], top[index + 1], top[index + 2])
        }
    } else if mode <= 6 {
        corner_sample(mode, size, top, corner, left, row, column)
    } else if mode == 7 {
        let index: usize = column + row / 2;
        if row % 2 == 0 {
            average2(top[index], top[index + 1])
        } else {
            weighted3(top[index], top[index + 1], top[index + 2])
        }
    } else {
        let z: usize = column + 2 * row;
        let index: usize = row + column / 2;
        if z > 2 * size - 3 {
            left[size - 1]
        } else if z == 2 * size - 3 {
            weighted3(left[size - 2], left[size - 1], left[size - 1])
        } else if z % 2 == 0 {
            average2(left[index], left[index + 1])
        } else {
            weighted3(left[index], left[index + 1], left[index + 2])
        }
    }
}

/// A sum of samples is at most 255 for each of them.
proof fn lemma_total_bound(samples: Seq<u8>)
    ensures
        0 <= total(samples) <= 255 * samples.len(),
    decreases samples.len(),
{
    if samples.len() > 0 {
        lemma_total_bound(samples.drop_last());
    }
}

fn sum_slice(samples: &[u8]) -> (sum: u32)
    requires
        samples@.len() <= 16,
    ensures
        sum == total(samples@),
        sum <= 255 * samples@.len(),
{
    let mut sum: u32 = 0;
    let mut index: usize = 0;
    while index < samples.len()
        invariant
            index <= samples@.len() <= 16,
            sum == total(samples@.take(index as int)),
            sum <= 255 * index,
        decreases samples@.len() - index,
    {
        assert(samples@.take(index + 1).drop_last() =~= samples@.take(index as int));
        sum = sum + samples[index] as u32;
        index = index + 1;
    }
    assert(samples@.take(index as int) =~= samples@);
    sum
}

/// The views of optional slices.
spec fn optional_slice(samples: Option<&[u8]>) -> Option<Seq<u8>> {
    match samples {
        Some(samples) => Some(samples@),
        None => None,
    }
}

/// The rounded mean of `count` samples with the given sum.
fn rounded_mean(sum: u32, count: u32) -> (mean: u8)
    requires
        count == 4 || count == 8 || count == 16 || count == 32,
        sum <= 255 * count,
    ensures
        mean == ((sum + count / 2) / count as int) as u8,
{
    let mean: u32 = (sum + count / 2) / count;
    assert(mean <= 255) by (nonlinear_arith)
        requires
            sum <= 255 * count,
            0 < count,
            mean == (sum + count / 2) / count as int,
    ;
    mean as u8
}

fn dc_prediction(top: Option<&[u8]>, left: Option<&[u8]>, size: u32) -> (value: u8)
    requires
        size == 4 || size == 8 || size == 16,
        top matches Some(samples) ==> samples@.len() == size,
        left matches Some(samples) ==> samples@.len() == size,
    ensures
        value == dc(optional_slice(top), optional_slice(left), size as int),
{
    match (top, left) {
        (Some(top), Some(left)) => rounded_mean(sum_slice(top) + sum_slice(left), 2 * size),
        (Some(samples), None) => rounded_mean(sum_slice(samples), size),
        (None, Some(samples)) => rounded_mean(sum_slice(samples), size),
        (None, None) => 128,
    }
}

/// A sample of an Intra4x4 prediction.
pub open spec fn predicted_4x4(
    mode: u8,
    references: Intra4x4References,
    row: int,
    column: int,
) -> u8 {
    let top = side(references.top);
    let left = side(references.left);
    if mode == 2 {
        dc(
            match top {
                Some(top) => Some(top.take(4)),
                None => None,
            },
            left,
            4,
        )
    } else {
        directional(
            mode,
            4,
            or_none(top),
            or_zero(references.top_left),
            or_none(left),
            row,
            column,
        )
    }
}

/// Why an Intra4x4 prediction is refused.
pub open spec fn intra_4x4_error(mode: u8, references: Intra4x4References) -> Option<H264Error> {
    missing_border(
        mode,
        side(references.top),
        side(references.left),
        references.top_left,
        "Intra4x4 vertical prediction requires top samples",
        "Intra4x4 prediction requires all eight top samples",
        "Intra4x4 prediction requires all eight top samples",
        "Intra4x4 prediction requires left samples",
        "Intra4x4 prediction requires the top-left sample",
        "Intra4x4PredMode exceeds 8",
    )
}

fn side_slice<const LENGTH: usize>(samples: &Option<[u8; LENGTH]>) -> (slice: &[u8])
    ensures
        slice@ == or_none(side(*samples)),
{
    match samples {
        Some(samples) => samples.as_slice(),
        None => {
            let none: &[u8] = &[];
            assert(none@ =~= Seq::<u8>::empty());
            none
        },
    }
}

/// Generates one 8-bit Intra4x4 luma prediction (modes 0 through 8).
pub fn predict_intra_4x4(mode: u8, references: &Intra4x4References) -> (result: Result<
    Prediction4x4,
>)
    ensures
        match intra_4x4_error(mode, *references) {
            Some(error) => result == Err::<Prediction4x4, H264Error>(error),
            None => result matches Ok(prediction) && forall|row: int, column: int|
                #![trigger prediction[row][column]]
                0 <= row < 4 && 0 <= column < 4 ==> prediction[row][column] == predicted_4x4(
                    mode,
                    *references,
                    row,
                    column,
                ),
        },
{
    let missing = find_missing_border(
        mode,
        references.top.is_some(),
        references.left.is_some(),
        references.top_left.is_some(),
        "Intra4x4 vertical prediction requires top samples",
        "Intra4x4 prediction requires all eight top samples",
        "Intra4x4 prediction requires all eight top samples",
        "Intra4x4 prediction requires left samples",
        "Intra4x4 prediction requires the top-left sample",
        "Intra4x4PredMode exceeds 8",
    );
    assert(missing == intra_4x4_error(mode, *references));
    if let Some(error) = missing {
        return Err(error);
    }
    let top = side_slice(&references.top);
    let left = side_slice(&references.left);
    let corner: u8 = match references.top_left {
        Some(sample) => sample,
        None => 0,
    };
    let mut prediction: Prediction4x4 = [[0u8; 4]; 4];
    if mode == 2 {
        let first_top: Option<&[u8]> = match &references.top {
            Some(samples) => Some(vstd::slice::slice_subrange(samples.as_slice(), 0, 4)),
            None => None,
        };
        let whole_left: Option<&[u8]> = match &references.left {
            Some(samples) => Some(samples.as_slice()),
            None => None,
        };
        let value: u8 = dc_prediction(first_top, whole_left, 4);
        proof {
            if let Some(samples) = references.top {
                assert(samples@.take(4) =~= samples@.subrange(0, 4));
            }
        }
        return Ok([[value; 4]; 4]);
    }
    let mut row: usize = 0;
    while row < 4
        invariant
            row <= 4,
            mode != 2,
            border_suffices(mode, 4, top@, left@),
            forall|r: int, c: int|
                #![trigger prediction[r][c]]
                0 <= r < row && 0 <= c < 4 ==> prediction[r][c] == directional(
                    mode,
                    4,
                    top@,
                    corner,
                    left@,
                    r,
                    c,
                ),
        decreases 4 - row,
    {
        let mut column: usize = 0;
        while column < 4
            invariant
                row < 4,
                column <= 4,
                mode != 2,
                border_suffices(mode, 4, top@, left@),
                forall|r: int, c: int|
                    #![trigger prediction[r][c]]
                    0 <= r < row && 0 <= c < 4 || r == row && 0 <= c < column ==> prediction[r][c]
                        == directional(mode, 4, top@, corner, left@, r, c),
            decreases 4 - column,
        {
            prediction[row][column] = directional_sample(mode, 4, top, corner, left, row, column);
            column = column + 1;
        }
        row = row + 1;
    }
    Ok(prediction)
}

/// A side of an 8x8 block after the reference filter: each sample is smoothed
/// with its neighbours, the first with the corner where that is available.
pub open spec fn filtered_side(samples: Seq<u8>, corner: Option<u8>) -> Seq<u8> {
    Seq::new(
        samples.len(),
        |index: int|
            mean_3(
                if index > 0 {
                    samples[index - 1]
                } else {
                    match corner {
                        Some(corner) => corner,
                        None => samples[0],
                    }
                },
                samples[index],
                if index + 1 < samples.len() {
                    samples[index + 1]
                } else {
                    samples[index]
                },
            ),
    )
}

/// The corner of an 8x8 block after the reference filter.
pub open spec fn filtered_corner(
    corner: u8,
    top: Option<Seq<u8>>,
    left: Option<Seq<u8>>,
) -> u8 {
    match (top, left) {
        (Some(top), Some(left)) => mean_3(top[0], corner, left[0]),
        (Some(top), None) => mean_3(corner, corner, top[0]),
        (None, Some(left)) => mean_3(corner, corner, left[0]),
        (None, None) => corner,
    }
}

/// `filtered` is `references` after the reference filter.
pub open spec fn filters_to(references: Intra8x8References, filtered: Intra8x8References) -> bool {
    &&& side(filtered.top) == match side(references.top) {
        Some(samples) => Some(filtered_side(samples, references.top_left)),
        None => None,
    }
    &&& side(filtered.left) == match side(references.left) {
        Some(samples) => Some(filtered_side(samples, references.top_left)),
        None => None,
    }
    &&& filtered.top_left == match references.top_left {
        Some(corner) => Some(
            filtered_corner(corner, side(references.top), side(references.left)),
        ),
        None => None,
    }
}

fn filter_side<const LENGTH: usize>(samples: &[u8; LENGTH], corner: Option<u8>) -> (filtered: [u8;
    LENGTH])
    requires
        2 <= LENGTH,
    ensures
        filtered@ == filtered_side(samples@, corner),
{
    let mut filtered = [0u8; LENGTH];
    let mut index: usize = 0;
    while index < LENGTH
        invariant
            index <= LENGTH,
            2 <= LENGTH,
            forall|i: int| 0 <= i < index ==> filtered[i] == filtered_side(samples@, corner)[i],
        decreases LENGTH - index,
    {
        let before: u8 = if index > 0 {
            samples[index - 1]
        } else {
            match corner {
                Some(corner) => corner,
                None => samples[0],
            }
        };
        let after: u8 = if index + 1 < LENGTH {
            samples[index + 1]
        } else {
            samples[index]
        };
        filtered[index] = weighted3(before, samples[index], after);
        index = index + 1;
    }
    assert(filtered@ =~= filtered_side(samples@, corner));
    filtered
}

/// Filters the 25 possible Intra8x8 reference samples.
pub fn filter_intra_8x8_references(references: &Intra8x8References) -> (filtered:
    Intra8x8References)
    ensures
        filters_to(*references, filtered),
{
    let top = match &references.top {
        Some(samples) => Some(filter_side(samples, references.top_left)),
        None => None,
    };
    let left = match &references.left {
        Some(samples) => Some(filter_side(samples, references.top_left)),
        None => None,
    };
    let top_left: Option<u8> = match references.top_left {
        Some(sample) => Some(
            match (&references.top, &references.left) {
                (Some(top), Some(left)) => weighted3(top[0], sample, left[0]),
                (Some(top), None) => weighted3(sample, sample, top[0]),
                (None, Some(left)) => weighted3(sample, sample, left[0]),
                (None, None) => sample,
            },
        ),
        None => None,
    };
    Intra8x8References { top, left, top_left }
}

/// A sample of an Intra8x8 prediction from filtered samples.
pub open spec fn predicted_8x8(
    mode: u8,
    references: Intra8x8References,
    row: int,
    column: int,
) -> u8 {
    let top = match side(references.top) {
        Some(samples) => Some(filtered_side(samples, references.top_left)),
        None => None,
    };
    let left = match side(references.left) {
        Some(samples) => Some(filtered_side(samples, references.top_left)),
        None => None,
    };
    if mode == 2 {
        dc(
            match top {
                Some(top) => Some(top.take(8)),
                None => None,
            },
            left,
            8,
        )
    } else {
        directional(
            mode,
            8,
            or_none(top),
            match references.top_left {
                Some(corner) => filtered_corner(
                    corner,
                    side(references.top),
                    side(references.left),
                ),
                None => 0,
            },
            or_none(left),
            row,
            column,
        )
    }
}

/// Why an Intra8x8 prediction is refused.
pub open spec fn intra_8x8_error(mode: u8, references: Intra8x8References) -> Option<H264Error> {
    missing_border(
        mode,
        side(references.top),
        side(references.left),
        references.top_left,
        "Intra8x8 prediction requires top samples",
        "Intra8x8 prediction requires all sixteen top samples",
        "Intra8x8 prediction requires top samples",
        "Intra8x8 prediction requires left samples",
        "Intra8x8 prediction requires the top-left sample",
        "Intra8x8PredMode exceeds 8",
    )
}

/// Generates one 8-bit Intra8x8 luma prediction (modes 0 through 8).
///
/// This function accepts unfiltered picture samples and applies the normative
/// reference filter before calculating the prediction.
pub fn predict_intra_8x8(mode: u8, references: &Intra8x8References) -> (result: Result<
    Prediction8x8,
>)
    ensures
        match intra_8x8_error(mode, *references) {
            Some(error) => result == Err::<Prediction8x8, H264Error>(error),
            None => result matches Ok(prediction) && forall|row: int, column: int|
                #![trigger prediction[row][column]]
                0 <= row < 8 && 0 <= column < 8 ==> prediction[row][column] == predicted_8x8(
                    mode,
                    *references,
                    row,
                    column,
                ),
        },
{
    let missing = find_missing_border(
        mode,
        references.top.is_some(),
        references.left.is_some(),
        references.top_left.is_some(),
        "Intra8x8 prediction requires top samples",
        "Intra8x8 prediction requires all sixteen top samples",
        "Intra8x8 prediction requires top samples",
        "Intra8x8 prediction requires left samples",
        "Intra8x8 prediction requires the top-left sample",
        "Intra8x8PredMode exceeds 8",
    );
    assert(missing == intra_8x8_error(mode, *references));
    if let Some(error) = missing {
        return Err(error);
    }
    let filtered = filter_intra_8x8_references(references);
    let top = side_slice(&filtered.top);
    let left = side_slice(&filtered.left);
    let corner: u8 = match filtered.top_left {
        Some(sample) => sample,
        None => 0,
    };
    let mut prediction: Prediction8x8 = [[0u8; 8]; 8];
    if mode == 2 {
        let first_top: Option<&[u8]> = match &filtered.top {
            Some(samples) => Some(vstd::slice::slice_subrange(samples.as_slice(), 0, 8)),
            None => None,
        };
        let whole_left: Option<&[u8]> = match &filtered.left {
            Some(samples) => Some(samples.as_slice()),
            None => None,
        };
        let value: u8 = dc_prediction(first_top, whole_left, 8);
        proof {
            if let Some(samples) = filtered.top {
                assert(samples@.take(8) =~= samples@.subrange(0, 8));
            }
        }
        return Ok([[value; 8]; 8]);
    }
    let mut row: usize = 0;
    while row < 8
        invariant
            row <= 8,
            mode != 2,
            border_suffices(mode, 8, top@, left@),
            forall|r: int, c: int|
                #![trigger prediction[r][c]]
                0 <= r < row && 0 <= c < 8 ==> prediction[r][c] == directional(
                    mode,
                    8,
                    top@,
                    corner,
                    left@,
                    r,
                    c,
                ),
        decreases 8 - row,
    {
        let mut column: usize = 0;
        while column < 8
            invariant
                row < 8,
                column <= 8,
                mode != 2,
                border_suffices(mode, 8, top@, left@),
                forall|r: int, c: int|
                    #![trigger prediction[r][c]]
                    0 <= r < row && 0 <= c < 8 || r == row && 0 <= c < column ==> prediction[r][c]
                        == directional(mode, 8, top@, corner, left@, r, c),
            decreases 8 - column,
        {
            prediction[row][column] = directional_sample(mode, 8, top, corner, left, row, column);
            column = column + 1;
        }
        row = row + 1;
    }
    Ok(prediction)
}

/// The slope of a side: the differences of samples that lie opposite each
/// other around its middle, weighted by their distance. The last one reaches
/// the corner.
pub open spec fn gradient(samples: Seq<u8>, corner: u8, count: int) -> int
    decreases count,
{
    let middle = samples.len() as int / 2;
    if count <= 0 {
        0
    } else {
        gradient(samples, corner, count - 1) + count * (samples[middle + count - 1] - (if count
            == middle {
            corner
        } else {
            samples[middle - 1 - count]
        }))
    }
}

/// A number, held to the range of a sample.
pub open spec fn clipped(value: int) -> u8 {
    if value < 0 {
        0
    } else if value > 255 {
        255
    } else {
        value as u8
    }
}

/// A sample of a plane prediction.
pub open spec fn plane(
    top: Seq<u8>,
    left: Seq<u8>,
    corner: u8,
    slope: int,
    row: int,
    column: int,
) -> u8 {
    let middle = top.len() as int / 2;
    let base = 16 * (top.last() + left.last());
    let across = (slope * gradient(top, corner, middle) + 32) / 64;
    let down = (slope * gradient(left, corner, middle) + 32) / 64;
    clipped((base + across * (column - middle + 1) + down * (row - middle + 1) + 16) / 32)
}

fn clip_u8(value: i64) -> (sample: u8)
    ensures
        sample == clipped(value as int),
{
    if value < 0 {
        0
    } else if value > 255 {
        255
    } else {
        value as u8
    }
}

fn side_gradient(samples: &[u8], corner: u8) -> (sum: i64)
    requires
        samples@.len() == 8 || samples@.len() == 16,
    ensures
        sum == gradient(samples@, corner, samples@.len() as int / 2),
        -16320 <= sum <= 16320,
{
    let middle: usize = samples.len() / 2;
    let mut sum: i64 = 0;
    let mut count: usize = 0;
    while count < middle
        invariant
            count <= middle <= 8,
            middle == samples@.len() as int / 2,
            samples@.len() == 8 || samples@.len() == 16,
            sum == gradient(samples@, corner, count as int),
            -2040 * count <= sum <= 2040 * count,
        decreases middle - count,
    {
        let lower: i64 = if count + 1 == middle {
            corner as i64
        } else {
            samples[middle - 2 - count] as i64
        };
        let difference: i64 = samples[middle + count] as i64 - lower;
        let weight: i64 = count as i64 + 1;
        proof {
            assert(-2040 <= weight * difference <= 2040) by (nonlinear_arith)
                requires
                    1 <= weight <= 8,
                    -255 <= difference <= 255,
            ;
        }
        sum = sum + weight * difference;
        count = count + 1;
    }
    sum
}

/// The rounded slope for one step along a side.
fn slope_step(gradient_sum: i64, slope: i64) -> (step: i64)
    requires
        -16320 <= gradient_sum <= 16320,
        0 <= slope <= 34,
    ensures
        step == (slope * gradient_sum + 32) / 64,
        -10000 <= step <= 10000,
{
    proof {
        lemma2_to64();
        assert(-554880 <= slope * gradient_sum <= 554880) by (nonlinear_arith)
            requires
                0 <= slope <= 34,
                -16320 <= gradient_sum <= 16320,
        ;
    }
    shift_right(slope * gradient_sum + 32, 6)
}

fn plane_sample(
    base: i64,
    across: i64,
    down: i64,
    middle: usize,
    row: usize,
    column: usize,
) -> (sample: u8)
    requires
        0 <= base <= 8160,
        -10000 <= across <= 10000,
        -10000 <= down <= 10000,
        middle <= 8,
        row < 16,
        column < 16,
    ensures
        sample == clipped(
            (base + across * (column - middle + 1) + down * (row - middle + 1) + 16) / 32,
        ),
{
    let x: i64 = column as i64 - middle as i64 + 1;
    let y: i64 = row as i64 - middle as i64 + 1;
    proof {
        lemma2_to64();
        assert(-200000 <= across * x <= 200000) by (nonlinear_arith)
            requires
                -10000 <= across <= 10000,
                -16 <= x <= 16,
        ;
        assert(-200000 <= down * y <= 200000) by (nonlinear_arith)
            requires
                -10000 <= down <= 10000,
                -16 <= y <= 16,
        ;
    }
    clip_u8(shift_right(base + across * x + down * y + 16, 5))
}

/// A sample of an Intra16x16 prediction.
pub open spec fn predicted_16x16(
    mode: u8,
    references: Intra16x16References,
    row: int,
    column: int,
) -> u8 {
    let top = side(references.top);
    let left = side(references.left);
    if mode == 0 {
        or_none(top)[column]
    } else if mode == 1 {
        or_none(left)[row]
    } else if mode == 2 {
        dc(top, left, 16)
    } else {
        plane(or_none(top), or_none(left), or_zero(references.top_left), 5, row, column)
    }
}

/// Why an Intra16x16 prediction is refused.
pub open spec fn intra_16x16_error(mode: u8, references: Intra16x16References) -> Option<
    H264Error,
> {
    if mode > 3 {
        Some(H264Error::InvalidSyntax("Intra16x16PredMode exceeds 3"))
    } else if mode == 0 && references.top is None {
        Some(H264Error::InvalidSyntax("Intra16x16 vertical prediction requires top samples"))
    } else if mode == 1 && references.left is None {
        Some(H264Error::InvalidSyntax("Intra16x16 horizontal prediction requires left samples"))
    } else if mode == 3 && references.top is None {
        Some(H264Error::InvalidSyntax("Intra16x16 plane prediction requires top samples"))
    } else if mode == 3 && references.left is None {
        Some(H264Error::InvalidSyntax("Intra16x16 plane prediction requires left samples"))
    } else if mode == 3 && references.top_left is None {
        Some(H264Error::InvalidSyntax("Intra16x16 plane prediction requires the top-left sample"))
    } else {
        None
    }
}

/// Generates one 8-bit Intra16x16 luma prediction (modes 0 through 3).
pub fn predict_intra_16x16(mode: u8, references: &Intra16x16References) -> (result: Result<
    Prediction16x16,
>)
    ensures
        match intra_16x16_error(mode, *references) {
            Some(error) => result == Err::<Prediction16x16, H264Error>(error),
            None => result matches Ok(prediction) && forall|row: int, column: int|
                #![trigger prediction[row][column]]
                0 <= row < 16 && 0 <= column < 16 ==> prediction[row][column] == predicted_16x16(
                    mode,
                    *references,
                    row,
                    column,
                ),
        },
{
    match mode {
        0 => match references.top {
            Some(top) => Ok([top; 16]),
            None => Err(
                H264Error::InvalidSyntax("Intra16x16 vertical prediction requires top samples"),
            ),
        },
        1 => match references.left {
            Some(left) => Ok(rows_of(&left)),
            None => Err(
                H264Error::InvalidSyntax(
                    "Intra16x16 horizontal prediction requires left samples",
                ),
            ),
        },
        2 => {
            let top: Option<&[u8]> = match &references.top {
                Some(samples) => Some(samples.as_slice()),
                None => None,
            };
            let left: Option<&[u8]> = match &references.left {
                Some(samples) => Some(samples.as_slice()),
                None => None,
            };
            let value: u8 = dc_prediction(top, left, 16);
            Ok([[value; 16]; 16])
        },
        3 => predict_intra_16x16_plane(references),
        _ => Err(H264Error::InvalidSyntax("Intra16x16PredMode exceeds 3")),
    }
}

/// A square whose rows repeat one sample each.
fn rows_of<const SIZE: usize>(samples: &[u8; SIZE]) -> (square: [[u8; SIZE]; SIZE])
    ensures
        forall|row: int, column: int|
            #![trigger square[row][column]]
            0 <= row < SIZE && 0 <= column < SIZE ==> square[row][column] == samples[row],
{
    let mut square = [[0u8; SIZE]; SIZE];
    let mut row: usize = 0;
    while row < SIZE
        invariant
            row <= SIZE,
            forall|r: int, c: int|
                #![trigger square[r][c]]
                0 <= r < row && 0 <= c < SIZE ==> square[r][c] == samples[r],
        decreases SIZE - row,
    {
        square[row] = [samples[row]; SIZE];
        row = row + 1;
    }
    square
}

fn predict_intra_16x16_plane(references: &Intra16x16References) -> (result: Result<
    Prediction16x16,
>)
    ensures
        match intra_16x16_error(3, *references) {
            Some(error) => result == Err::<Prediction16x16, H264Error>(error),
            None => result matches Ok(prediction) && forall|row: int, column: int|
                #![trigger prediction[row][column]]
                0 <= row < 16 && 0 <= column < 16 ==> prediction[row][column] == predicted_16x16(
                    3,
                    *references,
                    row,
                    column,
                ),
        },
{
    let top = match &references.top {
        Some(top) => top,
        None => return Err(
            H264Error::InvalidSyntax("Intra16x16 plane prediction requires top samples"),
        ),
    };
    let left = match &references.left {
        Some(left) => left,
        None => return Err(
            H264Error::InvalidSyntax("Intra16x16 plane prediction requires left samples"),
        ),
    };
    let corner: u8 = match references.top_left {
        Some(corner) => corner,
        None => return Err(
            H264Error::InvalidSyntax("Intra16x16 plane prediction requires the top-left sample"),
        ),
    };
    let base: i64 = 16 * (top[15] as i64 + left[15] as i64);
    let across: i64 = slope_step(side_gradient(top.as_slice(), corner), 5);
    let down: i64 = slope_step(side_gradient(left.as_slice(), corner), 5);
    let mut prediction: Prediction16x16 = [[0u8; 16]; 16];
    let mut row: usize = 0;
    while row < 16
        invariant
            row <= 16,
            0 <= base <= 8160,
            -10000 <= across <= 10000,
            -10000 <= down <= 10000,
            base == 16 * (top@.last() + left@.last()),
            across == (5 * gradient(top@, corner, 8) + 32) / 64,
            down == (5 * gradient(left@, corner, 8) + 32) / 64,
            forall|r: int, c: int|
                #![trigger prediction[r][c]]
                0 <= r < row && 0 <= c < 16 ==> prediction[r][c] == plane(
                    top@,
                    left@,
                    corner,
                    5,
                    r,
                    c,
                ),
        decreases 16 - row,
    {
        let mut column: usize = 0;
        while column < 16
            invariant
                row < 16,
                column <= 16,
                0 <= base <= 8160,
                -10000 <= across <= 10000,
                -10000 <= down <= 10000,
                base == 16 * (top@.last() + left@.last()),
                across == (5 * gradient(top@, corner, 8) + 32) / 64,
                down == (5 * gradient(left@, corner, 8) + 32) / 64,
                forall|r: int, c: int|
                    #![trigger prediction[r][c]]
                    0 <= r < row && 0 <= c < 16 || r == row && 0 <= c < column ==> prediction[r][c]
                        == plane(top@, left@, corner, 5, r, c),
            decreases 16 - column,
        {
            prediction[row][column] = plane_sample(base, across, down, 8, row, column);
            column = column + 1;
        }
        row = row + 1;
    }
    Ok(prediction)
}

/// Four samples of a side, from the block's place on.
pub open spec fn quarter_side(samples: Option<Seq<u8>>, block: int) -> Option<Seq<u8>> {
    match samples {
        Some(samples) => Some(samples.subrange(4 * block, 4 * block + 4)),
        None => None,
    }
}

/// The DC prediction of one of the four blocks of a chroma block. Those off
/// the diagonal prefer the side that they touch.
pub open spec fn chroma_dc_value(
    top: Option<Seq<u8>>,
    left: Option<Seq<u8>>,
    block_row: int,
    block_column: int,
) -> u8 {
    let above = quarter_side(top, block_column);
    let beside = quarter_side(left, block_row);
    if block_row == block_column {
        dc(above, beside, 4)
    } else if block_row == 0 {
        if above is Some {
            dc(above, None, 4)
        } else {
            dc(None, beside, 4)
        }
    } else {
        if beside is Some {
            dc(None, beside, 4)
        } else {
            dc(above, None, 4)
        }
    }
}

/// A sample of a 4:2:0 chroma prediction.
pub open spec fn predicted_chroma(
    mode: u8,
    references: IntraChroma420References,
    row: int,
    column: int,
) -> u8 {
    let top = side(references.top);
    let left = side(references.left);
    if mode == 0 {
        chroma_dc_value(top, left, row / 4, column / 4)
    } else if mode == 1 {
        or_none(left)[row]
    } else if mode == 2 {
        or_none(top)[column]
    } else {
        plane(or_none(top), or_none(left), or_zero(references.top_left), 34, row, column)
    }
}

/// Why a chroma prediction is refused.
pub open spec fn intra_chroma_error(mode: u8, references: IntraChroma420References) -> Option<
    H264Error,
> {
    if mode > 3 {
        Some(H264Error::InvalidSyntax("intra_chroma_pred_mode exceeds 3"))
    } else if mode == 1 && references.left is None {
        Some(H264Error::InvalidSyntax("chroma horizontal prediction requires left samples"))
    } else if mode == 2 && references.top is None {
        Some(H264Error::InvalidSyntax("chroma vertical prediction requires top samples"))
    } else if mode == 3 && references.top is None {
        Some(H264Error::InvalidSyntax("chroma plane prediction requires top samples"))
    } else if mode == 3 && references.left is None {
        Some(H264Error::InvalidSyntax("chroma plane prediction requires left samples"))
    } else if mode == 3 && references.top_left is None {
        Some(H264Error::InvalidSyntax("chroma plane prediction requires the top-left sample"))
    } else {
        None
    }
}

/// Generates one 8-bit 4:2:0 chroma prediction (modes 0 through 3).
pub fn predict_intra_chroma_420(mode: u8, references: &IntraChroma420References) -> (result: Result<
    Prediction8x8,
>)
    ensures
        match intra_chroma_error(mode, *references) {
            Some(error) => result == Err::<Prediction8x8, H264Error>(error),
            None => result matches Ok(prediction) && forall|row: int, column: int|
                #![trigger prediction[row][column]]
                0 <= row < 8 && 0 <= column < 8 ==> prediction[row][column] == predicted_chroma(
                    mode,
                    *references,
                    row,
                    column,
                ),
        },
{
    match mode {
        0 => Ok(predict_chroma_dc(references)),
        1 => match references.left {
            Some(left) => Ok(rows_of(&left)),
            None => Err(
                H264Error::InvalidSyntax("chroma horizontal prediction requires left samples"),
            ),
        },
        2 => match references.top {
            Some(top) => Ok([top; 8]),
            None => Err(
                H264Error::InvalidSyntax("chroma vertical prediction requires top samples"),
            ),
        },
        3 => predict_chroma_plane(references),
        _ => Err(H264Error::InvalidSyntax("intra_chroma_pred_mode exceeds 3")),
    }
}

fn quarter_slice(samples: &Option<[u8; 8]>, block: usize) -> (part: Option<&[u8]>)
    requires
        block < 2,
    ensures
        optional_slice(part) == quarter_side(side(*samples), block as int),
        part matches Some(part) ==> part@.len() == 4,
{
    match samples {
        Some(samples) => Some(
            vstd::slice::slice_subrange(samples.as_slice(), 4 * block, 4 * block + 4),
        ),
        None => None,
    }
}

fn chroma_block_dc(
    references: &IntraChroma420References,
    block_row: usize,
    block_column: usize,
) -> (value: u8)
    requires
        block_row < 2,
        block_column < 2,
    ensures
        value == chroma_dc_value(
            side(references.top),
            side(references.left),
            block_row as int,
            block_column as int,
        ),
{
    let top = quarter_slice(&references.top, block_column);
    let left = quarter_slice(&references.left, block_row);
    if block_row == block_column {
        dc_prediction(top, left, 4)
    } else if block_row == 0 {
        if top.is_some() {
            dc_prediction(top, None, 4)
        } else {
            dc_prediction(None, left, 4)
        }
    } else {
        if left.is_some() {
            dc_prediction(None, left, 4)
        } else {
            dc_prediction(top, None, 4)
        }
    }
}

fn predict_chroma_dc(references: &IntraChroma420References) -> (prediction: Prediction8x8)
    ensures
        forall|row: int, column: int|
            #![trigger prediction[row][column]]
            0 <= row < 8 && 0 <= column < 8 ==> prediction[row][column] == predicted_chroma(
                0,
                *references,
                row,
                column,
            ),
{
    let values = [
        [chroma_block_dc(references, 0, 0), chroma_block_dc(references, 0, 1)],
        [chroma_block_dc(references, 1, 0), chroma_block_dc(references, 1, 1)],
    ];
    let mut prediction: Prediction8x8 = [[0u8; 8]; 8];
    let mut row: usize = 0;
    while row < 8
        invariant
            row <= 8,
            forall|r: int, c: int|
                #![trigger values[r][c]]
                0 <= r < 2 && 0 <= c < 2 ==> values[r][c] == chroma_dc_value(
                    side(references.top),
                    side(references.left),
                    r,
                    c,
                ),
            forall|r: int, c: int|
                #![trigger prediction[r][c]]
                0 <= r < row && 0 <= c < 8 ==> prediction[r][c] == predicted_chroma(
                    0,
                    *references,
                    r,
                    c,
                ),
        decreases 8 - row,
    {
        let mut column: usize = 0;
        while column < 8
            invariant
                row < 8,
                column <= 8,
                forall|r: int, c: int|
                    #![trigger values[r][c]]
                    0 <= r < 2 && 0 <= c < 2 ==> values[r][c] == chroma_dc_value(
                        side(references.top),
                        side(references.left),
                        r,
                        c,
                    ),
                forall|r: int, c: int|
                    #![trigger prediction[r][c]]
                    0 <= r < row && 0 <= c < 8 || r == row && 0 <= c < column ==> prediction[r][c]
                        == predicted_chroma(0, *references, r, c),
            decreases 8 - column,
        {
            prediction[row][column] = values[row / 4][column / 4];
            column = column + 1;
        }
        row = row + 1;
    }
    prediction
}

fn predict_chroma_plane(references: &IntraChroma420References) -> (result: Result<Prediction8x8>)
    ensures
        match intra_chroma_error(3, *references) {
            Some(error) => result == Err::<Prediction8x8, H264Error>(error),
            None => result matches Ok(prediction) && forall|row: int, column: int|
                #![trigger prediction[row][column]]
                0 <= row < 8 && 0 <= column < 8 ==> prediction[row][column] == predicted_chroma(
                    3,
                    *references,
                    row,
                    column,
                ),
        },
{
    let top = match &references.top {
        Some(top) => top,
        None => return Err(
            H264Error::InvalidSyntax("chroma plane prediction requires top samples"),
        ),
    };
    let left = match &references.left {
        Some(left) => left,
        None => return Err(
            H264Error::InvalidSyntax("chroma plane prediction requires left samples"),
        ),
    };
    let corner: u8 = match references.top_left {
        Some(corner) => corner,
        None => return Err(
            H264Error::InvalidSyntax("chroma plane prediction requires the top-left sample"),
        ),
    };
    let base: i64 = 16 * (top[7] as i64 + left[7] as i64);
    let across: i64 = slope_step(side_gradient(top.as_slice(), corner), 34);
    let down: i64 = slope_step(side_gradient(left.as_slice(), corner), 34);
    let mut prediction: Prediction8x8 = [[0u8; 8]; 8];
    let mut row: usize = 0;
    while row < 8
        invariant
            row <= 8,
            0 <= base <= 8160,
            -10000 <= across <= 10000,
            -10000 <= down <= 10000,
            base == 16 * (top@.last() + left@.last()),
            across == (34 * gradient(top@, corner, 4) + 32) / 64,
            down == (34 * gradient(left@, corner, 4) + 32) / 64,
            forall|r: int, c: int|
                #![trigger prediction[r][c]]
                0 <= r < row && 0 <= c < 8 ==> prediction[r][c] == plane(
                    top@,
                    left@,
                    corner,
                    34,
                    r,
                    c,
                ),
        decreases 8 - row,
    {
        let mut column: usize = 0;
        while column < 8
            invariant
                row < 8,
                column <= 8,
                0 <= base <= 8160,
                -10000 <= across <= 10000,
                -10000 <= down <= 10000,
                base == 16 * (top@.last() + left@.last()),
                across == (34 * gradient(top@, corner, 4) + 32) / 64,
                down == (34 * gradient(left@, corner, 4) + 32) / 64,
                forall|r: int, c: int|
                    #![trigger prediction[r][c]]
                    0 <= r < row && 0 <= c < 8 || r == row && 0 <= c < column ==> prediction[r][c]
                        == plane(top@, left@, corner, 34, r, c),
            decreases 8 - column,
        {
            prediction[row][column] = plane_sample(base, across, down, 4, row, column);
            column = column + 1;
        }
        row = row + 1;
    }
    Ok(prediction)
}

/// Samples that are all `value`.
pub open spec fn flat(samples: Option<Seq<u8>>, value: u8) -> bool {
    samples matches Some(samples) ==> forall|i: int|
        0 <= i < samples.len() ==> samples[i] == value
}

/// The sum of equal samples.
proof fn lemma_total_of_flat(samples: Seq<u8>, value: u8)
    requires
        forall|i: int| 0 <= i < samples.len() ==> samples[i] == value,
    ensures
        total(samples) == samples.len() * value,
    decreases samples.len(),
{
    if samples.len() > 0 {
        lemma_total_of_flat(samples.drop_last(), value);
        assert(samples.len() * value == (samples.len() - 1) * value + value) by (nonlinear_arith);
    }
}

/// The mean of flat sides.
proof fn lemma_dc_of_flat(top: Option<Seq<u8>>, left: Option<Seq<u8>>, size: int, value: u8)
    requires
        size == 4 || size == 8 || size == 16,
        flat(top, value),
        flat(left, value),
        top is Some || left is Some,
        top matches Some(samples) ==> samples.len() == size,
        left matches Some(samples) ==> samples.len() == size,
    ensures
        dc(top, left, size) == value,
{
    if let Some(samples) = top {
        lemma_total_of_flat(samples, value);
        assert(total(samples) == size * value);
    }
    if let Some(samples) = left {
        lemma_total_of_flat(samples, value);
        assert(total(samples) == size * value);
    }
    if size == 4 {
        assert((4 * value + 2) / 4 == value && (4 * value + 4 * value + 4) / 8 == value);
    } else if size == 8 {
        assert((8 * value + 4) / 8 == value && (8 * value + 8 * value + 8) / 16 == value);
    } else {
        assert((16 * value + 8) / 16 == value && (16 * value + 16 * value + 16) / 32 == value);
    }
}

/// A flat side has no slope.
proof fn lemma_gradient_of_flat(samples: Seq<u8>, value: u8, count: int)
    requires
        samples.len() == 8 || samples.len() == 16,
        0 <= count <= samples.len() / 2,
        forall|i: int| 0 <= i < samples.len() ==> samples[i] == value,
    ensures
        gradient(samples, value, count) == 0,
    decreases count,
{
    if count > 0 {
        lemma_gradient_of_flat(samples, value, count - 1);
        assert(count * 0 == 0);
    }
}

/// A flat border makes every directional prediction flat.
proof fn lemma_directional_of_flat(
    mode: u8,
    size: int,
    top: Seq<u8>,
    corner: u8,
    left: Seq<u8>,
    value: u8,
    row: int,
    column: int,
)
    requires
        size == 4 || size == 8,
        mode != 2,
        border_suffices(mode, size, top, left),
        forall|i: int| 0 <= i < top.len() ==> top[i] == value,
        forall|i: int| 0 <= i < left.len() ==> left[i] == value,
        4 <= mode <= 6 ==> corner == value,
        0 <= row < size,
        0 <= column < size,
    ensures
        directional(mode, size, top, corner, left, row, column) == value,
{
    if 4 <= mode <= 6 {
        assert forall|place: int| -size <= place <= 2 * size implies #[trigger] border(
            top,
            corner,
            left,
            place,
        ) == value by {}
    }
}

/// Where every sample around a 4x4 block is the same, every mode that is not
/// refused predicts that sample, if DC has a side to go by.
pub proof fn law_flat_border_predicts_flat_4x4(
    mode: u8,
    references: Intra4x4References,
    value: u8,
    row: int,
    column: int,
)
    requires
        intra_4x4_error(mode, references) is None,
        mode == 2 ==> references.top is Some || references.left is Some,
        flat(side(references.top), value),
        flat(side(references.left), value),
        references.top_left matches Some(corner) ==> corner == value,
        0 <= row < 4,
        0 <= column < 4,
    ensures
        predicted_4x4(mode, references, row, column) == value,
{
    if mode == 2 {
        let top = match side(references.top) {
            Some(top) => Some(top.take(4)),
            None => None,
        };
        lemma_dc_of_flat(top, side(references.left), 4, value);
    } else {
        lemma_directional_of_flat(
            mode,
            4,
            or_none(side(references.top)),
            or_zero(references.top_left),
            or_none(side(references.left)),
            value,
            row,
            column,
        );
    }
}

/// Where every sample around an 8x8 block is the same, every mode that is not
/// refused predicts that sample, if DC has a side to go by.
pub proof fn law_flat_border_predicts_flat_8x8(
    mode: u8,
    references: Intra8x8References,
    value: u8,
    row: int,
    column: int,
)
    requires
        intra_8x8_error(mode, references) is None,
        mode == 2 ==> references.top is Some || references.left is Some,
        flat(side(references.top), value),
        flat(side(references.left), value),
        references.top_left matches Some(corner) ==> corner == value,
        0 <= row < 8,
        0 <= column < 8,
    ensures
        predicted_8x8(mode, references, row, column) == value,
{
    let top = match side(references.top) {
        Some(samples) => Some(filtered_side(samples, references.top_left)),
        None => None,
    };
    let left = match side(references.left) {
        Some(samples) => Some(filtered_side(samples, references.top_left)),
        None => None,
    };
    if let Some(samples) = side(references.top) {
        lemma_filter_of_flat(samples, references.top_left, value);
    }
    if let Some(samples) = side(references.left) {
        lemma_filter_of_flat(samples, references.top_left, value);
    }
    if mode == 2 {
        let first = match top {
            Some(samples) => Some(samples.take(8)),
            None => None,
        };
        lemma_dc_of_flat(first, left, 8, value);
    } else {
        let corner = match references.top_left {
            Some(corner) => filtered_corner(corner, side(references.top), side(references.left)),
            None => 0,
        };
        lemma_directional_of_flat(mode, 8, or_none(top), corner, or_none(left), value, row, column);
    }
}

/// The reference filter keeps flat sides.
proof fn lemma_filter_of_flat(samples: Seq<u8>, corner: Option<u8>, value: u8)
    requires
        forall|i: int| 0 <= i < samples.len() ==> samples[i] == value,
        corner matches Some(corner) ==> corner == value,
    ensures
        forall|i: int|
            0 <= i < samples.len() ==> #[trigger] filtered_side(samples, corner)[i] == value,
        filtered_side(samples, corner).len() == samples.len(),
{
}

/// Where every sample around a macroblock is the same, every mode that is not
/// refused predicts that sample, if DC has a side to go by.
pub proof fn law_flat_border_predicts_flat_16x16(
    mode: u8,
    references: Intra16x16References,
    value: u8,
    row: int,
    column: int,
)
    requires
        intra_16x16_error(mode, references) is None,
        mode == 2 ==> references.top is Some || references.left is Some,
        flat(side(references.top), value),
        flat(side(references.left), value),
        references.top_left matches Some(corner) ==> corner == value,
        0 <= row < 16,
        0 <= column < 16,
    ensures
        predicted_16x16(mode, references, row, column) == value,
{
    if mode == 2 {
        lemma_dc_of_flat(side(references.top), side(references.left), 16, value);
    } else if mode == 3 {
        lemma_gradient_of_flat(or_none(side(references.top)), value, 8);
        lemma_gradient_of_flat(or_none(side(references.left)), value, 8);
        assert((5 * 0 + 32) / 64 == 0);
        assert(0 * (column - 7) == 0 && 0 * (row - 7) == 0);
    }
}

/// Where every sample around a chroma block is the same, every mode that is
/// not refused predicts that sample, if DC has a side to go by.
pub proof fn law_flat_border_predicts_flat_chroma(
    mode: u8,
    references: IntraChroma420References,
    value: u8,
    row: int,
    column: int,
)
    requires
        intra_chroma_error(mode, references) is None,
        mode == 0 ==> references.top is Some || references.left is Some,
        flat(side(references.top), value),
        flat(side(references.left), value),
        references.top_left matches Some(corner) ==> corner == value,
        0 <= row < 8,
        0 <= column < 8,
    ensures
        predicted_chroma(mode, references, row, column) == value,
{
    if mode == 0 {
        let above = quarter_side(side(references.top), column / 4);
        let beside = quarter_side(side(references.left), row / 4);
        lemma_dc_of_flat(above, beside, 4, value);
        if above is Some {
            lemma_dc_of_flat(above, None, 4, value);
        }
        if beside is Some {
            lemma_dc_of_flat(None, beside, 4, value);
        }
    } else if mode == 3 {
        lemma_gradient_of_flat(or_none(side(references.top)), value, 4);
        lemma_gradient_of_flat(or_none(side(references.left)), value, 4);
        assert((34 * 0 + 32) / 64 == 0);
        assert(0 * (column - 3) == 0 && 0 * (row - 3) == 0);
    }
}

} // verus!
