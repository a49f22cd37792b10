//! Inverse scan, inverse quantization, and inverse integer transforms.

use vstd::arithmetic::power2::{lemma2_to64, pow2};
use vstd::prelude::*;

use super::arithmetic::{half, lemma_product_bound, power, quarter, shift_right};
use super::error::{H264Error, Result};
use super::sps::{list_view, ScalingList, ScalingListView, ScalingMatrices};

verus! {

pub type Block4x4 = [[i32; 4]; 4];

pub type Block8x8 = [[i32; 8]; 8];

pub const FLAT_SCALING_LIST_4X4: [u8; 16] = [
    16, 16, 16, 16, 16, 16, 16, 16, 16, 16, 16, 16, 16, 16, 16, 16,
];

pub const FLAT_SCALING_LIST_8X8: [u8; 64] = [
    16, 16, 16, 16, 16, 16, 16, 16, 16, 16, 16, 16, 16, 16, 16, 16,
    16, 16, 16, 16, 16, 16, 16, 16, 16, 16, 16, 16, 16, 16, 16, 16,
    16, 16, 16, 16, 16, 16, 16, 16, 16, 16, 16, 16, 16, 16, 16, 16,
    16, 16, 16, 16, 16, 16, 16, 16, 16, 16, 16, 16, 16, 16, 16, 16,
];

pub const DEFAULT_SCALING_LIST_4X4_INTRA: [u8; 16] = [
    6, 13, 13, 20, 20, 20, 28, 28, 28, 28, 32, 32, 32, 37, 37, 42,
];

pub const DEFAULT_SCALING_LIST_4X4_INTER: [u8; 16] = [
    10, 14, 14, 20, 20, 20, 24, 24, 24, 24, 27, 27, 27, 30, 30, 34,
];

pub const DEFAULT_SCALING_LIST_8X8_INTRA: [u8; 64] = [
    6, 10, 10, 13, 11, 13, 16, 16, 16, 16, 18, 18, 18, 18, 18, 23, 23, 23, 23, 23, 23, 25, 25, 25,
    25, 25, 25, 25, 27, 27, 27, 27, 27, 27, 27, 27, 29, 29, 29, 29, 29, 29, 29, 31, 31, 31, 31, 31,
    31, 33, 33, 33, 33, 33, 36, 36, 36, 36, 38, 38, 38, 40, 40, 42,
];

pub const DEFAULT_SCALING_LIST_8X8_INTER: [u8; 64] = [
    9, 13, 13, 15, 13, 15, 17, 17, 17, 17, 19, 19, 19, 19, 19, 21, 21, 21, 21, 21, 21, 22, 22, 22,
    22, 22, 22, 22, 24, 24, 24, 24, 24, 24, 24, 24, 25, 25, 25, 25, 25, 25, 25, 27, 27, 27, 27, 27,
    27, 28, 28, 28, 28, 28, 30, 30, 30, 30, 32, 32, 32, 33, 33, 35,
];

/// Where each 4x4 position comes in the zig-zag scan of frames.
pub const FRAME_SCAN_4X4: [[usize; 4]; 4] = [
    [0, 1, 5, 6],
    [2, 4, 7, 12],
    [3, 8, 11, 13],
    [9, 10, 14, 15],
];

/// Where each 4x4 position comes in the scan of fields.
pub const FIELD_SCAN_4X4: [[usize; 4]; 4] = [
    [0, 2, 8, 12],
    [1, 5, 9, 13],
    [3, 6, 10, 14],
    [4, 7, 11, 15],
];

/// Where each 8x8 position comes in the zig-zag scan of frames.
pub const FRAME_SCAN_8X8: [[usize; 8]; 8] = [
    [0, 1, 5, 6, 14, 15, 27, 28],
    [2, 4, 7, 13, 16, 26, 29, 42],
    [3, 8, 12, 17, 25, 30, 41, 43],
    [9, 11, 18, 24, 31, 40, 44, 53],
    [10, 19, 23, 32, 39, 45, 52, 54],
    [20, 22, 33, 38, 46, 51, 55, 60],
    [21, 34, 37, 47, 50, 56, 59, 61],
    [35, 36, 48, 49, 57, 58, 62, 63],
];

/// Where each 8x8 position comes in the scan of fields.
pub const FIELD_SCAN_8X8: [[usize; 8]; 8] = [
    [0, 3, 8, 15, 22, 30, 38, 52],
    [1, 4, 14, 21, 29, 37, 45, 53],
    [2, 7, 16, 23, 31, 39, 46, 58],
    [5, 9, 20, 28, 36, 44, 51, 59],
    [6, 13, 24, 32, 40, 47, 54, 60],
    [10, 17, 25, 33, 41, 48, 55, 61],
    [11, 18, 26, 34, 42, 49, 56, 62],
    [12, 19, 27, 35, 43, 50, 57, 63],
];

// Rows are qP % 6; columns select even/even, odd/odd, or mixed positions.
pub const NORM_ADJUST_4X4: [[i32; 3]; 6] = [
    [10, 16, 13],
    [11, 18, 14],
    [13, 20, 16],
    [14, 23, 18],
    [16, 25, 20],
    [18, 29, 23],
];

pub const NORM_ADJUST_8X8: [[i32; 6]; 6] = [
    [20, 18, 32, 19, 25, 24],
    [22, 19, 35, 21, 28, 26],
    [26, 23, 42, 24, 33, 31],
    [28, 25, 45, 26, 35, 33],
    [32, 28, 51, 30, 40, 38],
    [36, 32, 58, 34, 46, 43],
];

#[derive(Debug, Clone, Copy, PartialEq, Eq, Structural)]
pub enum ScanMode {
    Frame,
    Field,
}

#[derive(Debug, Clone, Copy, PartialEq, Eq, Structural)]
pub enum PredictionClass {
    Intra,
    Inter,
}

#[derive(Debug, Clone, Copy, PartialEq, Eq, Structural)]
pub enum ColorComponent {
    Luma,
    Cb,
    Cr,
}

/// Where the coefficient of a 4x4 position comes in a list.
pub open spec fn scan_4x4(mode: ScanMode, row: int, column: int) -> int {
    match mode {
        ScanMode::Frame => FRAME_SCAN_4X4[row][column] as int,
        ScanMode::Field => FIELD_SCAN_4X4[row][column] as int,
    }
}

/// Where the coefficient of an 8x8 position comes in a list.
pub open spec fn scan_8x8(mode: ScanMode, row: int, column: int) -> int {
    match mode {
        ScanMode::Frame => FRAME_SCAN_8X8[row][column] as int,
        ScanMode::Field => FIELD_SCAN_8X8[row][column] as int,
    }
}

/// Scan positions of 4x4 blocks are inside their lists.
proof fn lemma_scan_4x4_range(row: int, column: int)
    requires
        0 <= row < 4,
        0 <= column < 4,
    ensures
        FRAME_SCAN_4X4[row][column] < 16,
        FIELD_SCAN_4X4[row][column] < 16,
{
}

/// Scan positions of 8x8 blocks are inside their lists.
proof fn lemma_scan_8x8_range(row: int, column: int)
    requires
        0 <= row < 8,
        0 <= column < 8,
    ensures
        FRAME_SCAN_8X8[row][column] < 64,
        FIELD_SCAN_8X8[row][column] < 64,
{
}

/// Maps a 16-element coefficient list into its 4x4 transform positions.
pub fn inverse_scan_4x4(values: &[i32; 16], mode: ScanMode) -> (block: Block4x4)
    ensures
        forall|row: int, column: int|
            #![trigger block[row][column]]
            0 <= row < 4 && 0 <= column < 4 ==> block[row][column] == values[scan_4x4(
                mode,
                row,
                column,
            )],
{
    let mut block: Block4x4 = [[0i32; 4]; 4];
    let mut row: usize = 0;
    while row < 4
        invariant
            row <= 4,
            forall|r: int, c: int|
                #![trigger block[r][c]]
                0 <= r < row && 0 <= c < 4 ==> block[r][c] == values[scan_4x4(mode, r, c)],
        decreases 4 - row,
    {
        let mut column: usize = 0;
        while column < 4
            invariant
                row < 4,
                column <= 4,
                forall|r: int, c: int|
                    #![trigger block[r][c]]
                    0 <= r < row && 0 <= c < 4 || r == row && 0 <= c < column ==> block[r][c]
                        == values[scan_4x4(mode, r, c)],
            decreases 4 - column,
        {
            proof {
                lemma_scan_4x4_range(row as int, column as int);
            }
            let index: usize = match mode {
                ScanMode::Frame => FRAME_SCAN_4X4[row][column],
                ScanMode::Field => FIELD_SCAN_4X4[row][column],
            };
            block[row][column] = values[index];
            column = column + 1;
        }
        row = row + 1;
    }
    block
}

/// Maps a 64-element coefficient list into its 8x8 transform positions.
pub fn inverse_scan_8x8(values: &[i32; 64], mode: ScanMode) -> (matrix: Block8x8)
    ensures
        forall|row: int, column: int|
            #![trigger matrix[row][column]]
            0 <= row < 8 && 0 <= column < 8 ==> matrix[row][column] == values[scan_8x8(
                mode,
                row,
                column,
            )],
{
    let mut matrix: Block8x8 = [[0i32; 8]; 8];
    let mut row: usize = 0;
    while row < 8
        invariant
            row <= 8,
            forall|r: int, c: int|
                #![trigger matrix[r][c]]
                0 <= r < row && 0 <= c < 8 ==> matrix[r][c] == values[scan_8x8(mode, r, c)],
        decreases 8 - row,
    {
        let mut column: usize = 0;
        while column < 8
            invariant
                row < 8,
                column <= 8,
                forall|r: int, c: int|
                    #![trigger matrix[r][c]]
                    0 <= r < row && 0 <= c < 8 || r == row && 0 <= c < column ==> matrix[r][c]
                        == values[scan_8x8(mode, r, c)],
            decreases 8 - column,
        {
            proof {
                lemma_scan_8x8_range(row as int, column as int);
            }
            let index: usize = match mode {
                ScanMode::Frame => FRAME_SCAN_8X8[row][column],
                ScanMode::Field => FIELD_SCAN_8X8[row][column],
            };
            matrix[row][column] = values[index];
            column = column + 1;
        }
        row = row + 1;
    }
    matrix
}

/// Converts a scaling list from zig-zag order into matrix order.
pub fn inverse_scan_scaling_list_4x4(values: &[u8; 16]) -> (matrix: [[u8; 4]; 4])
    ensures
        forall|row: int, column: int|
            #![trigger matrix[row][column]]
            0 <= row < 4 && 0 <= column < 4 ==> matrix[row][column] == values[scan_4x4(
                ScanMode::Frame,
                row,
                column,
            )],
{
    let mut matrix: [[u8; 4]; 4] = [[0u8; 4]; 4];
    let mut row: usize = 0;
    while row < 4
        invariant
            row <= 4,
            forall|r: int, c: int|
                #![trigger matrix[r][c]]
                0 <= r < row && 0 <= c < 4 ==> matrix[r][c] == values[scan_4x4(ScanMode::Frame, r, c)],
        decreases 4 - row,
    {
        let mut column: usize = 0;
        while column < 4
            invariant
                row < 4,
                column <= 4,
                forall|r: int, c: int|
                    #![trigger matrix[r][c]]
                    0 <= r < row && 0 <= c < 4 || r == row && 0 <= c < column ==> matrix[r][c]
                        == values[scan_4x4(ScanMode::Frame, r, c)],
            decreases 4 - column,
        {
            proof {
                lemma_scan_4x4_range(row as int, column as int);
            }
            matrix[row][column] = values[FRAME_SCAN_4X4[row][column]];
            column = column + 1;
        }
        row = row + 1;
    }
    matrix
}

/// Converts an 8x8 scaling list from zig-zag order into matrix order.
pub fn inverse_scan_scaling_list_8x8(values: &[u8; 64]) -> (matrix: [[u8; 8]; 8])
    ensures
        forall|row: int, column: int|
            #![trigger matrix[row][column]]
            0 <= row < 8 && 0 <= column < 8 ==> matrix[row][column] == values[scan_8x8(
                ScanMode::Frame,
                row,
                column,
            )],
{
    let mut matrix: [[u8; 8]; 8] = [[0u8; 8]; 8];
    let mut row: usize = 0;
    while row < 8
        invariant
            row <= 8,
            forall|r: int, c: int|
                #![trigger matrix[r][c]]
                0 <= r < row && 0 <= c < 8 ==> matrix[r][c] == values[scan_8x8(ScanMode::Frame, r, c)],
        decreases 8 - row,
    {
        let mut column: usize = 0;
        while column < 8
            invariant
                row < 8,
                column <= 8,
                forall|r: int, c: int|
                    #![trigger matrix[r][c]]
                    0 <= r < row && 0 <= c < 8 || r == row && 0 <= c < column ==> matrix[r][c]
                        == values[scan_8x8(ScanMode::Frame, r, c)],
            decreases 8 - column,
        {
            proof {
                lemma_scan_8x8_range(row as int, column as int);
            }
            matrix[row][column] = values[FRAME_SCAN_8X8[row][column]];
            column = column + 1;
        }
        row = row + 1;
    }
    matrix
}

/// Whether an entry of a list is zero.
pub open spec fn holds_zero(list: Seq<u8>) -> bool {
    list.contains(0u8)
}

fn contains_zero<const SIZE: usize>(list: &[u8; SIZE]) -> (zero: bool)
    ensures
        zero == holds_zero(list@),
{
    let mut index: usize = 0;
    while index < SIZE
        invariant
            index <= SIZE,
            forall|i: int| 0 <= i < index ==> list@[i] != 0,
        decreases SIZE - index,
    {
        if list[index] == 0 {
            assert(list@.contains(list@[index as int]));
            return true;
        }
        index = index + 1;
    }
    false
}

/// The error of a quantizer above 51 or a list with a zero.
pub open spec fn scaling_error(qp: u8, list: Seq<u8>, message: &'static str) -> Option<H264Error> {
    if qp > 51 {
        Some(H264Error::InvalidSyntax("8-bit transform QP exceeds 51"))
    } else if holds_zero(list) {
        Some(H264Error::InvalidSyntax(message))
    } else {
        None
    }
}

fn validate_qp_and_scaling_list(qp: u8, scaling_list: &[u8; 16]) -> (result: Result<()>)
    ensures
        result == match scaling_error(
            qp,
            scaling_list@,
            "4x4 scaling-list entries must be non-zero",
        ) {
            Some(error) => Err::<(), H264Error>(error),
            None => Ok(()),
        },
{
    if qp > 51 {
        return Err(H264Error::InvalidSyntax("8-bit transform QP exceeds 51"));
    }
    if contains_zero(scaling_list) {
        return Err(H264Error::InvalidSyntax("4x4 scaling-list entries must be non-zero"));
    }
    Ok(())
}

/// The norm adjustment of a 4x4 position.
pub open spec fn norm_4x4(qp: u8, row: int, column: int) -> int {
    NORM_ADJUST_4X4[qp as int % 6][if row % 2 == 0 && column % 2 == 0 {
        0
    } else if row % 2 == 1 && column % 2 == 1 {
        1
    } else {
        2int
    }] as int
}

/// The factor of a 4x4 position: its weight times its norm adjustment.
pub open spec fn level_scale_4x4(qp: u8, list: Seq<u8>, row: int, column: int) -> int {
    list[scan_4x4(ScanMode::Frame, row, column)] * norm_4x4(qp, row, column)
}

/// `product`, scaled by `2^(qp / 6 - bits)` and rounded to the nearest integer.
pub open spec fn scaled_by_qp(product: int, qp: u8, bits: int) -> int {
    let exponent = qp as int / 6;
    if exponent >= bits {
        product * pow2((exponent - bits) as nat)
    } else {
        (product + pow2((bits - exponent - 1) as nat)) / pow2((bits - exponent) as nat) as int
    }
}

/// `product`, scaled and rounded, where it stays below 2^52.
fn scale_by_qp(product: i64, qp: u8, bits: u32) -> (value: i64)
    requires
        qp <= 51,
        bits == 4 || bits == 6,
        -0x10_0000_0000_0000 <= product <= 0x10_0000_0000_0000,
    ensures
        value == scaled_by_qp(product as int, qp, bits as int),
{
    let exponent: u32 = (qp / 6) as u32;
    if exponent >= bits {
        let factor: i64 = power(exponent - bits);
        assert(factor <= 16) by {
            lemma2_to64();
            if bits == 4 {
                assert(exponent - bits <= 4);
            } else {
                assert(exponent - bits <= 2);
            }
        }
        proof {
            lemma_product_bound(
                product as int,
                factor as int,
                0x10_0000_0000_0000,
                16,
            );
        }
        product * factor
    } else {
        let rounding: i64 = power(bits - exponent - 1);
        shift_right(product + rounding, bits - exponent)
    }
}

/// Norm adjustments of 4x4 positions are small.
proof fn lemma_norm_4x4(qp: u8, row: int, column: int)
    requires
        0 <= row < 4,
        0 <= column < 4,
    ensures
        10 <= norm_4x4(qp, row, column) <= 29,
{
}

fn norm_adjust_4x4(qp: u8, row: usize, column: usize) -> (norm: i32)
    requires
        row < 4,
        column < 4,
    ensures
        norm == norm_4x4(qp, row as int, column as int),
        10 <= norm <= 29,
{
    proof {
        lemma_norm_4x4(qp, row as int, column as int);
    }
    let class: usize = if row % 2 == 0 && column % 2 == 0 {
        0
    } else if row % 2 == 1 && column % 2 == 1 {
        1
    } else {
        2
    };
    NORM_ADJUST_4X4[(qp % 6) as usize][class]
}

/// The entries of a square of numbers, by row and column.
pub type Matrix = spec_fn(int, int) -> int;

/// The numbers of a 4x4 block.
pub open spec fn entries_4x4(block: Block4x4) -> Matrix {
    |row: int, column: int| block[row][column] as int
}

/// The numbers of an 8x8 block.
pub open spec fn entries_8x8(block: Block8x8) -> Matrix {
    |row: int, column: int| block[row][column] as int
}

/// A list of sixteen numbers, laid out by the inverse scan.
pub open spec fn scanned_4x4(values: Seq<i32>, mode: ScanMode) -> Matrix {
    |row: int, column: int| values[scan_4x4(mode, row, column)] as int
}

/// A list of 64 numbers, laid out by the inverse scan.
pub open spec fn scanned_8x8(values: Seq<i32>, mode: ScanMode) -> Matrix {
    |row: int, column: int| values[scan_8x8(mode, row, column)] as int
}

/// A 4x4 block holds these numbers.
pub open spec fn holds_4x4(block: Block4x4, numbers: Matrix) -> bool {
    forall|row: int, column: int|
        #![trigger block[row][column]]
        0 <= row < 4 && 0 <= column < 4 ==> block[row][column] == numbers(row, column)
}

/// An 8x8 block holds these numbers.
pub open spec fn holds_8x8(block: Block8x8, numbers: Matrix) -> bool {
    forall|row: int, column: int|
        #![trigger block[row][column]]
        0 <= row < 8 && 0 <= column < 8 ==> block[row][column] == numbers(row, column)
}

/// Whether a number fits 32 bits.
pub open spec fn fits(value: int) -> bool {
    i32::MIN <= value <= i32::MAX
}

/// Whether every number of a square with sides of `size` fits 32 bits.
pub open spec fn all_fit(numbers: Matrix, size: int) -> bool {
    forall|row: int, column: int|
        #![trigger numbers(row, column)]
        0 <= row < size && 0 <= column < size ==> fits(numbers(row, column))
}

/// The factors of the 4x4 positions.
pub open spec fn factors_4x4(qp: u8, list: Seq<u8>) -> Matrix {
    |row: int, column: int| level_scale_4x4(qp, list, row, column)
}

/// 4x4 coefficients after inverse quantization.
pub open spec fn scaled_4x4(
    coefficients: Matrix,
    factors: Matrix,
    qp: u8,
    preserve_dc: bool,
) -> Matrix {
    |row: int, column: int|
        if preserve_dc && row == 0 && column == 0 {
            coefficients(row, column)
        } else {
            scaled_by_qp(coefficients(row, column) * factors(row, column), qp, 4)
        }
}

/// The result of a scaling: the scaled numbers, or an overflow where one of
/// them does not fit.
pub open spec fn scales_to_4x4(result: Result<Block4x4>, numbers: Matrix) -> bool {
    match result {
        Ok(block) => all_fit(numbers, 4) && holds_4x4(block, numbers),
        Err(error) => error == H264Error::IntegerOverflow && !all_fit(numbers, 4),
    }
}

/// As `scales_to_4x4`, for 8x8 blocks.
pub open spec fn scales_to_8x8(result: Result<Block8x8>, numbers: Matrix) -> bool {
    match result {
        Ok(block) => all_fit(numbers, 8) && holds_8x8(block, numbers),
        Err(error) => error == H264Error::IntegerOverflow && !all_fit(numbers, 8),
    }
}

fn narrow(value: i64) -> (result: Result<i32>)
    ensures
        match result {
            Ok(narrowed) => narrowed == value,
            Err(error) => error == H264Error::IntegerOverflow && !fits(value as int),
        },
{
    if value < -0x8000_0000 || value > 0x7fff_ffff {
        Err(H264Error::IntegerOverflow)
    } else {
        Ok(value as i32)
    }
}

/// The factors of inverse quantization for one quantizer and scaling list.
pub struct PreparedInverseScale4x4 {
    level_scales: [[u16; 4]; 4],
    qp: u8,
}

impl PreparedInverseScale4x4 {
    /// The factor of each position.
    pub closed spec fn factors(self) -> Matrix {
        |row: int, column: int| self.level_scales[row][column] as int
    }

    /// The quantizer.
    pub closed spec fn qp(self) -> u8 {
        self.qp
    }

    #[verifier::type_invariant]
    spec fn bounded(self) -> bool {
        &&& self.qp <= 51
        &&& forall|row: int, column: int|
            #![trigger self.level_scales[row][column]]
            0 <= row < 4 && 0 <= column < 4 ==> self.level_scales[row][column] <= 7395
    }

    pub fn new(qp: u8, scaling_list: &[u8; 16]) -> (result: Result<Self>)
        ensures
            match scaling_error(
                qp,
                scaling_list@,
                "4x4 scaling-list entries must be non-zero",
            ) {
                Some(error) => result == Err::<PreparedInverseScale4x4, H264Error>(error),
                None => result matches Ok(prepared) && prepared.qp() == qp && forall|
                    row: int,
                    column: int,
                |
                    #![trigger prepared.factors()(row, column)]
                    0 <= row < 4 && 0 <= column < 4 ==> prepared.factors()(row, column)
                        == level_scale_4x4(qp, scaling_list@, row, column),
            },
    {
        validate_qp_and_scaling_list(qp, scaling_list)?;
        let weights = inverse_scan_scaling_list_4x4(scaling_list);
        let mut level_scales = [[0u16; 4]; 4];
        let mut row: usize = 0;
        while row < 4
            invariant
                row <= 4,
                qp <= 51,
                forall|r: int, c: int|
                    #![trigger weights[r][c]]
                    0 <= r < 4 && 0 <= c < 4 ==> weights[r][c] == scaling_list[scan_4x4(
                        ScanMode::Frame,
                        r,
                        c,
                    )],
                forall|r: int, c: int|
                    #![trigger level_scales[r][c]]
                    0 <= r < row && 0 <= c < 4 ==> level_scales[r][c] == level_scale_4x4(
                        qp,
                        scaling_list@,
                        r,
                        c,
                    ) && level_scales[r][c] <= 7395,
            decreases 4 - row,
        {
            let mut column: usize = 0;
            while column < 4
                invariant
                    row < 4,
                    column <= 4,
                    qp <= 51,
                    forall|r: int, c: int|
                        #![trigger weights[r][c]]
                        0 <= r < 4 && 0 <= c < 4 ==> weights[r][c] == scaling_list[scan_4x4(
                            ScanMode::Frame,
                            r,
                            c,
                        )],
                    forall|r: int, c: int|
                        #![trigger level_scales[r][c]]
                        0 <= r < row && 0 <= c < 4 || r == row && 0 <= c < column
                            ==> level_scales[r][c] == level_scale_4x4(qp, scaling_list@, r, c)
                            && level_scales[r][c] <= 7395,
                decreases 4 - column,
            {
                let norm: i32 = norm_adjust_4x4(qp, row, column);
                let weight: u8 = weights[row][column];
                proof {
                    lemma_product_bound(weight as int, norm as int, 255, 29);
                    assert(0 <= weight * norm) by (nonlinear_arith)
                        requires
                            0 <= weight,
                            0 <= norm,
                    ;
                }
                level_scales[row][column] = weight as u16 * norm as u16;
                column = column + 1;
            }
            row = row + 1;
        }
        Ok(PreparedInverseScale4x4 { level_scales, qp })
    }

    fn scale(&self, coefficients: &Block4x4, preserve_dc: bool) -> (result: Result<Block4x4>)
        ensures
            scales_to_4x4(
                result,
                scaled_4x4(entries_4x4(*coefficients), self.factors(), self.qp(), preserve_dc),
            ),
    {
        proof {
            use_type_invariant(self);
        }
        let ghost numbers = scaled_4x4(
            entries_4x4(*coefficients),
            self.factors(),
            self.qp(),
            preserve_dc,
        );
        let mut scaled: Block4x4 = [[0i32; 4]; 4];
        let mut row: usize = 0;
        while row < 4
            invariant
                row <= 4,
                self.bounded(),
                numbers == scaled_4x4(
                    entries_4x4(*coefficients),
                    self.factors(),
                    self.qp(),
                    preserve_dc,
                ),
                forall|r: int, c: int|
                    #![trigger scaled[r][c]]
                    0 <= r < row && 0 <= c < 4 ==> scaled[r][c] == numbers(r, c),
                forall|r: int, c: int|
                    #![trigger numbers(r, c)]
                    0 <= r < row && 0 <= c < 4 ==> fits(numbers(r, c)),
            decreases 4 - row,
        {
            let mut column: usize = 0;
            while column < 4
                invariant
                    row < 4,
                    column <= 4,
                    self.bounded(),
                    numbers == scaled_4x4(
                        entries_4x4(*coefficients),
                        self.factors(),
                        self.qp(),
                        preserve_dc,
                    ),
                    forall|r: int, c: int|
                        #![trigger scaled[r][c]]
                        0 <= r < row && 0 <= c < 4 || r == row && 0 <= c < column ==> scaled[r][c]
                            == numbers(r, c),
                    forall|r: int, c: int|
                        #![trigger numbers(r, c)]
                        0 <= r < row && 0 <= c < 4 || r == row && 0 <= c < column ==> fits(
                            numbers(r, c),
                        ),
                decreases 4 - column,
            {
                if preserve_dc && row == 0 && column == 0 {
                    scaled[row][column] = coefficients[row][column];
                } else {
                    let level_scale: i64 = self.level_scales[row][column] as i64;
                    let coefficient: i64 = coefficients[row][column] as i64;
                    proof {
                        lemma_product_bound(
                            coefficient as int,
                            level_scale as int,
                            0x8000_0000,
                            7395,
                        );
                    }
                    let value: i64 = scale_by_qp(coefficient * level_scale, self.qp, 4);
                    assert(value == numbers(row as int, column as int));
                    scaled[row][column] = narrow(value)?;
                }
                column = column + 1;
            }
            row = row + 1;
        }
        Ok(scaled)
    }

    /// The residual of a list of coefficients.
    pub fn reconstruct(
        &self,
        values: &[i32; 16],
        scan_mode: ScanMode,
        preserve_dc: bool,
    ) -> (result: Result<Block4x4>)
        ensures
            reconstructs_4x4(
                result,
                scaled_4x4(
                    scanned_4x4(values@, scan_mode),
                    self.factors(),
                    self.qp(),
                    preserve_dc,
                ),
            ),
    {
        let coefficients = inverse_scan_4x4(values, scan_mode);
        let ghost numbers = scaled_4x4(
            scanned_4x4(values@, scan_mode),
            self.factors(),
            self.qp(),
            preserve_dc,
        );
        let ghost copied = scaled_4x4(
            entries_4x4(coefficients),
            self.factors(),
            self.qp(),
            preserve_dc,
        );
        assert forall|row: int, column: int|
            0 <= row < 4 && 0 <= column < 4 implies #[trigger] numbers(row, column) == copied(
            row,
            column,
        ) by {
            assert(coefficients[row][column] == values[scan_4x4(scan_mode, row, column)]);
        }
        let scaled = match self.scale(&coefficients, preserve_dc) {
            Ok(scaled) => scaled,
            Err(error) => {
                proof {
                    let (row, column) = choose|row: int, column: int|
                        #![trigger copied(row, column)]
                        0 <= row < 4 && 0 <= column < 4 && !fits(copied(row, column));
                    assert(!fits(numbers(row, column)));
                }
                return Err(error);
            },
        };
        assert forall|row: int, column: int| 0 <= row < 4 && 0 <= column < 4 implies fits(
            #[trigger] numbers(row, column),
        ) by {
            assert(fits(copied(row, column)));
        }
        proof {
            assert forall|row: int, column: int| 0 <= row < 4 && 0 <= column < 4 implies entries_4x4(
                scaled,
            )(row, column) == #[trigger] numbers(row, column) by {
                assert(scaled[row][column] == copied(row, column));
            }
            lemma_transformed_4x4(entries_4x4(scaled), numbers);
        }
        inverse_transform_4x4(&scaled)
    }
}

/// Applies H.264 4x4 inverse quantization.
///
/// `preserve_dc` implements the special d00 = c00 rule used after separately
/// transforming Intra16x16 luma DC or chroma DC coefficients.
pub fn inverse_scale_4x4(
    coefficients: &Block4x4,
    qp: u8,
    scaling_list: &[u8; 16],
    preserve_dc: bool,
) -> (result: Result<Block4x4>)
    ensures
        match scaling_error(qp, scaling_list@, "4x4 scaling-list entries must be non-zero") {
            Some(error) => result == Err::<Block4x4, H264Error>(error),
            None => scales_to_4x4(
                result,
                scaled_4x4(
                    entries_4x4(*coefficients),
                    factors_4x4(qp, scaling_list@),
                    qp,
                    preserve_dc,
                ),
            ),
        },
{
    let prepared = PreparedInverseScale4x4::new(qp, scaling_list)?;
    let result = prepared.scale(coefficients, preserve_dc);
    proof {
        let ghost numbers = scaled_4x4(
            entries_4x4(*coefficients),
            factors_4x4(qp, scaling_list@),
            qp,
            preserve_dc,
        );
        let ghost prepared_numbers = scaled_4x4(
            entries_4x4(*coefficients),
            prepared.factors(),
            qp,
            preserve_dc,
        );
        lemma_same_scaling(
            entries_4x4(*coefficients),
            prepared.factors(),
            factors_4x4(qp, scaling_list@),
            qp,
            preserve_dc,
        );
        lemma_scales_to_same(result, prepared_numbers, numbers);
    }
    result
}

/// Scaling by equal factors gives equal numbers.
proof fn lemma_same_scaling(
    coefficients: Matrix,
    first: Matrix,
    second: Matrix,
    qp: u8,
    preserve_dc: bool,
)
    requires
        forall|row: int, column: int|
            #![trigger first(row, column)]
            0 <= row < 4 && 0 <= column < 4 ==> first(row, column) == second(row, column),
    ensures
        forall|row: int, column: int|
            #![trigger scaled_4x4(coefficients, first, qp, preserve_dc)(row, column)]
            #![trigger scaled_4x4(coefficients, second, qp, preserve_dc)(row, column)]
            0 <= row < 4 && 0 <= column < 4 ==> scaled_4x4(coefficients, first, qp, preserve_dc)(
                row,
                column,
            ) == scaled_4x4(coefficients, second, qp, preserve_dc)(row, column),
{
    assert forall|row: int, column: int|
        #![trigger scaled_4x4(coefficients, first, qp, preserve_dc)(row, column)]
        #![trigger scaled_4x4(coefficients, second, qp, preserve_dc)(row, column)]
        0 <= row < 4 && 0 <= column < 4 implies scaled_4x4(coefficients, first, qp, preserve_dc)(
        row,
        column,
    ) == scaled_4x4(coefficients, second, qp, preserve_dc)(row, column) by {
        assert(first(row, column) == second(row, column));
    }
}

/// Equal numbers are equally well scaled to.
proof fn lemma_scales_to_same(result: Result<Block4x4>, first: Matrix, second: Matrix)
    requires
        scales_to_4x4(result, first),
        forall|row: int, column: int|
            #![trigger first(row, column)]
            #![trigger second(row, column)]
            0 <= row < 4 && 0 <= column < 4 ==> first(row, column) == second(row, column),
    ensures
        scales_to_4x4(result, second),
{
    if result is Err {
        let (row, column) = choose|row: int, column: int|
            #![trigger first(row, column)]
            0 <= row < 4 && 0 <= column < 4 && !fits(first(row, column));
        assert(!fits(second(row, column)));
    }
}

/// One pass of the 4x4 inverse transform.
pub open spec fn transformed_4(values: spec_fn(int) -> int, index: int) -> int {
    let even_sum = values(0) + values(2);
    let even_difference = values(0) - values(2);
    let odd_difference = values(1) / 2 - values(3);
    let odd_sum = values(1) + values(3) / 2;
    if index == 0 {
        even_sum + odd_sum
    } else if index == 1 {
        even_difference + odd_difference
    } else if index == 2 {
        even_difference - odd_difference
    } else {
        even_sum - odd_sum
    }
}

/// The first pass over a row of a 4x4 block.
pub open spec fn transformed_row_4(numbers: Matrix, row: int, column: int) -> int {
    transformed_4(|c: int| numbers(row, c), column)
}

/// The residual of a 4x4 block: both passes, rounded.
pub open spec fn transformed_4x4(numbers: Matrix) -> Matrix {
    |row: int, column: int|
        (transformed_4(|r: int| transformed_row_4(numbers, r, column), row) + 32) / 64
}

/// The transform reads nothing outside the block.
proof fn lemma_transformed_4x4(first: Matrix, second: Matrix)
    requires
        forall|row: int, column: int|
            #![trigger second(row, column)]
            0 <= row < 4 && 0 <= column < 4 ==> first(row, column) == second(row, column),
    ensures
        forall|row: int, column: int|
            #![trigger transformed_4x4(first)(row, column)]
            #![trigger transformed_4x4(second)(row, column)]
            transformed_4x4(first)(row, column) == transformed_4x4(second)(row, column),
{
    assert forall|row: int, column: int|
        #![trigger transformed_4x4(first)(row, column)]
        #![trigger transformed_4x4(second)(row, column)]
        transformed_4x4(first)(row, column) == transformed_4x4(second)(row, column) by {
        assert forall|r: int| 0 <= r < 4 implies transformed_row_4(first, r, column)
            == #[trigger] transformed_row_4(second, r, column) by {
            assert(first(r, 0) == second(r, 0));
            assert(first(r, 1) == second(r, 1));
            assert(first(r, 2) == second(r, 2));
            assert(first(r, 3) == second(r, 3));
        }
        assert(transformed_row_4(first, 0, column) == transformed_row_4(second, 0, column));
        assert(transformed_row_4(first, 1, column) == transformed_row_4(second, 1, column));
        assert(transformed_row_4(first, 2, column) == transformed_row_4(second, 2, column));
        assert(transformed_row_4(first, 3, column) == transformed_row_4(second, 3, column));
    }
}

/// The residual of scaled numbers, or an overflow where one of them does not
/// fit.
pub open spec fn reconstructs_4x4(result: Result<Block4x4>, scaled: Matrix) -> bool {
    match result {
        Ok(block) => all_fit(scaled, 4) && holds_4x4(block, transformed_4x4(scaled)),
        Err(error) => error == H264Error::IntegerOverflow && !all_fit(scaled, 4),
    }
}

/// One pass, which grows the bound of its values by less than four.
fn inverse_transform_1d(values: [i64; 4], Ghost(bound): Ghost<int>) -> (transformed: [i64; 4])
    requires
        0 <= bound <= 0x100_0000_0000,
        forall|i: int| 0 <= i < 4 ==> -bound <= #[trigger] values[i] <= bound,
    ensures
        forall|i: int|
            0 <= i < 4 ==> #[trigger] transformed[i] == transformed_4(
                |k: int| values[k] as int,
                i,
            ),
        forall|i: int| 0 <= i < 4 ==> -4 * bound - 2 <= #[trigger] transformed[i] <= 4 * bound + 2,
{
    assert(-bound <= values[0] <= bound && -bound <= values[1] <= bound);
    assert(-bound <= values[2] <= bound && -bound <= values[3] <= bound);
    let e0: i64 = values[0] + values[2];
    let e1: i64 = values[0] - values[2];
    let e2: i64 = half(values[1]) - values[3];
    let e3: i64 = values[1] + half(values[3]);
    [e0 + e3, e1 + e2, e1 - e2, e0 - e3]
}

/// Applies the normative separable H.264 4x4 inverse integer transform.
pub fn inverse_transform_4x4(scaled: &Block4x4) -> (result: Result<Block4x4>)
    ensures
        result matches Ok(residual) && holds_4x4(residual, transformed_4x4(entries_4x4(*scaled))),
{
    let mut horizontal = [[0i64; 4]; 4];
    let mut row: usize = 0;
    while row < 4
        invariant
            row <= 4,
            forall|r: int, c: int|
                #![trigger horizontal[r][c]]
                0 <= r < row && 0 <= c < 4 ==> horizontal[r][c] == transformed_row_4(
                    entries_4x4(*scaled),
                    r,
                    c,
                ) && -0x2_0000_0002 <= horizontal[r][c] <= 0x2_0000_0002,
        decreases 4 - row,
    {
        let values = [
            scaled[row][0] as i64,
            scaled[row][1] as i64,
            scaled[row][2] as i64,
            scaled[row][3] as i64,
        ];
        let transformed = inverse_transform_1d(values, Ghost(0x8000_0000));
        assert forall|c: int| 0 <= c < 4 implies #[trigger] transformed[c] == transformed_row_4(
            entries_4x4(*scaled),
            row as int,
            c,
        ) by {}
        horizontal[row] = transformed;
        row = row + 1;
    }
    let mut residual: Block4x4 = [[0i32; 4]; 4];
    let mut column: usize = 0;
    while column < 4
        invariant
            column <= 4,
            forall|r: int, c: int|
                #![trigger horizontal[r][c]]
                0 <= r < 4 && 0 <= c < 4 ==> horizontal[r][c] == transformed_row_4(
                    entries_4x4(*scaled),
                    r,
                    c,
                ) && -0x2_0000_0002 <= horizontal[r][c] <= 0x2_0000_0002,
            forall|r: int, c: int|
                #![trigger residual[r][c]]
                0 <= r < 4 && 0 <= c < column ==> residual[r][c] == transformed_4x4(
                    entries_4x4(*scaled),
                )(r, c),
        decreases 4 - column,
    {
        let values = [
            horizontal[0][column],
            horizontal[1][column],
            horizontal[2][column],
            horizontal[3][column],
        ];
        let transformed = inverse_transform_1d(values, Ghost(0x2_0000_0002));
        let ghost before = residual;
        let mut row: usize = 0;
        while row < 4
            invariant
                row <= 4,
                column < 4,
                forall|r: int| 0 <= r < 4 ==> -0x8_0000_000a <= #[trigger] transformed[r] <= 0x8_0000_000a,
                forall|r: int, c: int|
                    #![trigger residual[r][c]]
                    0 <= r < 4 && 0 <= c < 4 && c != column ==> residual[r][c] == before[r][c],
                forall|r: int|
                    #![trigger residual[r][column as int]]
                    0 <= r < row ==> residual[r][column as int] == (transformed[r] + 32) / 64,
            decreases 4 - row,
        {
            let value: i64 = shift_right(transformed[row] + 32, 6);
            proof {
                lemma2_to64();
            }
            residual[row][column] = narrow(value)?;
            row = row + 1;
        }
        assert forall|r: int, c: int|
            #![trigger residual[r][c]]
            0 <= r < 4 && 0 <= c < column + 1 implies residual[r][c] == transformed_4x4(
            entries_4x4(*scaled),
        )(r, c) by {
            if c == column {
                assert(residual[r][column as int] == (transformed[r] + 32) / 64);
            } else {
                assert(residual[r][c] == before[r][c]);
            }
        }
        column = column + 1;
    }
    Ok(residual)
}

/// Runs inverse scan, inverse scaling, and the inverse integer transform.
pub fn reconstruct_residual_4x4(
    values: &[i32; 16],
    scan_mode: ScanMode,
    qp: u8,
    scaling_list: &[u8; 16],
    preserve_dc: bool,
) -> (result: Result<Block4x4>)
    ensures
        match scaling_error(qp, scaling_list@, "4x4 scaling-list entries must be non-zero") {
            Some(error) => result == Err::<Block4x4, H264Error>(error),
            None => reconstructs_4x4(
                result,
                scaled_4x4(
                    scanned_4x4(values@, scan_mode),
                    factors_4x4(qp, scaling_list@),
                    qp,
                    preserve_dc,
                ),
            ),
        },
{
    let prepared = PreparedInverseScale4x4::new(qp, scaling_list)?;
    let result = prepared.reconstruct(values, scan_mode, preserve_dc);
    proof {
        let coefficients = scanned_4x4(values@, scan_mode);
        let factors = factors_4x4(qp, scaling_list@);
        let first = scaled_4x4(coefficients, prepared.factors(), qp, preserve_dc);
        let second = scaled_4x4(coefficients, factors, qp, preserve_dc);
        lemma_same_scaling(coefficients, prepared.factors(), factors, qp, preserve_dc);
        lemma_transformed_4x4(first, second);
        if result is Err {
            let (row, column) = choose|row: int, column: int|
                #![trigger first(row, column)]
                0 <= row < 4 && 0 <= column < 4 && !fits(first(row, column));
            assert(!fits(second(row, column)));
        }
    }
    result
}

/// The column of the norm adjustments that an 8x8 position takes.
pub open spec fn norm_class_8x8(row: int, column: int) -> int {
    if row % 4 == 0 && column % 4 == 0 {
        0
    } else if row % 2 == 1 && column % 2 == 1 {
        1
    } else if row % 4 == 2 && column % 4 == 2 {
        2
    } else if row % 4 == 0 && column % 2 == 1 || row % 2 == 1 && column % 4 == 0 {
        3
    } else if row % 2 == 0 && column % 2 == 0 {
        4
    } else {
        5
    }
}

fn norm_adjust_8x8_index(row: usize, column: usize) -> (index: usize)
    ensures
        index == norm_class_8x8(row as int, column as int),
        index < 6,
{
    if row % 4 == 0 && column % 4 == 0 {
        0
    } else if row % 2 == 1 && column % 2 == 1 {
        1
    } else if row % 4 == 2 && column % 4 == 2 {
        2
    } else if row % 4 == 0 && column % 2 == 1 || row % 2 == 1 && column % 4 == 0 {
        3
    } else if row % 2 == 0 && column % 2 == 0 {
        4
    } else {
        5
    }
}

/// The factors of the 8x8 positions: the weight times the norm adjustment.
pub open spec fn factors_8x8(qp: u8, list: Seq<u8>) -> Matrix {
    |row: int, column: int|
        list[scan_8x8(ScanMode::Frame, row, column)] * NORM_ADJUST_8X8[qp as int
            % 6][norm_class_8x8(row, column)]
}

/// 8x8 coefficients after inverse quantization.
pub open spec fn scaled_8x8(coefficients: Matrix, factors: Matrix, qp: u8) -> Matrix {
    |row: int, column: int| scaled_by_qp(coefficients(row, column) * factors(row, column), qp, 6)
}

/// Norm adjustments of 8x8 positions are small.
proof fn lemma_norm_8x8(qp: u8, class: int)
    requires
        0 <= class < 6,
    ensures
        18 <= NORM_ADJUST_8X8[qp as int % 6][class] <= 58,
{
}

/// Applies the normative H.264 8x8 inverse quantization.
pub fn inverse_scale_8x8(coefficients: &Block8x8, qp: u8, scaling_list: &[u8; 64]) -> (result:
    Result<Block8x8>)
    ensures
        match scaling_error(qp, scaling_list@, "8x8 scaling-list entries must be non-zero") {
            Some(error) => result == Err::<Block8x8, H264Error>(error),
            None => scales_to_8x8(
                result,
                scaled_8x8(entries_8x8(*coefficients), factors_8x8(qp, scaling_list@), qp),
            ),
        },
{
    if qp > 51 {
        return Err(H264Error::InvalidSyntax("8-bit transform QP exceeds 51"));
    }
    if contains_zero(scaling_list) {
        return Err(H264Error::InvalidSyntax("8x8 scaling-list entries must be non-zero"));
    }
    let ghost numbers = scaled_8x8(
        entries_8x8(*coefficients),
        factors_8x8(qp, scaling_list@),
        qp,
    );
    let weights = inverse_scan_scaling_list_8x8(scaling_list);
    let mut scaled: Block8x8 = [[0i32; 8]; 8];
    let mut row: usize = 0;
    while row < 8
        invariant
            row <= 8,
            qp <= 51,
            !holds_zero(scaling_list@),
            numbers == scaled_8x8(
                entries_8x8(*coefficients),
                factors_8x8(qp, scaling_list@),
                qp,
            ),
            forall|r: int, c: int|
                #![trigger weights[r][c]]
                0 <= r < 8 && 0 <= c < 8 ==> weights[r][c] == scaling_list[scan_8x8(
                    ScanMode::Frame,
                    r,
                    c,
                )],
            forall|r: int, c: int|
                #![trigger scaled[r][c]]
                0 <= r < row && 0 <= c < 8 ==> scaled[r][c] == numbers(r, c),
            forall|r: int, c: int|
                #![trigger numbers(r, c)]
                0 <= r < row && 0 <= c < 8 ==> fits(numbers(r, c)),
        decreases 8 - row,
    {
        let mut column: usize = 0;
        while column < 8
            invariant
                row < 8,
                column <= 8,
                qp <= 51,
                !holds_zero(scaling_list@),
                numbers == scaled_8x8(
                    entries_8x8(*coefficients),
                    factors_8x8(qp, scaling_list@),
                    qp,
                ),
                forall|r: int, c: int|
                    #![trigger weights[r][c]]
                    0 <= r < 8 && 0 <= c < 8 ==> weights[r][c] == scaling_list[scan_8x8(
                        ScanMode::Frame,
                        r,
                        c,
                    )],
                forall|r: int, c: int|
                    #![trigger scaled[r][c]]
                    0 <= r < row && 0 <= c < 8 || r == row && 0 <= c < column ==> scaled[r][c]
                        == numbers(r, c),
                forall|r: int, c: int|
                    #![trigger numbers(r, c)]
                    0 <= r < row && 0 <= c < 8 || r == row && 0 <= c < column ==> fits(
                        numbers(r, c),
                    ),
            decreases 8 - column,
        {
            let class: usize = norm_adjust_8x8_index(row, column);
            proof {
                lemma_norm_8x8(qp, class as int);
            }
            let norm: i64 = NORM_ADJUST_8X8[(qp % 6) as usize][class] as i64;
            let weight: i64 = weights[row][column] as i64;
            let coefficient: i64 = coefficients[row][column] as i64;
            proof {
                lemma_product_bound(weight as int, norm as int, 255, 58);
                assert(0 <= weight * norm) by (nonlinear_arith)
                    requires
                        0 <= weight,
                        0 <= norm,
                ;
                lemma_product_bound(coefficient as int, weight * norm, 0x8000_0000, 14790);
            }
            let value: i64 = scale_by_qp(coefficient * (weight * norm), qp, 6);
            assert(value == numbers(row as int, column as int));
            scaled[row][column] = narrow(value)?;
            column = column + 1;
        }
        row = row + 1;
    }
    Ok(scaled)
}

/// The sums that the 8x8 inverse transform starts from.
pub open spec fn summed_8(values: spec_fn(int) -> int, index: int) -> int {
    if index == 0 {
        values(0) + values(4)
    } else if index == 1 {
        -values(3) + values(5) - values(7) - values(7) / 2
    } else if index == 2 {
        values(0) - values(4)
    } else if index == 3 {
        values(1) + values(7) - values(3) - values(3) / 2
    } else if index == 4 {
        values(2) / 2 - values(6)
    } else if index == 5 {
        -values(1) + values(7) + values(5) + values(5) / 2
    } else if index == 6 {
        values(2) + values(6) / 2
    } else {
        values(3) + values(5) + values(1) + values(1) / 2
    }
}

/// The second step of the 8x8 inverse transform, on the sums of the first.
pub open spec fn lifted_8(sums: spec_fn(int) -> int, index: int) -> int {
    if index == 0 {
        sums(0) + sums(6)
    } else if index == 1 {
        sums(1) + sums(7) / 4
    } else if index == 2 {
        sums(2) + sums(4)
    } else if index == 3 {
        sums(3) + sums(5) / 4
    } else if index == 4 {
        sums(2) - sums(4)
    } else if index == 5 {
        sums(3) / 4 - sums(5)
    } else if index == 6 {
        sums(0) - sums(6)
    } else {
        sums(7) - sums(1) / 4
    }
}

/// The last step of the 8x8 inverse transform.
pub open spec fn joined_8(parts: spec_fn(int) -> int, index: int) -> int {
    if index == 0 {
        parts(0) + parts(7)
    } else if index == 1 {
        parts(2) + parts(5)
    } else if index == 2 {
        parts(4) + parts(3)
    } else if index == 3 {
        parts(6) + parts(1)
    } else if index == 4 {
        parts(6) - parts(1)
    } else if index == 5 {
        parts(4) - parts(3)
    } else if index == 6 {
        parts(2) - parts(5)
    } else {
        parts(0) - parts(7)
    }
}

/// One pass of the 8x8 inverse transform.
pub open spec fn transformed_8(values: spec_fn(int) -> int, index: int) -> int {
    joined_8(|part: int| lifted_8(|sum: int| summed_8(values, sum), part), index)
}

/// The first pass over a row of an 8x8 block.
pub open spec fn transformed_row_8(numbers: Matrix, row: int, column: int) -> int {
    transformed_8(|c: int| numbers(row, c), column)
}

/// The residual of an 8x8 block: both passes, rounded.
pub open spec fn transformed_8x8(numbers: Matrix) -> Matrix {
    |row: int, column: int|
        (transformed_8(|r: int| transformed_row_8(numbers, r, column), row) + 32) / 64
}

/// A pass reads nothing but its eight values.
proof fn lemma_transformed_8(first: spec_fn(int) -> int, second: spec_fn(int) -> int, index: int)
    requires
        forall|k: int| 0 <= k < 8 ==> #[trigger] first(k) == second(k),
    ensures
        transformed_8(first, index) == transformed_8(second, index),
{
    assert(first(0) == second(0) && first(1) == second(1));
    assert(first(2) == second(2) && first(3) == second(3));
    assert(first(4) == second(4) && first(5) == second(5));
    assert(first(6) == second(6) && first(7) == second(7));
}

/// The transform reads nothing outside the block.
proof fn lemma_transformed_8x8(first: Matrix, second: Matrix)
    requires
        forall|row: int, column: int|
            #![trigger second(row, column)]
            0 <= row < 8 && 0 <= column < 8 ==> first(row, column) == second(row, column),
    ensures
        forall|row: int, column: int|
            #![trigger transformed_8x8(first)(row, column)]
            #![trigger transformed_8x8(second)(row, column)]
            transformed_8x8(first)(row, column) == transformed_8x8(second)(row, column),
{
    assert forall|row: int, column: int|
        #![trigger transformed_8x8(first)(row, column)]
        #![trigger transformed_8x8(second)(row, column)]
        transformed_8x8(first)(row, column) == transformed_8x8(second)(row, column) by {
        let columns_first = |r: int| transformed_row_8(first, r, column);
        let columns_second = |r: int| transformed_row_8(second, r, column);
        assert forall|r: int| 0 <= r < 8 implies #[trigger] columns_first(r) == columns_second(
            r,
        ) by {
            let row_first = |c: int| first(r, c);
            let row_second = |c: int| second(r, c);
            assert forall|c: int| 0 <= c < 8 implies #[trigger] row_first(c) == row_second(c) by {
                assert(first(r, c) == second(r, c));
            }
            lemma_transformed_8(row_first, row_second, column);
        }
        lemma_transformed_8(columns_first, columns_second, row);
    }
}

/// The residual of scaled numbers, or an overflow where one of them does not
/// fit.
pub open spec fn reconstructs_8x8(result: Result<Block8x8>, scaled: Matrix) -> bool {
    match result {
        Ok(block) => all_fit(scaled, 8) && holds_8x8(block, transformed_8x8(scaled)),
        Err(error) => error == H264Error::IntegerOverflow && !all_fit(scaled, 8),
    }
}

fn sums_8(values: &[i64; 8], Ghost(bound): Ghost<int>) -> (sums: [i64; 8])
    requires
        0 <= bound <= 0x100_0000_0000,
        forall|i: int| 0 <= i < 8 ==> -bound <= #[trigger] values[i] <= bound,
    ensures
        forall|i: int|
            0 <= i < 8 ==> #[trigger] sums[i] == summed_8(|k: int| values[k] as int, i),
        forall|i: int|
            #![trigger sums[i]]
            0 <= i < 8 ==> if i == 0 || i == 2 {
                -2 * bound <= sums[i] <= 2 * bound
            } else if i == 4 || i == 6 {
                -3 * bound - 1 <= 2 * sums[i] <= 3 * bound + 1
            } else {
                -7 * bound - 1 <= 2 * sums[i] <= 7 * bound + 1
            },
{
    assert(-bound <= values[0] <= bound && -bound <= values[1] <= bound);
    assert(-bound <= values[2] <= bound && -bound <= values[3] <= bound);
    assert(-bound <= values[4] <= bound && -bound <= values[5] <= bound);
    assert(-bound <= values[6] <= bound && -bound <= values[7] <= bound);
    [
        values[0] + values[4],
        -values[3] + values[5] - values[7] - half(values[7]),
        values[0] - values[4],
        values[1] + values[7] - values[3] - half(values[3]),
        half(values[2]) - values[6],
        -values[1] + values[7] + values[5] + half(values[5]),
        values[2] + half(values[6]),
        values[3] + values[5] + values[1] + half(values[1]),
    ]
}

fn parts_8(sums: &[i64; 8], Ghost(bound): Ghost<int>) -> (parts: [i64; 8])
    requires
        0 <= bound <= 0x100_0000_0000,
        forall|i: int|
            #![trigger sums[i]]
            0 <= i < 8 ==> if i == 0 || i == 2 {
                -2 * bound <= sums[i] <= 2 * bound
            } else if i == 4 || i == 6 {
                -3 * bound - 1 <= 2 * sums[i] <= 3 * bound + 1
            } else {
                -7 * bound - 1 <= 2 * sums[i] <= 7 * bound + 1
            },
    ensures
        forall|i: int| 0 <= i < 8 ==> #[trigger] parts[i] == lifted_8(|k: int| sums[k] as int, i),
        forall|i: int|
            #![trigger parts[i]]
            0 <= i < 8 ==> if i % 2 == 0 {
                -7 * bound - 1 <= 2 * parts[i] <= 7 * bound + 1
            } else {
                -35 * bound - 16 <= 8 * parts[i] <= 35 * bound + 16
            },
{
    assert(-2 * bound <= sums[0] <= 2 * bound && -2 * bound <= sums[2] <= 2 * bound);
    assert(-3 * bound - 1 <= 2 * sums[4] <= 3 * bound + 1);
    assert(-3 * bound - 1 <= 2 * sums[6] <= 3 * bound + 1);
    assert(-7 * bound - 1 <= 2 * sums[1] <= 7 * bound + 1);
    assert(-7 * bound - 1 <= 2 * sums[3] <= 7 * bound + 1);
    assert(-7 * bound - 1 <= 2 * sums[5] <= 7 * bound + 1);
    assert(-7 * bound - 1 <= 2 * sums[7] <= 7 * bound + 1);
    [
        sums[0] + sums[6],
        sums[1] + quarter(sums[7]),
        sums[2] + sums[4],
        sums[3] + quarter(sums[5]),
        sums[2] - sums[4],
        quarter(sums[3]) - sums[5],
        sums[0] - sums[6],
        sums[7] - quarter(sums[1]),
    ]
}

/// One pass, which grows the bound of its values by less than eight.
fn inverse_transform_8x8_1d(values: [i64; 8], Ghost(bound): Ghost<int>) -> (transformed: [i64; 8])
    requires
        0 <= bound <= 0x100_0000_0000,
        forall|i: int| 0 <= i < 8 ==> -bound <= #[trigger] values[i] <= bound,
    ensures
        forall|i: int|
            0 <= i < 8 ==> #[trigger] transformed[i] == transformed_8(
                |k: int| values[k] as int,
                i,
            ),
        forall|i: int|
            0 <= i < 8 ==> -63 * bound - 64 <= 8 * #[trigger] transformed[i] <= 63 * bound + 64,
{
    let e = sums_8(&values, Ghost(bound));
    let f = parts_8(&e, Ghost(bound));
    proof {
        let whole = |k: int| values[k] as int;
        let sums = |sum: int| summed_8(whole, sum);
        assert forall|i: int| 0 <= i < 8 implies #[trigger] f[i] == lifted_8(sums, i) by {
            assert(e[0] == sums(0) && e[1] == sums(1) && e[2] == sums(2) && e[3] == sums(3));
            assert(e[4] == sums(4) && e[5] == sums(5) && e[6] == sums(6) && e[7] == sums(7));
        }
        assert(f[0] == lifted_8(sums, 0) && f[1] == lifted_8(sums, 1));
        assert(f[2] == lifted_8(sums, 2) && f[3] == lifted_8(sums, 3));
        assert(f[4] == lifted_8(sums, 4) && f[5] == lifted_8(sums, 5));
        assert(f[6] == lifted_8(sums, 6) && f[7] == lifted_8(sums, 7));
    }
    [
        f[0] + f[7],
        f[2] + f[5],
        f[4] + f[3],
        f[6] + f[1],
        f[6] - f[1],
        f[4] - f[3],
        f[2] - f[5],
        f[0] - f[7],
    ]
}

/// Applies the normative separable H.264 8x8 inverse integer transform.
pub fn inverse_transform_8x8(scaled: &Block8x8) -> (result: Result<Block8x8>)
    ensures
        result matches Ok(residual) && holds_8x8(residual, transformed_8x8(entries_8x8(*scaled))),
{
    let mut horizontal = [[0i64; 8]; 8];
    let mut row: usize = 0;
    while row < 8
        invariant
            row <= 8,
            forall|r: int, c: int|
                #![trigger horizontal[r][c]]
                0 <= r < row && 0 <= c < 8 ==> horizontal[r][c] == transformed_row_8(
                    entries_8x8(*scaled),
                    r,
                    c,
                ) && -0x3_f000_0008 <= horizontal[r][c] <= 0x3_f000_0008,
        decreases 8 - row,
    {
        let values = [
            scaled[row][0] as i64,
            scaled[row][1] as i64,
            scaled[row][2] as i64,
            scaled[row][3] as i64,
            scaled[row][4] as i64,
            scaled[row][5] as i64,
            scaled[row][6] as i64,
            scaled[row][7] as i64,
        ];
        let transformed = inverse_transform_8x8_1d(values, Ghost(0x8000_0000));
        assert forall|c: int| 0 <= c < 8 implies #[trigger] transformed[c] == transformed_row_8(
            entries_8x8(*scaled),
            row as int,
            c,
        ) by {
            lemma_transformed_8(
                |k: int| values[k] as int,
                |k: int| entries_8x8(*scaled)(row as int, k),
                c,
            );
        }
        horizontal[row] = transformed;
        row = row + 1;
    }
    let mut residual: Block8x8 = [[0i32; 8]; 8];
    let mut column: usize = 0;
    while column < 8
        invariant
            column <= 8,
            forall|r: int, c: int|
                #![trigger horizontal[r][c]]
                0 <= r < 8 && 0 <= c < 8 ==> horizontal[r][c] == transformed_row_8(
                    entries_8x8(*scaled),
                    r,
                    c,
                ) && -0x3_f000_0008 <= horizontal[r][c] <= 0x3_f000_0008,
            forall|r: int, c: int|
                #![trigger residual[r][c]]
                0 <= r < 8 && 0 <= c < column ==> residual[r][c] == transformed_8x8(
                    entries_8x8(*scaled),
                )(r, c),
        decreases 8 - column,
    {
        let values = [
            horizontal[0][column],
            horizontal[1][column],
            horizontal[2][column],
            horizontal[3][column],
            horizontal[4][column],
            horizontal[5][column],
            horizontal[6][column],
            horizontal[7][column],
        ];
        let transformed = inverse_transform_8x8_1d(values, Ghost(0x3_f000_0008));
        let ghost columns = |r: int| transformed_row_8(entries_8x8(*scaled), r, column as int);
        assert forall|r: int| 0 <= r < 8 implies #[trigger] transformed[r] == transformed_8(
            columns,
            r,
        ) by {
            lemma_transformed_8(|k: int| values[k] as int, columns, r);
        }
        let ghost before = residual;
        let mut row: usize = 0;
        while row < 8
            invariant
                row <= 8,
                column < 8,
                forall|r: int|
                    0 <= r < 8 ==> -0x1f_0200_0048 <= #[trigger] transformed[r] <= 0x1f_0200_0048,
                forall|r: int, c: int|
                    #![trigger residual[r][c]]
                    0 <= r < 8 && 0 <= c < 8 && c != column ==> residual[r][c] == before[r][c],
                forall|r: int|
                    #![trigger residual[r][column as int]]
                    0 <= r < row ==> residual[r][column as int] == (transformed[r] + 32) / 64,
            decreases 8 - row,
        {
            let value: i64 = shift_right(transformed[row] + 32, 6);
            proof {
                lemma2_to64();
            }
            residual[row][column] = narrow(value)?;
            row = row + 1;
        }
        assert forall|r: int, c: int|
            #![trigger residual[r][c]]
            0 <= r < 8 && 0 <= c < column + 1 implies residual[r][c] == transformed_8x8(
            entries_8x8(*scaled),
        )(r, c) by {
            if c == column {
                assert(residual[r][column as int] == (transformed[r] + 32) / 64);
            } else {
                assert(residual[r][c] == before[r][c]);
            }
        }
        column = column + 1;
    }
    Ok(residual)
}

/// Runs the 8x8 inverse scan, inverse scaling, and inverse integer transform.
pub fn reconstruct_residual_8x8(
    values: &[i32; 64],
    scan_mode: ScanMode,
    qp: u8,
    scaling_list: &[u8; 64],
) -> (result: Result<Block8x8>)
    ensures
        match scaling_error(qp, scaling_list@, "8x8 scaling-list entries must be non-zero") {
            Some(error) => result == Err::<Block8x8, H264Error>(error),
            None => reconstructs_8x8(
                result,
                scaled_8x8(scanned_8x8(values@, scan_mode), factors_8x8(qp, scaling_list@), qp),
            ),
        },
{
    let coefficients = inverse_scan_8x8(values, scan_mode);
    let ghost factors = factors_8x8(qp, scaling_list@);
    let ghost numbers = scaled_8x8(scanned_8x8(values@, scan_mode), factors, qp);
    let ghost copied = scaled_8x8(entries_8x8(coefficients), factors, qp);
    assert forall|row: int, column: int|
        0 <= row < 8 && 0 <= column < 8 implies #[trigger] numbers(row, column) == copied(
        row,
        column,
    ) by {
        assert(coefficients[row][column] == values[scan_8x8(scan_mode, row, column)]);
    }
    let scaled = match inverse_scale_8x8(&coefficients, qp, scaling_list) {
        Ok(scaled) => scaled,
        Err(error) => {
            proof {
                if scaling_error(qp, scaling_list@, "8x8 scaling-list entries must be non-zero")
                    is None {
                    let (row, column) = choose|row: int, column: int|
                        #![trigger copied(row, column)]
                        0 <= row < 8 && 0 <= column < 8 && !fits(copied(row, column));
                    assert(!fits(numbers(row, column)));
                }
            }
            return Err(error);
        },
    };
    assert forall|row: int, column: int| 0 <= row < 8 && 0 <= column < 8 implies fits(
        #[trigger] numbers(row, column),
    ) by {
        assert(fits(copied(row, column)));
    }
    proof {
        assert forall|row: int, column: int| 0 <= row < 8 && 0 <= column < 8 implies entries_8x8(
            scaled,
        )(row, column) == #[trigger] numbers(row, column) by {
            assert(scaled[row][column] == copied(row, column));
        }
        lemma_transformed_8x8(entries_8x8(scaled), numbers);
    }
    inverse_transform_8x8(&scaled)
}

/// One pass of the Hadamard transform of four numbers.
pub open spec fn hadamard_4(values: spec_fn(int) -> int, index: int) -> int {
    if index == 0 {
        values(0) + values(1) + values(2) + values(3)
    } else if index == 1 {
        values(0) + values(1) - values(2) - values(3)
    } else if index == 2 {
        values(0) - values(1) - values(2) + values(3)
    } else {
        values(0) - values(1) + values(2) - values(3)
    }
}

/// The first Hadamard pass, over a column.
pub open spec fn hadamard_column(numbers: Matrix, row: int, column: int) -> int {
    hadamard_4(|r: int| numbers(r, column), row)
}

/// Both Hadamard passes over a 4x4 block.
pub open spec fn hadamard_4x4(numbers: Matrix) -> Matrix {
    |row: int, column: int| hadamard_4(|c: int| hadamard_column(numbers, row, c), column)
}

/// Intra16x16 luma DC coefficients after the Hadamard transform and scaling.
pub open spec fn luma_dc(coefficients: Matrix, qp: u8, list: Seq<u8>) -> Matrix {
    |row: int, column: int|
        scaled_by_qp(
            hadamard_4x4(coefficients)(row, column) * (list[0] * NORM_ADJUST_4X4[qp as int % 6][0]),
            qp,
            6,
        )
}

fn inverse_hadamard_4(values: [i64; 4], Ghost(bound): Ghost<int>) -> (transformed: [i64; 4])
    requires
        0 <= bound <= 0x100_0000_0000,
        forall|i: int| 0 <= i < 4 ==> -bound <= #[trigger] values[i] <= bound,
    ensures
        forall|i: int|
            0 <= i < 4 ==> #[trigger] transformed[i] == hadamard_4(|k: int| values[k] as int, i),
        forall|i: int| 0 <= i < 4 ==> -4 * bound <= #[trigger] transformed[i] <= 4 * bound,
{
    assert(-bound <= values[0] <= bound && -bound <= values[1] <= bound);
    assert(-bound <= values[2] <= bound && -bound <= values[3] <= bound);
    let sum_01: i64 = values[0] + values[1];
    let difference_01: i64 = values[0] - values[1];
    let sum_23: i64 = values[2] + values[3];
    let difference_23: i64 = values[2] - values[3];
    [
        sum_01 + sum_23,
        sum_01 - sum_23,
        difference_01 - difference_23,
        difference_01 + difference_23,
    ]
}

/// The factor of DC coefficients.
fn dc_level_scale(qp: u8, scaling_list: &[u8; 16]) -> (factor: i64)
    ensures
        factor == scaling_list[0] * NORM_ADJUST_4X4[qp as int % 6][0],
        0 <= factor <= 7395,
{
    proof {
        lemma_norm_4x4(qp, 0, 0);
    }
    let norm: i64 = NORM_ADJUST_4X4[(qp % 6) as usize][0] as i64;
    let weight: i64 = scaling_list[0] as i64;
    proof {
        lemma_product_bound(weight as int, norm as int, 255, 29);
        assert(0 <= weight * norm) by (nonlinear_arith)
            requires
                0 <= weight,
                0 <= norm,
        ;
    }
    weight * norm
}

/// Applies the Intra16x16 luma DC inverse Hadamard transform and scaling.
pub fn inverse_transform_luma_dc_4x4(
    values: &[i32; 16],
    scan_mode: ScanMode,
    qp: u8,
    scaling_list: &[u8; 16],
) -> (result: Result<Block4x4>)
    ensures
        match scaling_error(qp, scaling_list@, "4x4 scaling-list entries must be non-zero") {
            Some(error) => result == Err::<Block4x4, H264Error>(error),
            None => scales_to_4x4(
                result,
                luma_dc(scanned_4x4(values@, scan_mode), qp, scaling_list@),
            ),
        },
{
    validate_qp_and_scaling_list(qp, scaling_list)?;
    let coefficients = inverse_scan_4x4(values, scan_mode);
    let ghost scanned = scanned_4x4(values@, scan_mode);
    let mut vertical = [[0i64; 4]; 4];
    let mut column: usize = 0;
    while column < 4
        invariant
            column <= 4,
            holds_4x4(coefficients, scanned),
            forall|r: int, c: int|
                #![trigger vertical[r][c]]
                0 <= r < 4 && 0 <= c < column ==> vertical[r][c] == hadamard_column(scanned, r, c)
                    && -0x2_0000_0000 <= vertical[r][c] <= 0x2_0000_0000,
        decreases 4 - column,
    {
        let column_values = [
            coefficients[0][column] as i64,
            coefficients[1][column] as i64,
            coefficients[2][column] as i64,
            coefficients[3][column] as i64,
        ];
        let transformed = inverse_hadamard_4(column_values, Ghost(0x8000_0000));
        assert forall|r: int| 0 <= r < 4 implies #[trigger] transformed[r] == hadamard_column(
            scanned,
            r,
            column as int,
        ) by {}
        let ghost before = vertical;
        let mut row: usize = 0;
        while row < 4
            invariant
                row <= 4,
                column < 4,
                forall|r: int, c: int|
                    #![trigger vertical[r][c]]
                    0 <= r < 4 && 0 <= c < 4 && c != column ==> vertical[r][c] == before[r][c],
                forall|r: int|
                    #![trigger vertical[r][column as int]]
                    0 <= r < row ==> vertical[r][column as int] == transformed[r],
            decreases 4 - row,
        {
            vertical[row][column] = transformed[row];
            row = row + 1;
        }
        assert forall|r: int, c: int|
            #![trigger vertical[r][c]]
            0 <= r < 4 && 0 <= c < column + 1 implies vertical[r][c] == hadamard_column(
            scanned,
            r,
            c,
        ) && -0x2_0000_0000 <= vertical[r][c] <= 0x2_0000_0000 by {
            if c == column {
                assert(vertical[r][column as int] == transformed[r]);
            } else {
                assert(vertical[r][c] == before[r][c]);
            }
        }
        column = column + 1;
    }
    let level_scale: i64 = dc_level_scale(qp, scaling_list);
    let ghost numbers = luma_dc(scanned, qp, scaling_list@);
    let mut dc: Block4x4 = [[0i32; 4]; 4];
    let mut row: usize = 0;
    while row < 4
        invariant
            row <= 4,
            qp <= 51,
            !holds_zero(scaling_list@),
            scanned == scanned_4x4(values@, scan_mode),
            numbers == luma_dc(scanned, qp, scaling_list@),
            level_scale == scaling_list[0] * NORM_ADJUST_4X4[qp as int % 6][0],
            0 <= level_scale <= 7395,
            forall|r: int, c: int|
                #![trigger vertical[r][c]]
                0 <= r < 4 && 0 <= c < 4 ==> vertical[r][c] == hadamard_column(scanned, r, c)
                    && -0x2_0000_0000 <= vertical[r][c] <= 0x2_0000_0000,
            forall|r: int, c: int|
                #![trigger dc[r][c]]
                0 <= r < row && 0 <= c < 4 ==> dc[r][c] == numbers(r, c),
            forall|r: int, c: int|
                #![trigger numbers(r, c)]
                0 <= r < row && 0 <= c < 4 ==> fits(numbers(r, c)),
        decreases 4 - row,
    {
        let transformed = inverse_hadamard_4(vertical[row], Ghost(0x2_0000_0000));
        assert forall|c: int| 0 <= c < 4 implies #[trigger] transformed[c] == hadamard_4x4(scanned)(
            row as int,
            c,
        ) by {
            assert(vertical[row as int][0] == hadamard_column(scanned, row as int, 0));
            assert(vertical[row as int][1] == hadamard_column(scanned, row as int, 1));
            assert(vertical[row as int][2] == hadamard_column(scanned, row as int, 2));
            assert(vertical[row as int][3] == hadamard_column(scanned, row as int, 3));
        }
        let mut column: usize = 0;
        while column < 4
            invariant
                row < 4,
                column <= 4,
                qp <= 51,
                !holds_zero(scaling_list@),
                scanned == scanned_4x4(values@, scan_mode),
                numbers == luma_dc(scanned, qp, scaling_list@),
                level_scale == scaling_list[0] * NORM_ADJUST_4X4[qp as int % 6][0],
                0 <= level_scale <= 7395,
                forall|c: int|
                    0 <= c < 4 ==> #[trigger] transformed[c] == hadamard_4x4(scanned)(
                        row as int,
                        c,
                    ) && -0x8_0000_0000 <= transformed[c] <= 0x8_0000_0000,
                forall|r: int, c: int|
                    #![trigger dc[r][c]]
                    0 <= r < row && 0 <= c < 4 || r == row && 0 <= c < column ==> dc[r][c]
                        == numbers(r, c),
                forall|r: int, c: int|
                    #![trigger numbers(r, c)]
                    0 <= r < row && 0 <= c < 4 || r == row && 0 <= c < column ==> fits(
                        numbers(r, c),
                    ),
            decreases 4 - column,
        {
            let number: i64 = transformed[column];
            proof {
                lemma_product_bound(number as int, level_scale as int, 0x8_0000_0000, 7395);
            }
            let value: i64 = scale_by_qp(number * level_scale, qp, 6);
            assert(value == numbers(row as int, column as int));
            dc[row][column] = narrow(value)?;
            column = column + 1;
        }
        row = row + 1;
    }
    Ok(dc)
}

/// The 2x2 Hadamard transform of four chroma DC coefficients.
pub open spec fn hadamard_2x2(values: Seq<i32>) -> Matrix {
    |row: int, column: int|
        values[0] + (if column == 0 {
            values[1] as int
        } else {
            -values[1]
        }) + (if row == 0 {
            values[2] as int
        } else {
            -values[2]
        }) + (if row == column {
            values[3] as int
        } else {
            -values[3]
        })
}

/// 4:2:0 chroma DC coefficients after the Hadamard transform and scaling.
pub open spec fn chroma_dc(values: Seq<i32>, qp: u8, list: Seq<u8>) -> Matrix {
    |row: int, column: int|
        hadamard_2x2(values)(row, column) * (list[0] * NORM_ADJUST_4X4[qp as int % 6][0]) * pow2(
            (qp / 6) as nat,
        ) / 32
}

fn scale_chroma_dc(number: i64, level_scale: i64, qp: u8) -> (result: Result<i32>)
    requires
        -0x2_0000_0000 <= number <= 0x2_0000_0000,
        0 <= level_scale <= 7395,
        qp <= 51,
    ensures
        ({
            let value = number * level_scale * pow2((qp / 6) as nat) / 32;
            match result {
                Ok(scaled) => scaled == value,
                Err(error) => error == H264Error::IntegerOverflow && !fits(value),
            }
        }),
{
    let factor: i64 = power((qp / 6) as u32);
    proof {
        lemma2_to64();
        lemma_product_bound(number as int, level_scale as int, 0x2_0000_0000, 7395);
        lemma_product_bound(number * level_scale, factor as int, 0x39c6_0000_0000, 256);
    }
    narrow(shift_right(number * level_scale * factor, 5))
}

/// Applies the 4:2:0 chroma DC 2x2 inverse Hadamard transform and scaling.
pub fn inverse_transform_chroma_dc_420(
    values: &[i32; 4],
    qp: u8,
    scaling_list: &[u8; 16],
) -> (result: Result<[[i32; 2]; 2]>)
    ensures
        match scaling_error(qp, scaling_list@, "4x4 scaling-list entries must be non-zero") {
            Some(error) => result == Err::<[[i32; 2]; 2], H264Error>(error),
            None => {
                let numbers = chroma_dc(values@, qp, scaling_list@);
                match result {
                    Ok(dc) => {
                        &&& dc[0][0] == numbers(0, 0)
                        &&& dc[0][1] == numbers(0, 1)
                        &&& dc[1][0] == numbers(1, 0)
                        &&& dc[1][1] == numbers(1, 1)
                    },
                    Err(error) => error == H264Error::IntegerOverflow && !all_fit(numbers, 2),
                }
            },
        },
{
    validate_qp_and_scaling_list(qp, scaling_list)?;
    let c00: i64 = values[0] as i64;
    let c01: i64 = values[1] as i64;
    let c10: i64 = values[2] as i64;
    let c11: i64 = values[3] as i64;
    let level_scale: i64 = dc_level_scale(qp, scaling_list);
    let ghost numbers = chroma_dc(values@, qp, scaling_list@);
    assert(all_fit(numbers, 2) ==> fits(numbers(0, 0)) && fits(numbers(0, 1)) && fits(numbers(1, 0))
        && fits(numbers(1, 1)));
    let top_left: i32 = scale_chroma_dc(c00 + c01 + c10 + c11, level_scale, qp)?;
    let top_right: i32 = scale_chroma_dc(c00 - c01 + c10 - c11, level_scale, qp)?;
    let bottom_left: i32 = scale_chroma_dc(c00 + c01 - c10 - c11, level_scale, qp)?;
    let bottom_right: i32 = scale_chroma_dc(c00 - c01 - c10 + c11, level_scale, qp)?;
    Ok([[top_left, top_right], [bottom_left, bottom_right]])
}

#[derive(Debug, Clone, PartialEq, Eq)]
pub struct ResolvedScalingLists4x4 {
    lists: [[u8; 16]; 6],
}

#[derive(Debug, Clone, PartialEq, Eq)]
pub struct ResolvedScalingLists8x8 {
    lists: [[u8; 64]; 2],
}

impl View for ResolvedScalingLists4x4 {
    type V = Seq<Seq<u8>>;

    closed spec fn view(&self) -> Seq<Seq<u8>> {
        Seq::new(6, |index: int| self.lists[index]@)
    }
}

impl View for ResolvedScalingLists8x8 {
    type V = Seq<Seq<u8>>;

    closed spec fn view(&self) -> Seq<Seq<u8>> {
        Seq::new(2, |index: int| self.lists[index]@)
    }
}

impl ResolvedScalingLists8x8 {
    pub fn get(&self, prediction: PredictionClass) -> (list: &[u8; 64])
        ensures
            list@ == self@[match prediction {
                PredictionClass::Intra => 0,
                PredictionClass::Inter => 1int,
            }],
    {
        match prediction {
            PredictionClass::Intra => &self.lists[0],
            PredictionClass::Inter => &self.lists[1],
        }
    }
}

impl ResolvedScalingLists4x4 {
    pub fn get(&self, prediction: PredictionClass, component: ColorComponent) -> (list: &[u8; 16])
        ensures
            list@ == self@[(match prediction {
                PredictionClass::Intra => 0,
                PredictionClass::Inter => 3int,
            }) + (match component {
                ColorComponent::Luma => 0,
                ColorComponent::Cb => 1,
                ColorComponent::Cr => 2int,
            })],
    {
        let prediction_offset: usize = match prediction {
            PredictionClass::Intra => 0,
            PredictionClass::Inter => 3,
        };
        let component_offset: usize = match component {
            ColorComponent::Luma => 0,
            ColorComponent::Cb => 1,
            ColorComponent::Cr => 2,
        };
        &self.lists[prediction_offset + component_offset]
    }
}

/// The default lists of the 4x4 positions.
pub open spec fn default_lists_4x4() -> Seq<Seq<u8>> {
    Seq::new(
        6,
        |index: int|
            if index < 3 {
                DEFAULT_SCALING_LIST_4X4_INTRA@
            } else {
                DEFAULT_SCALING_LIST_4X4_INTER@
            },
    )
}

/// The default lists of the 8x8 positions.
pub open spec fn default_lists_8x8() -> Seq<Seq<u8>> {
    seq![DEFAULT_SCALING_LIST_8X8_INTRA@, DEFAULT_SCALING_LIST_8X8_INTER@]
}

/// A list that is there, names no default, and has another length than `size`.
pub open spec fn wrong_length(list: Option<ScalingListView>, size: int) -> bool {
    list matches Some(list) && !list.use_default && list.values.len() != size
}

/// The 4x4 list of a position: its own or its default where the list is there,
/// the fallback at the first position of a prediction class, and elsewhere that
/// of the position before.
pub open spec fn resolved_list_4x4(
    lists: Seq<Option<ScalingListView>>,
    fallback: Seq<Seq<u8>>,
    index: int,
) -> Seq<u8>
    decreases index,
{
    match lists[index] {
        Some(list) => if list.use_default {
            default_lists_4x4()[index]
        } else {
            list.values
        },
        None => if index <= 0 || index == 3 {
            fallback[index]
        } else {
            resolved_list_4x4(lists, fallback, index - 1)
        },
    }
}

/// The six 4x4 lists of a set of matrices.
pub open spec fn resolved_4x4(
    lists: Seq<Option<ScalingListView>>,
    fallback: Seq<Seq<u8>>,
    too_few: &'static str,
) -> Result<Seq<Seq<u8>>> {
    if lists.len() < 6 {
        Err(H264Error::InvalidSyntax(too_few))
    } else if exists|index: int| 0 <= index < 6 && wrong_length(#[trigger] lists[index], 16) {
        Err(H264Error::InvalidSyntax("4x4 scaling list does not contain 16 entries"))
    } else {
        Ok(Seq::new(6, |index: int| resolved_list_4x4(lists, fallback, index)))
    }
}

/// The six 4x4 lists of a sequence.
pub open spec fn sequence_lists_4x4(sequence: Option<Seq<Option<ScalingListView>>>) -> Result<
    Seq<Seq<u8>>,
> {
    match sequence {
        None => Ok(Seq::new(6, |index: int| FLAT_SCALING_LIST_4X4@)),
        Some(lists) => resolved_4x4(
            lists,
            default_lists_4x4(),
            "sequence scaling matrices contain fewer than six 4x4 lists",
        ),
    }
}

/// The six 4x4 lists of a picture.
pub open spec fn picture_lists_4x4(
    sequence: Option<Seq<Option<ScalingListView>>>,
    picture: Option<Seq<Option<ScalingListView>>>,
) -> Result<Seq<Seq<u8>>> {
    match sequence_lists_4x4(sequence) {
        Err(error) => Err(error),
        Ok(sequence_lists) => match picture {
            None => Ok(sequence_lists),
            Some(lists) => resolved_4x4(
                lists,
                if sequence is Some {
                    sequence_lists
                } else {
                    default_lists_4x4()
                },
                "picture scaling matrices contain fewer than six 4x4 lists",
            ),
        },
    }
}

/// The two 8x8 lists of a set of matrices.
pub open spec fn resolved_8x8(
    lists: Seq<Option<ScalingListView>>,
    fallback: Seq<Seq<u8>>,
    too_few: &'static str,
) -> Result<Seq<Seq<u8>>> {
    if lists.len() < 8 {
        Err(H264Error::InvalidSyntax(too_few))
    } else if wrong_length(lists[6], 64) || wrong_length(lists[7], 64) {
        Err(H264Error::InvalidSyntax("8x8 scaling list does not contain 64 entries"))
    } else {
        Ok(
            Seq::new(
                2,
                |index: int|
                    match lists[6 + index] {
                        Some(list) => if list.use_default {
                            default_lists_8x8()[index]
                        } else {
                            list.values
                        },
                        None => fallback[index],
                    },
            ),
        )
    }
}

/// The two 8x8 lists of a sequence.
pub open spec fn sequence_lists_8x8(sequence: Option<Seq<Option<ScalingListView>>>) -> Result<
    Seq<Seq<u8>>,
> {
    match sequence {
        None => Ok(Seq::new(2, |index: int| FLAT_SCALING_LIST_8X8@)),
        Some(lists) => resolved_8x8(
            lists,
            default_lists_8x8(),
            "sequence scaling matrices contain fewer than two 8x8 lists",
        ),
    }
}

/// The two 8x8 lists of a picture.
pub open spec fn picture_lists_8x8(
    sequence: Option<Seq<Option<ScalingListView>>>,
    picture: Option<Seq<Option<ScalingListView>>>,
) -> Result<Seq<Seq<u8>>> {
    match sequence_lists_8x8(sequence) {
        Err(error) => Err(error),
        Ok(sequence_lists) => match picture {
            None => Ok(sequence_lists),
            Some(lists) => resolved_8x8(
                lists,
                if sequence is Some {
                    sequence_lists
                } else {
                    default_lists_8x8()
                },
                "picture scaling matrices contain fewer than two 8x8 lists",
            ),
        },
    }
}

/// The views of matrices behind an optional reference.
pub open spec fn optional_matrices(matrices: Option<&ScalingMatrices>) -> Option<
    Seq<Option<ScalingListView>>,
> {
    match matrices {
        Some(matrices) => Some(matrices@),
        None => None,
    }
}

/// A result holds these lists.
pub open spec fn resolves_4x4(
    result: Result<[[u8; 16]; 6]>,
    lists: Result<Seq<Seq<u8>>>,
) -> bool {
    match (result, lists) {
        (Ok(array), Ok(lists)) => Seq::new(6, |index: int| array[index]@) == lists,
        (Err(error), Err(expected)) => error == expected,
        _ => false,
    }
}

/// A result holds these lists.
pub open spec fn resolves_8x8(
    result: Result<[[u8; 64]; 2]>,
    lists: Result<Seq<Seq<u8>>>,
) -> bool {
    match (result, lists) {
        (Ok(array), Ok(lists)) => Seq::new(2, |index: int| array[index]@) == lists,
        (Err(error), Err(expected)) => error == expected,
        _ => false,
    }
}

fn default_scaling_list_4x4(index: usize) -> (list: [u8; 16])
    requires
        index < 6,
    ensures
        list@ == default_lists_4x4()[index as int],
{
    if index < 3 {
        DEFAULT_SCALING_LIST_4X4_INTRA
    } else {
        DEFAULT_SCALING_LIST_4X4_INTER
    }
}

fn default_scaling_list_8x8(index: usize) -> (list: [u8; 64])
    requires
        index < 2,
    ensures
        list@ == default_lists_8x8()[index as int],
{
    if index == 0 {
        DEFAULT_SCALING_LIST_8X8_INTRA
    } else {
        DEFAULT_SCALING_LIST_8X8_INTER
    }
}

fn copy_values<const SIZE: usize>(values: &Vec<u8>) -> (list: [u8; SIZE])
    requires
        values.len() == SIZE,
    ensures
        list@ == values@,
{
    let mut list = [0u8; SIZE];
    let mut index: usize = 0;
    while index < SIZE
        invariant
            index <= SIZE,
            values.len() == SIZE,
            forall|i: int| 0 <= i < index ==> list[i] == values[i],
        decreases SIZE - index,
    {
        list[index] = values[index];
        index = index + 1;
    }
    assert(list@ =~= values@);
    list
}

fn resolve_present_scaling_list_4x4(list: &ScalingList, index: usize) -> (result: Result<[u8; 16]>)
    requires
        index < 6,
    ensures
        match result {
            Ok(resolved) => !wrong_length(Some(list@), 16) && resolved@ == if list.use_default {
                default_lists_4x4()[index as int]
            } else {
                list.values@
            },
            Err(error) => wrong_length(Some(list@), 16) && error == H264Error::InvalidSyntax(
                "4x4 scaling list does not contain 16 entries",
            ),
        },
{
    if list.use_default {
        return Ok(default_scaling_list_4x4(index));
    }
    if list.values.len() != 16 {
        return Err(H264Error::InvalidSyntax("4x4 scaling list does not contain 16 entries"));
    }
    Ok(copy_values(&list.values))
}

fn resolve_present_scaling_list_8x8(list: &ScalingList, index: usize) -> (result: Result<[u8; 64]>)
    requires
        index < 2,
    ensures
        match result {
            Ok(resolved) => !wrong_length(Some(list@), 64) && resolved@ == if list.use_default {
                default_lists_8x8()[index as int]
            } else {
                list.values@
            },
            Err(error) => wrong_length(Some(list@), 64) && error == H264Error::InvalidSyntax(
                "8x8 scaling list does not contain 64 entries",
            ),
        },
{
    if list.use_default {
        return Ok(default_scaling_list_8x8(index));
    }
    if list.values.len() != 64 {
        return Err(H264Error::InvalidSyntax("8x8 scaling list does not contain 64 entries"));
    }
    Ok(copy_values(&list.values))
}

fn resolve_lists_4x4(
    matrices: &ScalingMatrices,
    fallback: &[[u8; 16]; 6],
    too_few: &'static str,
) -> (result: Result<[[u8; 16]; 6]>)
    ensures
        resolves_4x4(
            result,
            resolved_4x4(matrices@, Seq::new(6, |index: int| fallback[index]@), too_few),
        ),
{
    if matrices.lists.len() < 6 {
        return Err(H264Error::InvalidSyntax(too_few));
    }
    let ghost views = matrices@;
    let ghost fallbacks = Seq::new(6, |index: int| fallback[index]@);
    let mut lists = [[0u8; 16]; 6];
    let mut index: usize = 0;
    while index < 6
        invariant
            index <= 6,
            matrices.lists.len() >= 6,
            views == matrices@,
            fallbacks == Seq::new(6, |index: int| fallback[index]@),
            forall|i: int| 0 <= i < index ==> !wrong_length(#[trigger] views[i], 16),
            forall|i: int|
                0 <= i < index ==> (#[trigger] lists[i])@ == resolved_list_4x4(views, fallbacks, i),
        decreases 6 - index,
    {
        assert(views[index as int] == list_view(matrices.lists[index as int]));
        let list: [u8; 16] = match &matrices.lists[index] {
            Some(list) => match resolve_present_scaling_list_4x4(list, index) {
                Ok(list) => list,
                Err(error) => {
                    assert(wrong_length(views[index as int], 16));
                    return Err(error);
                },
            },
            None => if index == 0 || index == 3 {
                fallback[index]
            } else {
                lists[index - 1]
            },
        };
        lists[index] = list;
        index = index + 1;
    }
    assert(Seq::new(6, |i: int| lists[i]@) =~= Seq::new(
        6,
        |i: int| resolved_list_4x4(views, fallbacks, i),
    ));
    Ok(lists)
}

fn resolve_lists_8x8(
    matrices: &ScalingMatrices,
    fallback: &[[u8; 64]; 2],
    too_few: &'static str,
) -> (result: Result<[[u8; 64]; 2]>)
    ensures
        resolves_8x8(
            result,
            resolved_8x8(matrices@, Seq::new(2, |index: int| fallback[index]@), too_few),
        ),
{
    if matrices.lists.len() < 8 {
        return Err(H264Error::InvalidSyntax(too_few));
    }
    assert(matrices@[6] == list_view(matrices.lists[6]));
    assert(matrices@[7] == list_view(matrices.lists[7]));
    let intra: [u8; 64] = match &matrices.lists[6] {
        Some(list) => resolve_present_scaling_list_8x8(list, 0)?,
        None => fallback[0],
    };
    let inter: [u8; 64] = match &matrices.lists[7] {
        Some(list) => resolve_present_scaling_list_8x8(list, 1)?,
        None => fallback[1],
    };
    let lists = [intra, inter];
    proof {
        let fallbacks = Seq::new(2, |index: int| fallback[index]@);
        let expected = resolved_8x8(matrices@, fallbacks, too_few);
        assert(Seq::new(2, |i: int| lists[i]@) =~= expected->Ok_0);
    }
    Ok(lists)
}

fn resolve_sequence_scaling_lists_4x4(sequence: Option<&ScalingMatrices>) -> (result: Result<
    [[u8; 16]; 6],
>)
    ensures
        resolves_4x4(result, sequence_lists_4x4(optional_matrices(sequence))),
{
    match sequence {
        None => {
            let lists = [FLAT_SCALING_LIST_4X4; 6];
            assert(Seq::new(6, |index: int| lists[index]@) =~= Seq::new(
                6,
                |index: int| FLAT_SCALING_LIST_4X4@,
            ));
            Ok(lists)
        },
        Some(sequence) => {
            let defaults = default_array_4x4();
            resolve_lists_4x4(
                sequence,
                &defaults,
                "sequence scaling matrices contain fewer than six 4x4 lists",
            )
        },
    }
}

fn resolve_sequence_scaling_lists_8x8(sequence: Option<&ScalingMatrices>) -> (result: Result<
    [[u8; 64]; 2],
>)
    ensures
        resolves_8x8(result, sequence_lists_8x8(optional_matrices(sequence))),
{
    match sequence {
        None => {
            let lists = [FLAT_SCALING_LIST_8X8; 2];
            assert(Seq::new(2, |index: int| lists[index]@) =~= Seq::new(
                2,
                |index: int| FLAT_SCALING_LIST_8X8@,
            ));
            Ok(lists)
        },
        Some(sequence) => {
            let defaults = default_array_8x8();
            resolve_lists_8x8(
                sequence,
                &defaults,
                "sequence scaling matrices contain fewer than two 8x8 lists",
            )
        },
    }
}

fn default_array_4x4() -> (lists: [[u8; 16]; 6])
    ensures
        Seq::new(6, |index: int| lists[index]@) == default_lists_4x4(),
{
    let lists = [
        default_scaling_list_4x4(0),
        default_scaling_list_4x4(1),
        default_scaling_list_4x4(2),
        default_scaling_list_4x4(3),
        default_scaling_list_4x4(4),
        default_scaling_list_4x4(5),
    ];
    assert(Seq::new(6, |index: int| lists[index]@) =~= default_lists_4x4());
    lists
}

fn default_array_8x8() -> (lists: [[u8; 64]; 2])
    ensures
        Seq::new(2, |index: int| lists[index]@) == default_lists_8x8(),
{
    let lists = [default_scaling_list_8x8(0), default_scaling_list_8x8(1)];
    assert(Seq::new(2, |index: int| lists[index]@) =~= default_lists_8x8());
    lists
}

/// Resolves SPS/PPS 4x4 scaling-list fallbacks into six concrete lists.
pub fn resolve_scaling_lists_4x4(
    sequence: Option<&ScalingMatrices>,
    picture: Option<&ScalingMatrices>,
) -> (result: Result<ResolvedScalingLists4x4>)
    ensures
        match picture_lists_4x4(optional_matrices(sequence), optional_matrices(picture)) {
            Ok(lists) => result matches Ok(resolved) && resolved@ == lists,
            Err(error) => result == Err::<ResolvedScalingLists4x4, H264Error>(error),
        },
{
    let sequence_lists = resolve_sequence_scaling_lists_4x4(sequence)?;
    match picture {
        None => Ok(ResolvedScalingLists4x4 { lists: sequence_lists }),
        Some(picture) => {
            let fallback = match sequence {
                Some(_) => sequence_lists,
                None => default_array_4x4(),
            };
            let lists = resolve_lists_4x4(
                picture,
                &fallback,
                "picture scaling matrices contain fewer than six 4x4 lists",
            )?;
            Ok(ResolvedScalingLists4x4 { lists })
        },
    }
}

/// Resolves the two 4:2:0 luma 8x8 scaling-list fallbacks.
pub fn resolve_scaling_lists_8x8(
    sequence: Option<&ScalingMatrices>,
    picture: Option<&ScalingMatrices>,
) -> (result: Result<ResolvedScalingLists8x8>)
    ensures
        match picture_lists_8x8(optional_matrices(sequence), optional_matrices(picture)) {
            Ok(lists) => result matches Ok(resolved) && resolved@ == lists,
            Err(error) => result == Err::<ResolvedScalingLists8x8, H264Error>(error),
        },
{
    let sequence_lists = resolve_sequence_scaling_lists_8x8(sequence)?;
    match picture {
        None => Ok(ResolvedScalingLists8x8 { lists: sequence_lists }),
        Some(picture) => {
            let fallback = match sequence {
                Some(_) => sequence_lists,
                None => default_array_8x8(),
            };
            let lists = resolve_lists_8x8(
                picture,
                &fallback,
                "picture scaling matrices contain fewer than two 8x8 lists",
            )?;
            Ok(ResolvedScalingLists8x8 { lists })
        },
    }
}

/// No two positions of a 4x4 block take the same coefficient of a list.
pub proof fn law_scan_4x4_is_a_permutation(
    mode: ScanMode,
    row: int,
    column: int,
    other_row: int,
    other_column: int,
)
    requires
        0 <= row < 4,
        0 <= column < 4,
        0 <= other_row < 4,
        0 <= other_column < 4,
        row != other_row || column != other_column,
    ensures
        0 <= scan_4x4(mode, row, column) < 16,
        scan_4x4(mode, row, column) != scan_4x4(mode, other_row, other_column),
{
}

/// No two positions of an 8x8 block take the same coefficient of a list.
pub proof fn law_scan_8x8_is_a_permutation(
    mode: ScanMode,
    row: int,
    column: int,
    other_row: int,
    other_column: int,
)
    requires
        0 <= row < 8,
        0 <= column < 8,
        0 <= other_row < 8,
        0 <= other_column < 8,
        row != other_row || column != other_column,
    ensures
        0 <= scan_8x8(mode, row, column) < 64,
        scan_8x8(mode, row, column) != scan_8x8(mode, other_row, other_column),
{
}

/// A 4x4 block with nothing but a DC coefficient has a flat residual.
pub proof fn law_dc_alone_is_flat_4x4(numbers: Matrix, row: int, column: int)
    requires
        0 <= row < 4,
        0 <= column < 4,
        forall|r: int, c: int|
            0 <= r < 4 && 0 <= c < 4 && (r != 0 || c != 0) ==> #[trigger] numbers(r, c) == 0,
    ensures
        transformed_4x4(numbers)(row, column) == (numbers(0, 0) + 32) / 64,
{
    assert(numbers(0, 1) == 0 && numbers(0, 2) == 0 && numbers(0, 3) == 0);
    assert(transformed_row_4(numbers, 0, column) == numbers(0, 0));
    assert forall|r: int| 1 <= r < 4 implies #[trigger] transformed_row_4(numbers, r, column)
        == 0 by {
        assert(numbers(r, 0) == 0 && numbers(r, 1) == 0 && numbers(r, 2) == 0 && numbers(r, 3)
            == 0);
    }
    assert(transformed_row_4(numbers, 1, column) == 0);
    assert(transformed_row_4(numbers, 2, column) == 0);
    assert(transformed_row_4(numbers, 3, column) == 0);
}

/// An 8x8 block with nothing but a DC coefficient has a flat residual.
pub proof fn law_dc_alone_is_flat_8x8(numbers: Matrix, row: int, column: int)
    requires
        0 <= row < 8,
        0 <= column < 8,
        forall|r: int, c: int|
            0 <= r < 8 && 0 <= c < 8 && (r != 0 || c != 0) ==> #[trigger] numbers(r, c) == 0,
    ensures
        transformed_8x8(numbers)(row, column) == (numbers(0, 0) + 32) / 64,
{
    let impulse = |k: int|
        if k == 0 {
            numbers(0, 0)
        } else {
            0
        };
    let zeros = |k: int| 0int;
    assert forall|index: int| 0 <= index < 8 implies #[trigger] transformed_8(impulse, index)
        == numbers(0, 0) && transformed_8(zeros, index) == 0 by {}
    let columns = |r: int| transformed_row_8(numbers, r, column);
    assert forall|r: int| 0 <= r < 8 implies #[trigger] columns(r) == impulse(r) by {
        let values = |c: int| numbers(r, c);
        if r == 0 {
            assert forall|c: int| 0 <= c < 8 implies #[trigger] values(c) == impulse(c) by {
                assert(c != 0 ==> numbers(0, c) == 0);
            }
            lemma_transformed_8(values, impulse, column);
            assert(transformed_8(impulse, column) == numbers(0, 0));
        } else {
            assert forall|c: int| 0 <= c < 8 implies #[trigger] values(c) == zeros(c) by {
                assert(numbers(r, c) == 0);
            }
            lemma_transformed_8(values, zeros, column);
            assert(transformed_8(impulse, column) == numbers(0, 0));
        }
    }
    lemma_transformed_8(columns, impulse, row);
    assert(transformed_8(impulse, row) == numbers(0, 0));
}

} // verus!
