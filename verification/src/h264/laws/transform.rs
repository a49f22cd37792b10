//! Laws of scans, inverse quantization and inverse transforms.

use vstd::arithmetic::power2::{lemma2_to64, pow2};
use vstd::prelude::*;

use crate::h264::error::Result;
use crate::h264::transform::{
    chroma_dc, entries_4x4, entries_8x8, factors_4x4, factors_8x8, hadamard_4, hadamard_4x4,
    hadamard_column, holds_4x4, holds_8x8, joined_8, lifted_8, luma_dc, norm_class_8x8, scaled_4x4,
    scaled_8x8, scaled_by_qp, scales_to_4x4, scales_to_8x8, scan_4x4, scan_8x8, summed_8,
    transformed_4, transformed_4x4, transformed_8, transformed_8x8, transformed_row_4,
    transformed_row_8, Block4x4, Block8x8, Matrix, ScanMode, NORM_ADJUST_8X8,
};

verus! {

/// What four frequencies add up to at one sample of a row, twice.
pub open spec fn weighted_4(values: spec_fn(int) -> int, index: int) -> int {
    if index == 0 {
        2 * values(0) + 2 * values(1) + 2 * values(2) + values(3)
    } else if index == 1 {
        2 * values(0) + values(1) - 2 * values(2) - 2 * values(3)
    } else if index == 2 {
        2 * values(0) - values(1) - 2 * values(2) + 2 * values(3)
    } else {
        2 * values(0) - 2 * values(1) + 2 * values(2) - values(3)
    }
}

/// Both directions of a square.
pub open spec fn weighted_4x4(numbers: Matrix, row: int, column: int) -> int {
    weighted_4(|r: int| weighted_4(|c: int| numbers(r, c), column), row)
}

/// What eight frequencies add up to at one sample of a row, eight times.
pub open spec fn weighted_8(values: spec_fn(int) -> int, index: int) -> int {
    if index == 0 {
        8 * values(0) + 12 * values(1) + 8 * values(2) + 10 * values(3)
            + 8 * values(4) + 6 * values(5) + 4 * values(6) + 3 * values(7)
    } else if index == 1 {
        8 * values(0) + 10 * values(1) + 4 * values(2) - 3 * values(3)
            - 8 * values(4) - 12 * values(5) - 8 * values(6) - 6 * values(7)
    } else if index == 2 {
        8 * values(0) + 6 * values(1) - 4 * values(2) - 12 * values(3)
            - 8 * values(4) + 3 * values(5) + 8 * values(6) + 10 * values(7)
    } else if index == 3 {
        8 * values(0) + 3 * values(1) - 8 * values(2) - 6 * values(3)
            + 8 * values(4) + 10 * values(5) - 4 * values(6) - 12 * values(7)
    } else if index == 4 {
        8 * values(0) - 3 * values(1) - 8 * values(2) + 6 * values(3)
            + 8 * values(4) - 10 * values(5) - 4 * values(6) + 12 * values(7)
    } else if index == 5 {
        8 * values(0) - 6 * values(1) - 4 * values(2) + 12 * values(3)
            - 8 * values(4) - 3 * values(5) + 8 * values(6) - 10 * values(7)
    } else if index == 6 {
        8 * values(0) - 10 * values(1) + 4 * values(2) + 3 * values(3)
            - 8 * values(4) + 12 * values(5) - 8 * values(6) + 6 * values(7)
    } else {
        8 * values(0) - 12 * values(1) + 8 * values(2) - 10 * values(3)
            + 8 * values(4) - 6 * values(5) + 4 * values(6) - 3 * values(7)
    }
}

/// Both directions of a square.
pub open spec fn weighted_8x8(numbers: Matrix, row: int, column: int) -> int {
    weighted_8(|r: int| weighted_8(|c: int| numbers(r, c), column), row)
}

/// The sum of four values with the signs of one result.
pub open spec fn signed_4(values: spec_fn(int) -> int, index: int) -> int {
    if index == 0 {
        values(0) + values(1) + values(2) + values(3)
    } else if index == 1 {
        values(0) + values(1) - values(2) - values(3)
    } else if index == 2 {
        values(0) - values(1) - values(2) + values(3)
    } else {
        values(0) - values(1) + values(2) - values(3)
    }
}

/// Both directions of a square.
pub open spec fn signed_4x4(numbers: Matrix, row: int, column: int) -> int {
    signed_4(|r: int| signed_4(|c: int| numbers(r, c), column), row)
}

/// One pass over four frequencies is what they add up to, but for what halving
/// rounds off, and exactly that where nothing is rounded.
pub proof fn law_pass_of_four(values: spec_fn(int) -> int, index: int)
    requires
        0 <= index < 4,
    ensures
        -1 <= 2 * transformed_4(values, index) - weighted_4(values, index) <= 1,
        (forall|k: int| 0 <= k < 4 ==> #[trigger] values(k) % 2 == 0) ==> 2 * transformed_4(
            values,
            index,
        ) == weighted_4(values, index),
{
    if forall|k: int| 0 <= k < 4 ==> #[trigger] values(k) % 2 == 0 {
        assert(values(0) % 2 == 0);
        assert(values(1) % 2 == 0);
        assert(values(2) % 2 == 0);
        assert(values(3) % 2 == 0);
    }
}

/// What is added up keeps to bounds on the difference of its frequencies.
proof fn lemma_weighted_4(
    first: spec_fn(int) -> int,
    second: spec_fn(int) -> int,
    index: int,
    bound: int,
)
    requires
        0 <= index < 4,
        0 <= bound,
        forall|k: int| 0 <= k < 4 ==> -bound <= #[trigger] first(k) - second(k) <= bound,
    ensures
        -7 * bound <= weighted_4(first, index) - weighted_4(second, index) <= 7 * bound,
{
    assert(-bound <= first(0) - second(0) <= bound);
    assert(-bound <= first(1) - second(1) <= bound);
    assert(-bound <= first(2) - second(2) <= bound);
    assert(-bound <= first(3) - second(3) <= bound);
}

/// The frequencies of a multiple add up to the multiple.
proof fn lemma_weighted_multiple_4(values: spec_fn(int) -> int, index: int)
    requires
        0 <= index < 4,
    ensures
        weighted_4(|k: int| 2 * values(k), index) == 2 * weighted_4(values, index),
{
}

/// Frequencies that are multiples add up to a multiple.
proof fn lemma_weighted_divides_4(values: spec_fn(int) -> int, index: int)
    requires
        0 <= index < 4,
        forall|k: int| 0 <= k < 4 ==> #[trigger] values(k) % 4 == 0,
    ensures
        weighted_4(values, index) % 4 == 0,
{
    assert(values(0) == 4 * (values(0) / 4));
    assert(values(1) == 4 * (values(1) / 4));
    assert(values(2) == 4 * (values(2) / 4));
    assert(values(3) == 4 * (values(3) / 4));
    let quotients = |k: int| values(k) / 4;
    let sum = weighted_4(quotients, index);
    assert(weighted_4(values, index) == 4 * sum);
}

/// A pass over multiples gives multiples.
proof fn lemma_exact_4(values: spec_fn(int) -> int, index: int)
    requires
        0 <= index < 4,
        forall|k: int| 0 <= k < 4 ==> #[trigger] values(k) % 4 == 0,
    ensures
        transformed_4(values, index) % 2 == 0,
        2 * transformed_4(values, index) == weighted_4(values, index),
        weighted_4(values, index) % 4 == 0,
{
    assert forall|k: int| 0 <= k < 4 implies #[trigger] values(k) % 2 == 0 by {
        assert(values(k) % 4 == 0);
    }
    law_pass_of_four(values, index);
    lemma_weighted_divides_4(values, index);
}

/// Both passes add frequencies up exactly where nothing is rounded.
#[verifier::rlimit(50)]
proof fn lemma_exact_4x4(scaled: Block4x4, row: int, column: int)
    requires
        0 <= row < 4,
        0 <= column < 4,
        forall|r: int, c: int|
            0 <= r < 4 && 0 <= c < 4 ==> #[trigger] scaled[r][c] as int % 4 == 0,
    ensures
        ({
            let numbers = entries_4x4(scaled);
            let sum = weighted_4x4(numbers, row, column);
            sum % 4 == 0 && 4 * transformed_4(|r: int| transformed_row_4(numbers, r, column), row) == sum
        }),
{
    let numbers = entries_4x4(scaled);
    let rows = |r: int| transformed_row_4(numbers, r, column);
    let sums = |r: int| weighted_4(|c: int| numbers(r, c), column);
    let multiples = |r: int| 2 * rows(r);
    assert forall|r: int| 0 <= r < 4 implies #[trigger] rows(r) % 2 == 0 && multiples(r)
        == sums(r) && sums(r) % 4 == 0 by {
        let values = |c: int| numbers(r, c);
        assert forall|c: int| 0 <= c < 4 implies #[trigger] values(c) % 4 == 0 by {
            assert(scaled[r][c] as int % 4 == 0);
        }
        lemma_exact_4(values, column);
    }
    assert forall|r: int| 0 <= r < 4 implies #[trigger] sums(r) % 4 == 0 by {
        assert(rows(r) % 2 == 0);
    }
    lemma_weighted_divides_4(sums, row);
    assert forall|r: int| 0 <= r < 4 implies 0 <= #[trigger] multiples(r) - sums(r) <= 0 by {
        assert(rows(r) % 2 == 0);
    }
    lemma_weighted_4(multiples, sums, row, 0);
    lemma_weighted_multiple_4(rows, row);
    law_pass_of_four(rows, row);
    assert(weighted_4(sums, row) == weighted_4x4(numbers, row, column));
}

/// The residual of a 4x4 block is the sum of its frequencies in both directions,
/// rounded to whole samples: it differs from that sum by less than one, and is the
/// nearest whole number where halving rounds nothing off.
pub proof fn law_residual_is_the_sum_of_frequencies_4x4(
    scaled: Block4x4,
    residual: Block4x4,
    row: int,
    column: int,
)
    requires
        holds_4x4(residual, transformed_4x4(entries_4x4(scaled))),
        0 <= row < 4,
        0 <= column < 4,
    ensures
        ({
            let sum = weighted_4x4(entries_4x4(scaled), row, column);
            &&& -256 < 256 * residual[row][column] - sum < 256
            &&& (forall|r: int, c: int|
                0 <= r < 4 && 0 <= c < 4 ==> #[trigger] scaled[r][c] as int % 4 == 0) ==> sum
                % 4 == 0 && residual[row][column] == (sum / 4 + 32) / 64
        }),
{
    let numbers = entries_4x4(scaled);
    let rows = |r: int| transformed_row_4(numbers, r, column);
    let sums = |r: int| weighted_4(|c: int| numbers(r, c), column);
    let multiples = |r: int| 2 * rows(r);
    assert forall|r: int| 0 <= r < 4 implies -1 <= #[trigger] multiples(r) - sums(r) <= 1 by {
        law_pass_of_four(|c: int| numbers(r, c), column);
    }
    lemma_weighted_4(multiples, sums, row, 1);
    lemma_weighted_multiple_4(rows, row);
    law_pass_of_four(rows, row);
    assert(residual[row][column] == (transformed_4(rows, row) + 32) / 64);
    assert(weighted_4(sums, row) == weighted_4x4(numbers, row, column));
    if forall|r: int, c: int|
        0 <= r < 4 && 0 <= c < 4 ==> #[trigger] scaled[r][c] as int % 4 == 0 {
        lemma_exact_4x4(scaled, row, column);
    }
}

/// Half of a number, rounded down.
proof fn lemma_halves(value: int)
    ensures
        value - 1 <= 2 * (value / 2) <= value,
{
}

/// A sum and a quarter of another, of which twice the numbers are known.
proof fn lemma_lift(own: int, other: int, own_twice: int, other_twice: int)
    requires
        -1 <= 2 * own - own_twice <= 1,
        -1 <= 2 * other - other_twice <= 1,
    ensures
        -11 <= 8 * (own + other / 4) - (4 * own_twice + other_twice) <= 11,
        -11 <= 8 * (own - other / 4) - (4 * own_twice - other_twice) <= 11,
        -11 <= 8 * (other / 4 - own) - (other_twice - 4 * own_twice) <= 11,
{
}

/// The parts of a pass are sums of frequencies but for what halving rounds off.
proof fn lemma_part_of_eight(values: spec_fn(int) -> int, part: int, sum: int)
    requires
        0 <= part < 8,
        sum == if part == 0 {
            8 * values(0) + 8 * values(2) + 8 * values(4) + 4 * values(6)
        } else if part == 1 {
            3 * values(1) - 6 * values(3) + 10 * values(5) - 12 * values(7)
        } else if part == 2 {
            8 * values(0) + 4 * values(2) - 8 * values(4) - 8 * values(6)
        } else if part == 3 {
            6 * values(1) - 12 * values(3) + 3 * values(5) + 10 * values(7)
        } else if part == 4 {
            8 * values(0) - 4 * values(2) - 8 * values(4) + 8 * values(6)
        } else if part == 5 {
            10 * values(1) - 3 * values(3) - 12 * values(5) - 6 * values(7)
        } else if part == 6 {
            8 * values(0) - 8 * values(2) + 8 * values(4) - 4 * values(6)
        } else {
            12 * values(1) + 10 * values(3) + 6 * values(5) + 3 * values(7)
        },
    ensures
        part % 2 == 0 ==> -4 <= 8 * lifted_8(|s: int| summed_8(values, s), part) - sum <= 4,
        -11 <= 8 * lifted_8(|s: int| summed_8(values, s), part) - sum <= 11,
{
    let sums = |s: int| summed_8(values, s);
    let (v0, v1, v2, v3) = (values(0), values(1), values(2), values(3));
    let (v4, v5, v6, v7) = (values(4), values(5), values(6), values(7));
    if part % 2 == 1 {
        lemma_halves(v1);
        lemma_halves(v3);
        lemma_halves(v5);
        lemma_halves(v7);
        let first = sums(1);
        let third = sums(3);
        let fifth = sums(5);
        let last = sums(7);
        if part == 1 {
            lemma_lift(first, last, -2 * v3 + 2 * v5 - 3 * v7, 2 * v3 + 2 * v5 + 3 * v1);
        } else if part == 3 {
            lemma_lift(third, fifth, 2 * v1 + 2 * v7 - 3 * v3, -2 * v1 + 2 * v7 + 3 * v5);
        } else if part == 5 {
            lemma_lift(fifth, third, -2 * v1 + 2 * v7 + 3 * v5, 2 * v1 + 2 * v7 - 3 * v3);
        } else {
            lemma_lift(last, first, 2 * v3 + 2 * v5 + 3 * v1, -2 * v3 + 2 * v5 - 3 * v7);
        }
    } else {
        lemma_halves(v2);
        lemma_halves(v6);
    }
}

/// A pass over multiples of eight rounds nothing off.
proof fn lemma_exact_pass_of_eight(
    values: spec_fn(int) -> int,
    eighths: spec_fn(int) -> int,
    index: int,
)
    requires
        0 <= index < 8,
        forall|k: int| 0 <= k < 8 ==> #[trigger] values(k) == 8 * eighths(k),
    ensures
        transformed_8(values, index) == weighted_8(eighths, index),
{
    let (m1, m2, m3, m5) = (eighths(1), eighths(2), eighths(3), eighths(5));
    let (m6, m7) = (eighths(6), eighths(7));
    assert(values(0) == 8 * eighths(0) && values(4) == 8 * eighths(4));
    assert(values(1) == 8 * m1 && values(1) / 2 == 4 * m1);
    assert(values(2) == 8 * m2 && values(2) / 2 == 4 * m2);
    assert(values(3) == 8 * m3 && values(3) / 2 == 4 * m3);
    assert(values(5) == 8 * m5 && values(5) / 2 == 4 * m5);
    assert(values(6) == 8 * m6 && values(6) / 2 == 4 * m6);
    assert(values(7) == 8 * m7 && values(7) / 2 == 4 * m7);
    let sums = |s: int| summed_8(values, s);
    let first = -2 * m3 + 2 * m5 - 3 * m7;
    let third = 2 * m1 + 2 * m7 - 3 * m3;
    let fifth = -2 * m1 + 2 * m7 + 3 * m5;
    let last = 2 * m3 + 2 * m5 + 3 * m1;
    assert(sums(1) == 4 * first && sums(1) / 4 == first);
    assert(sums(3) == 4 * third && sums(3) / 4 == third);
    assert(sums(5) == 4 * fifth && sums(5) / 4 == fifth);
    assert(sums(7) == 4 * last && sums(7) / 4 == last);
    let parts = |part: int| lifted_8(|s: int| summed_8(values, s), part);
    assert(transformed_8(values, index) == joined_8(parts, index));
}

/// One pass over eight frequencies is what they add up to, but for what halving
/// rounds off, and exactly that where nothing is rounded.
pub proof fn law_pass_of_eight(values: spec_fn(int) -> int, index: int)
    requires
        0 <= index < 8,
    ensures
        -15 <= 8 * transformed_8(values, index) - weighted_8(values, index) <= 15,
        (forall|k: int| 0 <= k < 8 ==> #[trigger] values(k) % 8 == 0) ==> 8 * transformed_8(
            values,
            index,
        ) == weighted_8(values, index),
{
    lemma_part_of_eight(values, 0, 8 * values(0) + 8 * values(2) + 8 * values(4) + 4 * values(6));
    lemma_part_of_eight(values, 1, 3 * values(1) - 6 * values(3) + 10 * values(5) - 12 * values(7));
    lemma_part_of_eight(values, 2, 8 * values(0) + 4 * values(2) - 8 * values(4) - 8 * values(6));
    lemma_part_of_eight(values, 3, 6 * values(1) - 12 * values(3) + 3 * values(5) + 10 * values(7));
    lemma_part_of_eight(values, 4, 8 * values(0) - 4 * values(2) - 8 * values(4) + 8 * values(6));
    lemma_part_of_eight(values, 5, 10 * values(1) - 3 * values(3) - 12 * values(5) - 6 * values(7));
    lemma_part_of_eight(values, 6, 8 * values(0) - 8 * values(2) + 8 * values(4) - 4 * values(6));
    lemma_part_of_eight(values, 7, 12 * values(1) + 10 * values(3) + 6 * values(5) + 3 * values(7));
    let parts = |part: int| lifted_8(|s: int| summed_8(values, s), part);
    assert(transformed_8(values, index) == joined_8(parts, index));
    if forall|k: int| 0 <= k < 8 ==> #[trigger] values(k) % 8 == 0 {
        let eighths = |k: int| values(k) / 8;
        assert forall|k: int| 0 <= k < 8 implies #[trigger] values(k) == 8 * eighths(k) by {
            assert(values(k) % 8 == 0);
        }
        lemma_exact_pass_of_eight(values, eighths, index);
        lemma_weighted_multiple_8(eighths, index);
        let multiples = |k: int| 8 * eighths(k);
        assert forall|k: int| 0 <= k < 8 implies 0 <= #[trigger] values(k) - multiples(k) <= 0 by {
        }
        lemma_weighted_8(values, multiples, index, 0);
    }
}

/// What is added up keeps to bounds on the difference of its frequencies.
proof fn lemma_weighted_8(
    first: spec_fn(int) -> int,
    second: spec_fn(int) -> int,
    index: int,
    bound: int,
)
    requires
        0 <= index < 8,
        0 <= bound,
        forall|k: int| 0 <= k < 8 ==> -bound <= #[trigger] first(k) - second(k) <= bound,
    ensures
        -59 * bound <= weighted_8(first, index) - weighted_8(second, index) <= 59 * bound,
{
    assert(-bound <= first(0) - second(0) <= bound);
    assert(-bound <= first(1) - second(1) <= bound);
    assert(-bound <= first(2) - second(2) <= bound);
    assert(-bound <= first(3) - second(3) <= bound);
    assert(-bound <= first(4) - second(4) <= bound);
    assert(-bound <= first(5) - second(5) <= bound);
    assert(-bound <= first(6) - second(6) <= bound);
    assert(-bound <= first(7) - second(7) <= bound);
}

/// The frequencies of a multiple add up to the multiple.
proof fn lemma_weighted_multiple_8(values: spec_fn(int) -> int, index: int)
    requires
        0 <= index < 8,
    ensures
        weighted_8(|k: int| 8 * values(k), index) == 8 * weighted_8(values, index),
{
}

/// Frequencies that are multiples add up to a multiple.
proof fn lemma_weighted_divides_8(values: spec_fn(int) -> int, index: int)
    requires
        0 <= index < 8,
        forall|k: int| 0 <= k < 8 ==> #[trigger] values(k) % 64 == 0,
    ensures
        weighted_8(values, index) % 64 == 0,
{
    assert(values(0) == 64 * (values(0) / 64));
    assert(values(1) == 64 * (values(1) / 64));
    assert(values(2) == 64 * (values(2) / 64));
    assert(values(3) == 64 * (values(3) / 64));
    assert(values(4) == 64 * (values(4) / 64));
    assert(values(5) == 64 * (values(5) / 64));
    assert(values(6) == 64 * (values(6) / 64));
    assert(values(7) == 64 * (values(7) / 64));
    let quotients = |k: int| values(k) / 64;
    let sum = weighted_8(quotients, index);
    assert(weighted_8(values, index) == 64 * sum);
}

/// A pass over multiples gives multiples.
proof fn lemma_exact_8(values: spec_fn(int) -> int, index: int)
    requires
        0 <= index < 8,
        forall|k: int| 0 <= k < 8 ==> #[trigger] values(k) % 64 == 0,
    ensures
        transformed_8(values, index) % 8 == 0,
        8 * transformed_8(values, index) == weighted_8(values, index),
        weighted_8(values, index) % 64 == 0,
{
    assert forall|k: int| 0 <= k < 8 implies #[trigger] values(k) % 8 == 0 by {
        assert(values(k) % 64 == 0);
    }
    law_pass_of_eight(values, index);
    lemma_weighted_divides_8(values, index);
}

/// Both passes add frequencies up exactly where nothing is rounded.
#[verifier::rlimit(50)]
proof fn lemma_exact_8x8(scaled: Block8x8, row: int, column: int)
    requires
        0 <= row < 8,
        0 <= column < 8,
        forall|r: int, c: int|
            0 <= r < 8 && 0 <= c < 8 ==> #[trigger] scaled[r][c] as int % 64 == 0,
    ensures
        ({
            let numbers = entries_8x8(scaled);
            let sum = weighted_8x8(numbers, row, column);
            sum % 64 == 0 && 64 * transformed_8(|r: int| transformed_row_8(numbers, r, column), row) == sum
        }),
{
    let numbers = entries_8x8(scaled);
    let rows = |r: int| transformed_row_8(numbers, r, column);
    let sums = |r: int| weighted_8(|c: int| numbers(r, c), column);
    let multiples = |r: int| 8 * rows(r);
    assert forall|r: int| 0 <= r < 8 implies #[trigger] rows(r) % 8 == 0 && multiples(r)
        == sums(r) && sums(r) % 64 == 0 by {
        let values = |c: int| numbers(r, c);
        assert forall|c: int| 0 <= c < 8 implies #[trigger] values(c) % 64 == 0 by {
            assert(scaled[r][c] as int % 64 == 0);
        }
        lemma_exact_8(values, column);
    }
    assert forall|r: int| 0 <= r < 8 implies #[trigger] sums(r) % 64 == 0 by {
        assert(rows(r) % 8 == 0);
    }
    lemma_weighted_divides_8(sums, row);
    assert forall|r: int| 0 <= r < 8 implies 0 <= #[trigger] multiples(r) - sums(r) <= 0 by {
        assert(rows(r) % 8 == 0);
    }
    lemma_weighted_8(multiples, sums, row, 0);
    lemma_weighted_multiple_8(rows, row);
    law_pass_of_eight(rows, row);
    assert(weighted_8(sums, row) == weighted_8x8(numbers, row, column));
}

/// The residual of a 8x8 block is the sum of its frequencies in both directions,
/// rounded to whole samples: it differs from that sum by less than one, and is the
/// nearest whole number where halving rounds nothing off.
pub proof fn law_residual_is_the_sum_of_frequencies_8x8(
    scaled: Block8x8,
    residual: Block8x8,
    row: int,
    column: int,
)
    requires
        holds_8x8(residual, transformed_8x8(entries_8x8(scaled))),
        0 <= row < 8,
        0 <= column < 8,
    ensures
        ({
            let sum = weighted_8x8(entries_8x8(scaled), row, column);
            &&& -4096 < 4096 * residual[row][column] - sum < 4096
            &&& (forall|r: int, c: int|
                0 <= r < 8 && 0 <= c < 8 ==> #[trigger] scaled[r][c] as int % 64 == 0) ==> sum
                % 64 == 0 && residual[row][column] == (sum / 64 + 32) / 64
        }),
{
    let numbers = entries_8x8(scaled);
    let rows = |r: int| transformed_row_8(numbers, r, column);
    let sums = |r: int| weighted_8(|c: int| numbers(r, c), column);
    let multiples = |r: int| 8 * rows(r);
    assert forall|r: int| 0 <= r < 8 implies -15 <= #[trigger] multiples(r) - sums(r) <= 15 by {
        law_pass_of_eight(|c: int| numbers(r, c), column);
    }
    lemma_weighted_8(multiples, sums, row, 15);
    lemma_weighted_multiple_8(rows, row);
    law_pass_of_eight(rows, row);
    assert(residual[row][column] == (transformed_8(rows, row) + 32) / 64);
    assert(weighted_8(sums, row) == weighted_8x8(numbers, row, column));
    if forall|r: int, c: int|
        0 <= r < 8 && 0 <= c < 8 ==> #[trigger] scaled[r][c] as int % 64 == 0 {
        lemma_exact_8x8(scaled, row, column);
    }
}

/// The rows that the field scan of an 8x8 block visits, in turn.
pub const FIELD_ROWS_8X8: [usize; 64] = [
    0, 1, 2, 0, 1, 3, 4, 2, 0, 3, 5, 6, 7, 4, 1, 0,
    2, 5, 6, 7, 3, 1, 0, 2, 4, 5, 6, 7, 3, 1, 0, 2,
    4, 5, 6, 7, 3, 1, 0, 2, 4, 5, 6, 7, 3, 1, 2, 4,
    5, 6, 7, 3, 0, 1, 4, 5, 6, 7, 2, 3, 4, 5, 6, 7,
];

/// The columns that the field scan of an 8x8 block visits, in turn.
pub const FIELD_COLUMNS_8X8: [usize; 64] = [
    0, 0, 0, 1, 1, 0, 0, 1, 2, 1, 0, 0, 0, 1, 2, 3,
    2, 1, 1, 1, 2, 3, 4, 3, 2, 2, 2, 2, 3, 4, 5, 4,
    3, 3, 3, 3, 4, 5, 6, 5, 4, 4, 4, 4, 5, 6, 6, 5,
    5, 5, 5, 6, 7, 7, 6, 6, 6, 6, 7, 7, 7, 7, 7, 7,
];

/// The order of a zig-zag scan: diagonal after diagonal, the odd ones downwards and
/// the even ones upwards.
pub open spec fn zigzag_before(row: int, column: int, other_row: int, other_column: int) -> bool {
    row + column < other_row + other_column || row + column == other_row + other_column && if (row
        + column) % 2 == 1 {
        row < other_row
    } else {
        row > other_row
    }
}

/// The frame scan of a 4x4 block is the zig-zag scan.
pub proof fn law_frame_scan_4x4_is_zigzag(row: int, column: int, other_row: int, other_column: int)
    requires
        0 <= row < 4,
        0 <= column < 4,
        0 <= other_row < 4,
        0 <= other_column < 4,
    ensures
        scan_4x4(ScanMode::Frame, row, column) < scan_4x4(ScanMode::Frame, other_row, other_column)
            <==> zigzag_before(row, column, other_row, other_column),
        0 <= scan_4x4(ScanMode::Frame, row, column) < 16,
{
}

/// The frame scan of an 8x8 block is the zig-zag scan.
pub proof fn law_frame_scan_8x8_is_zigzag(row: int, column: int, other_row: int, other_column: int)
    requires
        0 <= row < 8,
        0 <= column < 8,
        0 <= other_row < 8,
        0 <= other_column < 8,
    ensures
        scan_8x8(ScanMode::Frame, row, column) < scan_8x8(ScanMode::Frame, other_row, other_column)
            <==> zigzag_before(row, column, other_row, other_column),
        0 <= scan_8x8(ScanMode::Frame, row, column) < 64,
{
}

/// The field scan of a 4x4 block runs down one column after the other, except that
/// the top of the second column comes before the lower half of the first.
pub proof fn law_field_scan_4x4_runs_down(row: int, column: int)
    requires
        0 <= row < 4,
        0 <= column < 4,
    ensures
        scan_4x4(ScanMode::Field, row, column) == if column == 1 && row == 0 {
            2
        } else if column == 0 {
            if row < 2 {
                row
            } else {
                row + 1
            }
        } else {
            4 * column + row
        },
{
}

/// The field scan of an 8x8 block visits its positions in the order of the table.
pub proof fn law_field_scan_8x8_follows_its_order(place: int)
    requires
        0 <= place < 64,
    ensures
        FIELD_ROWS_8X8[place] < 8,
        FIELD_COLUMNS_8X8[place] < 8,
        scan_8x8(
            ScanMode::Field,
            FIELD_ROWS_8X8[place] as int,
            FIELD_COLUMNS_8X8[place] as int,
        ) == place,
{
}

/// The Hadamard transform of a square is the sum of its values with their signs.
pub proof fn law_hadamard_is_a_signed_sum(numbers: Matrix, row: int, column: int)
    requires
        0 <= row < 4,
        0 <= column < 4,
    ensures
        hadamard_4x4(numbers)(row, column) == signed_4x4(numbers, row, column),
{
    let columns = |c: int| hadamard_column(numbers, row, c);
    let rows = |r: int| signed_4(|c: int| numbers(r, c), column);
    assert(hadamard_4x4(numbers)(row, column) == hadamard_4(columns, column));
    assert(signed_4x4(numbers, row, column) == signed_4(rows, row));
}

/// The quantizer steps of positions on even rows and columns, by the remainder of
/// the quantizer.
pub open spec fn even_step(qp: u8) -> int {
    if qp % 6 == 0 {
        10
    } else if qp % 6 == 1 {
        11
    } else if qp % 6 == 2 {
        13
    } else if qp % 6 == 3 {
        14
    } else if qp % 6 == 4 {
        16
    } else {
        18
    }
}

/// The quantizer steps of positions on odd rows and columns.
pub open spec fn odd_step(qp: u8) -> int {
    if qp % 6 == 0 {
        16
    } else if qp % 6 == 1 {
        18
    } else if qp % 6 == 2 {
        20
    } else if qp % 6 == 3 {
        23
    } else if qp % 6 == 4 {
        25
    } else {
        29
    }
}

/// The quantizer steps of the other positions.
pub open spec fn mixed_step(qp: u8) -> int {
    if qp % 6 == 0 {
        13
    } else if qp % 6 == 1 {
        14
    } else if qp % 6 == 2 {
        16
    } else if qp % 6 == 3 {
        18
    } else if qp % 6 == 4 {
        20
    } else {
        23
    }
}

/// A value is the nearest whole number to a number of parts, the upper one of two.
pub open spec fn nearest(value: int, number: int, parts: int) -> bool {
    2 * number - parts < 2 * parts * value <= 2 * number + parts
}

/// Scaling doubles with every six steps of the quantizer, and rounds to the nearest
/// whole number.
pub proof fn law_six_steps_double(product: int, qp: u8, bits: int)
    requires
        qp <= 51,
        bits == 4 || bits == 6,
    ensures
        nearest(
            scaled_by_qp(product, qp, bits),
            product * pow2((qp / 6) as nat),
            if bits == 4 {
                16
            } else {
                64
            },
        ),
{
    lemma2_to64();
    let exponent = qp as int / 6;
    let factor = pow2((qp / 6) as nat) as int;
    assert((qp / 6) as nat == exponent as nat);
    if exponent == 0 {
        assert(product * factor == product * 1) by (nonlinear_arith)
            requires
                factor == 1,
        ;
        if bits == 4 {
            assert(scaled_by_qp(product, qp, bits) == (product + 8) / 16);
        }
        if bits == 6 {
            assert(scaled_by_qp(product, qp, bits) == (product + 32) / 64);
        }
    } else if exponent == 1 {
        assert(product * factor == product * 2) by (nonlinear_arith)
            requires
                factor == 2,
        ;
        if bits == 4 {
            assert(scaled_by_qp(product, qp, bits) == (product + 4) / 8);
        }
        if bits == 6 {
            assert(scaled_by_qp(product, qp, bits) == (product + 16) / 32);
        }
    } else if exponent == 2 {
        assert(product * factor == product * 4) by (nonlinear_arith)
            requires
                factor == 4,
        ;
        if bits == 4 {
            assert(scaled_by_qp(product, qp, bits) == (product + 2) / 4);
        }
        if bits == 6 {
            assert(scaled_by_qp(product, qp, bits) == (product + 8) / 16);
        }
    } else if exponent == 3 {
        assert(product * factor == product * 8) by (nonlinear_arith)
            requires
                factor == 8,
        ;
        if bits == 4 {
            assert(scaled_by_qp(product, qp, bits) == (product + 1) / 2);
        }
        if bits == 6 {
            assert(scaled_by_qp(product, qp, bits) == (product + 4) / 8);
        }
    } else if exponent == 4 {
        assert(product * factor == product * 16) by (nonlinear_arith)
            requires
                factor == 16,
        ;
        if bits == 4 {
            let power = pow2((exponent - bits) as nat) as int;
            assert(product * power == product * 1) by (nonlinear_arith)
                requires
                    power == 1,
            ;
        }
        if bits == 6 {
            assert(scaled_by_qp(product, qp, bits) == (product + 2) / 4);
        }
    } else if exponent == 5 {
        assert(product * factor == product * 32) by (nonlinear_arith)
            requires
                factor == 32,
        ;
        if bits == 4 {
            let power = pow2((exponent - bits) as nat) as int;
            assert(product * power == product * 2) by (nonlinear_arith)
                requires
                    power == 2,
            ;
        }
        if bits == 6 {
            assert(scaled_by_qp(product, qp, bits) == (product + 1) / 2);
        }
    } else if exponent == 6 {
        assert(product * factor == product * 64) by (nonlinear_arith)
            requires
                factor == 64,
        ;
        if bits == 4 {
            let power = pow2((exponent - bits) as nat) as int;
            assert(product * power == product * 4) by (nonlinear_arith)
                requires
                    power == 4,
            ;
        }
        if bits == 6 {
            let power = pow2((exponent - bits) as nat) as int;
            assert(product * power == product * 1) by (nonlinear_arith)
                requires
                    power == 1,
            ;
        }
    } else if exponent == 7 {
        assert(product * factor == product * 128) by (nonlinear_arith)
            requires
                factor == 128,
        ;
        if bits == 4 {
            let power = pow2((exponent - bits) as nat) as int;
            assert(product * power == product * 8) by (nonlinear_arith)
                requires
                    power == 8,
            ;
        }
        if bits == 6 {
            let power = pow2((exponent - bits) as nat) as int;
            assert(product * power == product * 2) by (nonlinear_arith)
                requires
                    power == 2,
            ;
        }
    } else {
        assert(product * factor == product * 256) by (nonlinear_arith)
            requires
                factor == 256,
        ;
        if bits == 4 {
            let power = pow2((exponent - bits) as nat) as int;
            assert(product * power == product * 16) by (nonlinear_arith)
                requires
                    power == 16,
            ;
        }
        if bits == 6 {
            let power = pow2((exponent - bits) as nat) as int;
            assert(product * power == product * 4) by (nonlinear_arith)
                requires
                    power == 4,
            ;
        }
    }
    let value = scaled_by_qp(product, qp, bits);
    let parts: int = if bits == 4 {
        16
    } else {
        64
    };
    if bits == 4 {
        assert(2 * parts * value == 32 * value) by (nonlinear_arith)
            requires
                parts == 16,
        ;
    } else {
        assert(2 * parts * value == 128 * value) by (nonlinear_arith)
            requires
                parts == 64,
        ;
    }
}

/// A 4x4 coefficient is scaled by its weight and by the quantizer step of its
/// position, in sixteenths. A constant that was scaled before is kept.
pub proof fn law_coefficients_are_scaled_by_their_steps_4x4(
    coefficients: Block4x4,
    qp: u8,
    list: Seq<u8>,
    preserve_dc: bool,
    result: Result<Block4x4>,
    row: int,
    column: int,
)
    requires
        qp <= 51,
        scales_to_4x4(
            result,
            scaled_4x4(entries_4x4(coefficients), factors_4x4(qp, list), qp, preserve_dc),
        ),
        result is Ok,
        0 <= row < 4,
        0 <= column < 4,
    ensures
        ({
            let weight = list[scan_4x4(ScanMode::Frame, row, column)];
            let step = if row % 2 == 0 && column % 2 == 0 {
                even_step(qp)
            } else if row % 2 == 1 && column % 2 == 1 {
                odd_step(qp)
            } else {
                mixed_step(qp)
            };
            let value = result->Ok_0[row][column] as int;
            if preserve_dc && row == 0 && column == 0 {
                value == coefficients[row][column]
            } else {
                nearest(
                    value,
                    coefficients[row][column] * (weight * step) * pow2((qp / 6) as nat),
                    16,
                )
            }
        }),
{
    let numbers = scaled_4x4(entries_4x4(coefficients), factors_4x4(qp, list), qp, preserve_dc);
    assert(result->Ok_0[row][column] == numbers(row, column));
    law_six_steps_double(
        coefficients[row][column] * factors_4x4(qp, list)(row, column),
        qp,
        4,
    );
}

/// The constants of the luma blocks of a macroblock are the signed sums of its
/// constants, scaled by the weight and the quantizer step, in 64ths.
pub proof fn law_luma_constants_are_scaled_sums(
    numbers: Matrix,
    qp: u8,
    list: Seq<u8>,
    result: Result<Block4x4>,
    row: int,
    column: int,
)
    requires
        qp <= 51,
        scales_to_4x4(result, luma_dc(numbers, qp, list)),
        result is Ok,
        0 <= row < 4,
        0 <= column < 4,
    ensures
        nearest(
            result->Ok_0[row][column] as int,
            signed_4x4(numbers, row, column) * (list[0] * even_step(qp)) * pow2((qp / 6) as nat),
            64,
        ),
{
    assert(result->Ok_0[row][column] == luma_dc(numbers, qp, list)(row, column));
    law_hadamard_is_a_signed_sum(numbers, row, column);
    law_six_steps_double(
        hadamard_4x4(numbers)(row, column) * (list[0] * even_step(qp)),
        qp,
        6,
    );
}

/// The constants of the four chroma blocks are the sums and differences of the four
/// constants by columns and rows, scaled, in 32nds and rounded down.
pub proof fn law_chroma_constants_are_scaled_sums(values: Seq<i32>, qp: u8, list: Seq<u8>)
    requires
        values.len() == 4,
    ensures
        ({
            let scale = list[0] * even_step(qp);
            let power = pow2((qp / 6) as nat);
            let numbers = chroma_dc(values, qp, list);
            &&& numbers(0, 0) == (values[0] + values[1] + values[2] + values[3]) * scale * power / 32
            &&& numbers(0, 1) == (values[0] - values[1] + values[2] - values[3]) * scale * power / 32
            &&& numbers(1, 0) == (values[0] + values[1] - values[2] - values[3]) * scale * power / 32
            &&& numbers(1, 1) == (values[0] - values[1] - values[2] + values[3]) * scale * power / 32
        }),
{
}

/// The quantizer step of 8x8 positions on rows and columns that four divides.
pub open spec fn step_8x8_fourths(qp: u8) -> int {
    if qp % 6 == 0 {
        20
    } else if qp % 6 == 1 {
        22
    } else if qp % 6 == 2 {
        26
    } else if qp % 6 == 3 {
        28
    } else if qp % 6 == 4 {
        32
    } else {
        36
    }
}

/// The quantizer step of 8x8 positions on odd rows and columns.
pub open spec fn step_8x8_odd(qp: u8) -> int {
    if qp % 6 == 0 {
        18
    } else if qp % 6 == 1 {
        19
    } else if qp % 6 == 2 {
        23
    } else if qp % 6 == 3 {
        25
    } else if qp % 6 == 4 {
        28
    } else {
        32
    }
}

/// The quantizer step of 8x8 positions on rows and columns that two divides and four does not.
pub open spec fn step_8x8_halves(qp: u8) -> int {
    if qp % 6 == 0 {
        32
    } else if qp % 6 == 1 {
        35
    } else if qp % 6 == 2 {
        42
    } else if qp % 6 == 3 {
        45
    } else if qp % 6 == 4 {
        51
    } else {
        58
    }
}

/// The quantizer step of 8x8 positions on one direction that four divides and one that is odd.
pub open spec fn step_8x8_fourth_odd(qp: u8) -> int {
    if qp % 6 == 0 {
        19
    } else if qp % 6 == 1 {
        21
    } else if qp % 6 == 2 {
        24
    } else if qp % 6 == 3 {
        26
    } else if qp % 6 == 4 {
        30
    } else {
        34
    }
}

/// The quantizer step of 8x8 positions on one direction that four divides and one that
/// only two divides.
pub open spec fn step_8x8_fourth_half(qp: u8) -> int {
    if qp % 6 == 0 {
        25
    } else if qp % 6 == 1 {
        28
    } else if qp % 6 == 2 {
        33
    } else if qp % 6 == 3 {
        35
    } else if qp % 6 == 4 {
        40
    } else {
        46
    }
}

/// The quantizer step of 8x8 positions on one direction that is odd and one that only two divides.
pub open spec fn step_8x8_odd_half(qp: u8) -> int {
    if qp % 6 == 0 {
        24
    } else if qp % 6 == 1 {
        26
    } else if qp % 6 == 2 {
        31
    } else if qp % 6 == 3 {
        33
    } else if qp % 6 == 4 {
        38
    } else {
        43
    }
}

/// The quantizer step of an 8x8 position, by what divides its row and its column.
pub open spec fn step_8x8(qp: u8, row: int, column: int) -> int {
    let fourths = (if row == 0 || row == 4 {
        1int
    } else {
        0
    }) + (if column == 0 || column == 4 {
        1int
    } else {
        0
    });
    let halves = (if row == 2 || row == 6 {
        1int
    } else {
        0
    }) + (if column == 2 || column == 6 {
        1int
    } else {
        0
    });
    if fourths == 2 {
        step_8x8_fourths(qp)
    } else if halves == 2 {
        step_8x8_halves(qp)
    } else if fourths == 1 && halves == 1 {
        step_8x8_fourth_half(qp)
    } else if fourths == 1 {
        step_8x8_fourth_odd(qp)
    } else if halves == 1 {
        step_8x8_odd_half(qp)
    } else {
        step_8x8_odd(qp)
    }
}

/// An 8x8 coefficient is scaled by its weight and by the quantizer step of its
/// position, in 64ths.
pub proof fn law_coefficients_are_scaled_by_their_steps_8x8(
    coefficients: Block8x8,
    qp: u8,
    list: Seq<u8>,
    result: Result<Block8x8>,
    row: int,
    column: int,
)
    requires
        qp <= 51,
        scales_to_8x8(result, scaled_8x8(entries_8x8(coefficients), factors_8x8(qp, list), qp)),
        result is Ok,
        0 <= row < 8,
        0 <= column < 8,
    ensures
        nearest(
            result->Ok_0[row][column] as int,
            coefficients[row][column] * (list[scan_8x8(ScanMode::Frame, row, column)] * step_8x8(
                qp,
                row,
                column,
            )) * pow2((qp / 6) as nat),
            64,
        ),
{
    let numbers = scaled_8x8(entries_8x8(coefficients), factors_8x8(qp, list), qp);
    assert(result->Ok_0[row][column] == numbers(row, column));
    lemma_step_8x8(qp, row, column);
    law_six_steps_double(
        coefficients[row][column] * factors_8x8(qp, list)(row, column),
        qp,
        6,
    );
}

/// The norm adjustments are the quantizer steps.
proof fn lemma_step_8x8(qp: u8, row: int, column: int)
    requires
        0 <= row < 8,
        0 <= column < 8,
    ensures
        NORM_ADJUST_8X8[qp as int % 6][norm_class_8x8(row, column)] == step_8x8(qp, row, column),
{
}

} // verus!
