//! Shifts as divisions and products.

use vstd::arithmetic::power2::{lemma2_to64, pow2};
use vstd::prelude::*;

verus! {

/// An arithmetic shift to the right divides and rounds down.
proof fn lemma_shift_right(value: i64)
    ensures
        value >> 0u32 == value,
        value >> 1u32 == value as int / 2,
        value >> 2u32 == value as int / 4,
        value >> 3u32 == value as int / 8,
        value >> 4u32 == value as int / 16,
        value >> 5u32 == value as int / 32,
        value >> 6u32 == value as int / 64,
{
    assert(value >> 0u32 == value) by (bit_vector);
    assert(2 * (value >> 1u32) <= value < 2 * (value >> 1u32) + 2) by (bit_vector);
    assert(4 * (value >> 2u32) <= value < 4 * (value >> 2u32) + 4) by (bit_vector);
    assert(8 * (value >> 3u32) <= value < 8 * (value >> 3u32) + 8) by (bit_vector);
    assert(16 * (value >> 4u32) <= value < 16 * (value >> 4u32) + 16) by (bit_vector);
    assert(32 * (value >> 5u32) <= value < 32 * (value >> 5u32) + 32) by (bit_vector);
    assert(64 * (value >> 6u32) <= value < 64 * (value >> 6u32) + 64) by (bit_vector);
}

/// `value` divided by `2^bits` and rounded down.
pub fn shift_right(value: i64, bits: u32) -> (quotient: i64)
    requires
        bits <= 6,
    ensures
        quotient == value as int / pow2(bits as nat) as int,
{
    proof {
        lemma_shift_right(value);
        lemma2_to64();
        if bits == 0 {
            assert(pow2(bits as nat) == 1);
        } else if bits == 1 {
            assert(pow2(bits as nat) == 2);
        } else if bits == 2 {
            assert(pow2(bits as nat) == 4);
        } else if bits == 3 {
            assert(pow2(bits as nat) == 8);
        } else if bits == 4 {
            assert(pow2(bits as nat) == 16);
        } else if bits == 5 {
            assert(pow2(bits as nat) == 32);
        } else {
            assert(pow2(bits as nat) == 64);
        }
    }
    value >> bits
}

/// Half of `value`, rounded down.
pub fn half(value: i64) -> (quotient: i64)
    ensures
        quotient == value as int / 2,
{
    proof {
        lemma_shift_right(value);
    }
    value >> 1u32
}

/// A quarter of `value`, rounded down.
pub fn quarter(value: i64) -> (quotient: i64)
    ensures
        quotient == value as int / 4,
{
    proof {
        lemma_shift_right(value);
    }
    value >> 2u32
}

/// `2^bits`.
pub fn power(bits: u32) -> (value: i64)
    requires
        bits <= 8,
    ensures
        value == pow2(bits as nat),
        1 <= value <= 256,
{
    proof {
        lemma2_to64();
    }
    match bits {
        0 => 1,
        1 => 2,
        2 => 4,
        3 => 8,
        4 => 16,
        5 => 32,
        6 => 64,
        7 => 128,
        _ => 256,
    }
}

/// A product is no larger than the product of bounds.
pub proof fn lemma_product_bound(first: int, second: int, first_bound: int, second_bound: int)
    by (nonlinear_arith)
    requires
        -first_bound <= first <= first_bound,
        0 <= second <= second_bound,
        0 <= first_bound,
    ensures
        -(first_bound * second_bound) <= first * second <= first_bound * second_bound,
{
}

} // verus!
