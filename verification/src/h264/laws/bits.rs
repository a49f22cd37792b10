//! Laws of bit reading.

use vstd::arithmetic::power2::{lemma2_to64, lemma_pow2_strictly_increases, lemma_pow2_unfold, pow2};
use vstd::prelude::*;

use crate::h264::bits::{
    bit_at, bits_value, golomb_prefix, golomb_signed, lemma_bits_bound, lemma_pow2_32,
    lemma_ue_bound, Cursor,
};
use crate::h264::error::H264Error;

verus! {

/// The first bit of a number is worth the most: it doubles with each bit behind it.
pub proof fn law_first_bit_is_highest(data: Seq<u8>, start: int, count: nat)
    ensures
        bits_value(data, start, count + 1) == (if bit_at(data, start) {
            pow2(count)
        } else {
            0
        }) + bits_value(data, start + 1, count),
    decreases count,
{
    lemma2_to64();
    reveal_with_fuel(bits_value, 2);
    if count > 0 {
        law_first_bit_is_highest(data, start, (count - 1) as nat);
        lemma_pow2_unfold(count);
        assert(bit_at(data, start + (count + 1) - 1) == bit_at(data, start + 1 + count - 1));
    }
}

/// The bits of a byte add up to it.
proof fn lemma_bits_of_byte(byte: u8)
    by (bit_vector)
    ensures
        byte == 128 * ((byte >> 7u8) & 1) + 64 * ((byte >> 6u8) & 1) + 32 * ((byte >> 5u8) & 1) + 16
            * ((byte >> 4u8) & 1) + 8 * ((byte >> 3u8) & 1) + 4 * ((byte >> 2u8) & 1) + 2 * ((byte
            >> 1u8) & 1) + ((byte >> 0u8) & 1),
        (byte >> 7u8) & 1 <= 1,
        (byte >> 6u8) & 1 <= 1,
        (byte >> 5u8) & 1 <= 1,
        (byte >> 4u8) & 1 <= 1,
        (byte >> 3u8) & 1 <= 1,
        (byte >> 2u8) & 1 <= 1,
        (byte >> 1u8) & 1 <= 1,
        (byte >> 0u8) & 1 <= 1,
{
}

/// The eight bits of a byte spell the byte.
pub proof fn law_bytes_are_read_whole(data: Seq<u8>, index: int)
    requires
        0 <= index < data.len(),
    ensures
        bits_value(data, 8 * index, 8) == data[index],
{
    let byte = data[index];
    lemma_bits_of_byte(byte);
    reveal_with_fuel(bits_value, 9);
    assert((8 * index) / 8 == index && (8 * index + 1) / 8 == index && (8 * index + 2) / 8 == index
        && (8 * index + 3) / 8 == index);
    assert((8 * index + 4) / 8 == index && (8 * index + 5) / 8 == index && (8 * index + 6) / 8
        == index && (8 * index + 7) / 8 == index);
    assert(bit_at(data, 8 * index) == ((byte >> 7u8) & 1u8 == 1u8));
    assert(bit_at(data, 8 * index + 1) == ((byte >> 6u8) & 1u8 == 1u8));
    assert(bit_at(data, 8 * index + 2) == ((byte >> 5u8) & 1u8 == 1u8));
    assert(bit_at(data, 8 * index + 3) == ((byte >> 4u8) & 1u8 == 1u8));
    assert(bit_at(data, 8 * index + 4) == ((byte >> 3u8) & 1u8 == 1u8));
    assert(bit_at(data, 8 * index + 5) == ((byte >> 2u8) & 1u8 == 1u8));
    assert(bit_at(data, 8 * index + 6) == ((byte >> 1u8) & 1u8 == 1u8));
    assert(bit_at(data, 8 * index + 7) == ((byte >> 0u8) & 1u8 == 1u8));
}

/// The zeros of a prefix are counted up to its one.
proof fn lemma_prefix(data: Seq<u8>, start: int, zeros: nat, known: nat)
    requires
        known <= zeros < 32,
        start + zeros < 8 * data.len(),
        forall|i: int| 0 <= i < zeros ==> !#[trigger] bit_at(data, start + i),
        bit_at(data, start + zeros),
    ensures
        golomb_prefix(data, start, known) == Ok::<nat, H264Error>(zeros),
    decreases zeros - known,
{
    if known < zeros {
        assert(!bit_at(data, start + known));
        lemma_prefix(data, start, zeros, known + 1);
    }
}

/// An Exp-Golomb code has as many bits behind its first one as zeros before it. It
/// counts from all the codes that are shorter on.
pub proof fn law_golomb_codes(cursor: Cursor, zeros: nat)
    requires
        cursor.error is None,
        zeros < 32,
        cursor.position + 2 * zeros + 1 <= 8 * cursor.data.len(),
        forall|i: int| 0 <= i < zeros ==> !#[trigger] bit_at(cursor.data, cursor.position + i),
        bit_at(cursor.data, cursor.position + zeros),
    ensures
        cursor.ue().0 == pow2(zeros) - 1 + bits_value(
            cursor.data,
            cursor.position + zeros + 1,
            zeros,
        ),
        cursor.ue().1 == (Cursor { position: cursor.position + 2 * zeros + 1, ..cursor }),
{
    lemma_prefix(cursor.data, cursor.position, zeros, 0);
    lemma_bits_bound(cursor.data, cursor.position + zeros + 1, zeros);
    lemma_pow2_32();
    lemma_pow2_unfold(zeros + 1);
    if zeros < 31 {
        lemma_pow2_strictly_increases(zeros + 1, 32);
    }
}

/// Signed codes take turns: one, minus one, two, minus two, and so on.
pub proof fn law_signed_codes_take_turns(code: u32)
    requires
        code < u32::MAX,
    ensures
        code == 0 ==> golomb_signed(code) == 0,
        code % 2 == 1 ==> 2 * golomb_signed(code) == code + 1,
        code % 2 == 0 ==> 2 * golomb_signed(code) == -code,
{
}

/// A signed code is read as the number that it stands for.
pub proof fn law_signed_codes_are_read(cursor: Cursor)
    ensures
        cursor.se().1 == cursor.ue().1,
        cursor.ue().0 % 2 == 1 ==> 2 * cursor.se().0 == cursor.ue().0 + 1,
        cursor.ue().0 % 2 == 0 ==> 2 * cursor.se().0 == -cursor.ue().0,
{
    lemma_ue_bound(cursor);
}

} // verus!
