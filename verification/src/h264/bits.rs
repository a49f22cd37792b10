//! Most-significant-bit-first bit reading and Exp-Golomb codes.

use vstd::arithmetic::power2::{
    lemma2_to64, lemma_pow2_strictly_increases, lemma_pow2_unfold, pow2,
};
use vstd::bits::lemma_u64_shl_is_mul;
use vstd::prelude::*;

use super::error::{H264Error, Result};

verus! {

/// The bit at `index`, counted from the most significant bit of the first byte.
pub open spec fn bit_at(data: Seq<u8>, index: int) -> bool {
    (data[index / 8] >> ((7 - index % 8) as u8)) & 1u8 == 1u8
}

/// The unsigned number that `count` bits from `start` on spell out.
pub open spec fn bits_value(data: Seq<u8>, start: int, count: nat) -> nat
    decreases count,
{
    if count == 0 {
        0
    } else {
        2 * bits_value(data, start, (count - 1) as nat) + if bit_at(data, start + count - 1) {
            1nat
        } else {
            0nat
        }
    }
}

/// How many zero bits come before the first one bit of an Exp-Golomb code
/// at `start`, of which `zeros` are known. A code with 32 of them is no code.
pub open spec fn golomb_prefix(data: Seq<u8>, start: int, zeros: nat) -> Result<nat>
    decreases 32 - zeros,
{
    if zeros >= 32 {
        Err(H264Error::UnexpectedEof)
    } else if start + zeros >= 8 * data.len() {
        Err(H264Error::UnexpectedEof)
    } else if bit_at(data, start + zeros) {
        Ok(zeros)
    } else {
        golomb_prefix(data, start, zeros + 1)
    }
}

/// The signed value of the Exp-Golomb code number `code`: 0, 1, -1, 2, -2, ...
pub open spec fn golomb_signed(code: u32) -> i32 {
    if code % 2 == 1 {
        ((code + 1) / 2) as i32
    } else {
        (-(code as int / 2)) as i32
    }
}

/// A position in a bit stream, or the first failure met on the way there.
///
/// A step on a failed cursor leaves it as it is.
pub struct Cursor {
    pub data: Seq<u8>,
    pub position: int,
    pub error: Option<H264Error>,
}

impl Cursor {
    /// A failure with `error`, unless one came before.
    pub open spec fn fail(self, error: H264Error) -> Cursor {
        if self.error is Some {
            self
        } else {
            Cursor { error: Some(error), ..self }
        }
    }

    /// Fails with `error` unless `condition` holds.
    pub open spec fn require(self, condition: bool, error: H264Error) -> Cursor {
        if condition {
            self
        } else {
            self.fail(error)
        }
    }

    /// Reads `count` bits as an unsigned number.
    pub open spec fn bits(self, count: nat) -> (u32, Cursor) {
        if self.error is Some {
            (0, self)
        } else if self.position + count > 8 * self.data.len() {
            (0, self.fail(H264Error::UnexpectedEof))
        } else {
            (
                bits_value(self.data, self.position, count) as u32,
                Cursor { position: self.position + count, ..self },
            )
        }
    }

    /// Reads one bit as a truth value.
    pub open spec fn flag(self) -> (bool, Cursor) {
        if self.error is Some {
            (false, self)
        } else if self.position >= 8 * self.data.len() {
            (false, self.fail(H264Error::UnexpectedEof))
        } else {
            (
                bit_at(self.data, self.position),
                Cursor { position: self.position + 1, ..self },
            )
        }
    }

    /// Reads an unsigned Exp-Golomb code.
    pub open spec fn ue(self) -> (u32, Cursor) {
        if self.error is Some {
            (0, self)
        } else {
            match golomb_prefix(self.data, self.position, 0) {
                Err(error) => (0, self.fail(error)),
                Ok(zeros) => {
                    let start = self.position + zeros + 1;
                    if start + zeros > 8 * self.data.len() {
                        (0, self.fail(H264Error::UnexpectedEof))
                    } else {
                        (
                            (pow2(zeros) - 1 + bits_value(self.data, start, zeros)) as u32,
                            Cursor { position: start + zeros, ..self },
                        )
                    }
                },
            }
        }
    }

    /// Reads a signed Exp-Golomb code.
    pub open spec fn se(self) -> (i32, Cursor) {
        let (code, cursor) = self.ue();
        (golomb_signed(code), cursor)
    }
}

/// What a reading function did: on success its value and the reader are those
/// of `step`, on failure its error is that of `step`.
pub open spec fn follows<'a, T>(
    result: Result<T>,
    reader: BitReader<'a>,
    step: (T, Cursor),
) -> bool {
    match result {
        Ok(value) => step.1.error is None && value == step.0 && reader.cursor() == step.1,
        Err(error) => step.1.error == Some(error),
    }
}

/// As [`follows`], for a value that is known by its view.
pub open spec fn follows_view<'a, T: View>(
    result: Result<T>,
    reader: BitReader<'a>,
    step: (T::V, Cursor),
) -> bool {
    match result {
        Ok(value) => step.1.error is None && value@ == step.0 && reader.cursor() == step.1,
        Err(error) => step.1.error == Some(error),
    }
}

/// A most-significant-bit-first reader over borrowed bytes.
#[derive(Debug, Clone, Copy)]
pub struct BitReader<'a> {
    data: &'a [u8],
    byte: usize,
    bit: u8,
}

impl<'a> BitReader<'a> {
    #[verifier::type_invariant]
    spec fn well_formed(self) -> bool {
        &&& self.bit < 8
        &&& self.byte <= self.data@.len()
        &&& self.byte == self.data@.len() ==> self.bit == 0
    }

    /// The bytes that are read.
    pub closed spec fn data(self) -> Seq<u8> {
        self.data@
    }

    /// How many bits have been read.
    pub closed spec fn position(self) -> int {
        8 * self.byte + self.bit
    }

    /// The reader as a cursor that has not failed.
    pub open spec fn cursor(self) -> Cursor {
        Cursor { data: self.data(), position: self.position(), error: None }
    }

    /// A reader at the first bit of `data`.
    pub fn new(data: &'a [u8]) -> (reader: Self)
        ensures
            reader.data() == data@,
            reader.position() == 0,
    {
        BitReader { data, byte: 0, bit: 0 }
    }

    /// The number of bits read so far.
    pub fn bit_position(&self) -> (position: usize)
        requires
            8 * self.data().len() <= usize::MAX,
        ensures
            position == self.position(),
    {
        proof {
            use_type_invariant(self);
        }
        self.byte * 8 + self.bit as usize
    }

    /// The number of bits read of the current byte.
    pub fn bit_offset(&self) -> (offset: u8)
        ensures
            offset == self.position() % 8,
    {
        proof {
            use_type_invariant(self);
        }
        self.bit
    }

    /// Whether every bit has been read.
    pub fn is_at_end(&self) -> (end: bool)
        ensures
            end == (self.position() == 8 * self.data().len()),
            self.position() <= 8 * self.data().len(),
    {
        proof {
            use_type_invariant(self);
        }
        self.byte == self.data.len()
    }

    /// Reads one bit.
    pub fn read_bit(&mut self) -> (result: Result<bool>)
        ensures
            follows(result, *final(self), old(self).cursor().flag()),
            final(self).data() == old(self).data(),
            result is Err ==> final(self).position() == old(self).position(),
    {
        proof {
            use_type_invariant(&*self);
        }
        if self.byte == self.data.len() {
            return Err(H264Error::UnexpectedEof);
        }
        let value: u8 = (self.data[self.byte] >> (7 - self.bit)) & 1u8;
        assert((self.position()) / 8 == self.byte);
        if self.bit == 7 {
            self.bit = 0;
            self.byte = self.byte + 1;
        } else {
            self.bit = self.bit + 1;
        }
        Ok(value == 1)
    }

    /// Reads `count` bits as an unsigned number.
    pub fn read_bits(&mut self, count: u32) -> (result: Result<u32>)
        requires
            count <= 32,
        ensures
            follows(result, *final(self), old(self).cursor().bits(count as nat)),
            final(self).data() == old(self).data(),
    {
        proof {
            use_type_invariant(&*self);
            lemma_pow2_32();
            lemma2_to64();
        }
        let ghost start = self.position();
        let ghost data = self.data();
        let mut value: u64 = 0;
        let mut done: u32 = 0;
        while done < count
            invariant
                done <= count <= 32,
                self.data() == data,
                data == old(self).data(),
                start == old(self).position(),
                self.position() == start + done,
                start + done <= 8 * data.len(),
                value == bits_value(data, start, done as nat),
                value < pow2(done as nat),
                pow2(32) == 0x1_0000_0000,
            decreases count - done,
        {
            let ghost before = value;
            let bit = match self.read_bit() {
                Ok(bit) => bit,
                Err(error) => {
                    assert(start + count > 8 * data.len());
                    return Err(error);
                },
            };
            proof {
                lemma_pow2_unfold((done + 1) as nat);
                if done < 31 {
                    lemma_pow2_strictly_increases((done + 1) as nat, 32);
                }
            }
            value = value * 2 + if bit { 1u64 } else { 0u64 };
            done = done + 1;
        }
        proof {
            if count < 32 {
                lemma_pow2_strictly_increases(count as nat, 32);
            }
        }
        Ok(value as u32)
    }

    /// Reads an unsigned Exp-Golomb code.
    pub fn read_ue(&mut self) -> (result: Result<u32>)
        ensures
            follows(result, *final(self), old(self).cursor().ue()),
            final(self).data() == old(self).data(),
    {
        let ghost start = self.position();
        let ghost data = self.data();
        let mut zeros: u32 = 0;
        loop
            invariant_except_break
                zeros < 32,
                self.data() == data,
                data == old(self).data(),
                start == old(self).position(),
                self.position() == start + zeros,
                golomb_prefix(data, start, 0) == golomb_prefix(data, start, zeros as nat),
            ensures
                zeros < 32,
                self.data() == data,
                data == old(self).data(),
                start == old(self).position(),
                self.position() == start + zeros + 1,
                golomb_prefix(data, start, 0) == Ok::<nat, H264Error>(zeros as nat),
            decreases 32 - zeros,
        {
            if self.read_bit()? {
                break;
            }
            zeros = zeros + 1;
            if zeros == 32 {
                return Err(H264Error::UnexpectedEof);
            }
        }
        let suffix: u32 = self.read_bits(zeros)?;
        let power: u64 = 1u64 << zeros;
        proof {
            lemma_pow2_32();
            lemma_pow2_strictly_increases(zeros as nat, 32);
            lemma_u64_shl_is_mul(1, zeros as u64);
            lemma_bits_bound(data, start + zeros + 1, zeros as nat);
            lemma_pow2_unfold((zeros + 1) as nat);
            if zeros < 31 {
                lemma_pow2_strictly_increases((zeros + 1) as nat, 32);
            }
        }
        Ok((power - 1 + suffix as u64) as u32)
    }

    /// Reads a signed Exp-Golomb code.
    pub fn read_se(&mut self) -> (result: Result<i32>)
        ensures
            follows(result, *final(self), old(self).cursor().se()),
            final(self).data() == old(self).data(),
    {
        let code: u32 = self.read_ue()?;
        proof {
            lemma_ue_bound(old(self).cursor());
        }
        if code % 2 == 1 {
            Ok(((code + 1) / 2) as i32)
        } else {
            Ok(-((code / 2) as i32))
        }
    }
}

/// `2^32` as a number.
pub proof fn lemma_pow2_32()
    ensures
        pow2(32) == 0x1_0000_0000,
{
    lemma2_to64();
}

/// A number spelled by `count` bits is below `2^count`.
pub proof fn lemma_bits_bound(data: Seq<u8>, start: int, count: nat)
    ensures
        bits_value(data, start, count) < pow2(count),
    decreases count,
{
    if count == 0 {
        lemma2_to64();
    } else {
        lemma_bits_bound(data, start, (count - 1) as nat);
        lemma_pow2_unfold(count);
    }
}

/// A prefix has at most 31 zeros, and its zeros are inside the data.
proof fn lemma_prefix_bound(data: Seq<u8>, start: int, zeros: nat)
    ensures
        golomb_prefix(data, start, zeros) matches Ok(count) ==> count < 32,
    decreases 32 - zeros,
{
    if zeros < 32 && start + zeros < 8 * data.len() && !bit_at(data, start + zeros) {
        lemma_prefix_bound(data, start, zeros + 1);
    }
}

/// An Exp-Golomb code number stays below the largest `u32`.
pub proof fn lemma_ue_bound(cursor: Cursor)
    ensures
        cursor.ue().0 < u32::MAX,
{
    lemma_prefix_bound(cursor.data, cursor.position, 0);
    if let Ok(zeros) = golomb_prefix(cursor.data, cursor.position, 0) {
        lemma_bits_bound(cursor.data, cursor.position + zeros + 1, zeros);
        lemma_pow2_32();
        lemma_pow2_unfold(zeros + 1);
        if zeros < 31 {
            lemma_pow2_strictly_increases(zeros + 1, 32);
        }
    }
}

/// The bits that are left behind one cursor also come next behind another, which
/// may have more of them, and may be at another place in its byte.
pub open spec fn begins(short: Cursor, long: Cursor) -> bool {
    &&& short.error is None
    &&& long.error is None
    &&& 8 * short.data.len() - short.position <= 8 * long.data.len() - long.position
    &&& forall|index: int|
        short.position <= index < 8 * short.data.len() ==> #[trigger] bit_at(short.data, index)
            == bit_at(long.data, index + (long.position - short.position))
}

/// Where a step succeeds, another gives the same, and the bits behind the two are
/// alike.
pub open spec fn same_step<T>(short: (T, Cursor), long: (T, Cursor)) -> bool {
    short.1.error is None ==> long.0 == short.0 && begins(short.1, long.1)
}

/// A bit is read alike.
pub proof fn lemma_same_flag(short: Cursor, long: Cursor)
    requires
        begins(short, long),
    ensures
        same_step(short.flag(), long.flag()),
{
}

/// Bits that are the same spell the same number.
proof fn lemma_same_value(short: Cursor, long: Cursor, offset: int, count: nat)
    requires
        begins(short, long),
        0 <= offset,
        short.position + offset + count <= 8 * short.data.len(),
    ensures
        bits_value(short.data, short.position + offset, count) == bits_value(
            long.data,
            long.position + offset,
            count,
        ),
    decreases count,
{
    if count > 0 {
        lemma_same_value(short, long, offset, (count - 1) as nat);
        assert(bit_at(short.data, short.position + offset + count - 1) == bit_at(
            long.data,
            long.position + offset + count - 1,
        ));
    }
}

/// A number of bits is read alike.
pub proof fn lemma_same_bits(short: Cursor, long: Cursor, count: nat)
    requires
        begins(short, long),
    ensures
        same_step(short.bits(count), long.bits(count)),
{
    if short.bits(count).1.error is None {
        lemma_same_value(short, long, 0, count);
    }
}

/// A prefix of zeros is read alike.
proof fn lemma_same_prefix(short: Cursor, long: Cursor, zeros: nat)
    requires
        begins(short, long),
    ensures
        golomb_prefix(short.data, short.position, zeros) is Ok ==> golomb_prefix(
            long.data,
            long.position,
            zeros,
        ) == golomb_prefix(short.data, short.position, zeros),
    decreases 32 - zeros,
{
    if zeros < 32 && short.position + zeros < 8 * short.data.len() {
        assert(bit_at(short.data, short.position + zeros) == bit_at(
            long.data,
            long.position + zeros,
        ));
        lemma_same_prefix(short, long, zeros + 1);
    }
}

/// An Exp-Golomb code is read alike.
pub proof fn lemma_same_ue(short: Cursor, long: Cursor)
    requires
        begins(short, long),
    ensures
        same_step(short.ue(), long.ue()),
{
    if short.ue().1.error is None {
        lemma_same_prefix(short, long, 0);
        let zeros = golomb_prefix(short.data, short.position, 0)->Ok_0;
        lemma_same_value(short, long, zeros as int + 1, zeros);
    }
}

} // verus!
