//! Big-endian fields of boxes.

use vstd::prelude::*;

use super::error::{is_fault, Mp4Error, Result};
use super::fourcc::{big_endian_4, FourCc};
use crate::input::MediaInput;
use crate::shared::filled;

verus! {

/// A place in a box, and the error that reading met.
pub struct ByteCursor {
    pub content: Seq<u8>,
    pub position: int,
    pub end: int,
    pub error: Option<Mp4Error>,
}

impl ByteCursor {
    /// The place `start` of a box that ends at `end`.
    pub open spec fn at(content: Seq<u8>, start: int, end: int) -> ByteCursor {
        ByteCursor {
            content,
            position: start,
            end,
            error: if start > end {
                Some(Mp4Error::InvalidData("reader range is reversed"))
            } else {
                None
            },
        }
    }

    /// The cursor with an error, if it has none yet.
    pub open spec fn fail(self, error: Mp4Error) -> ByteCursor {
        if self.error is Some {
            self
        } else {
            ByteCursor { error: Some(error), ..self }
        }
    }

    /// The cursor with an error where a condition fails.
    pub open spec fn require(self, condition: bool, error: Mp4Error) -> ByteCursor {
        if condition {
            self
        } else {
            self.fail(error)
        }
    }

    /// How many bytes are left.
    pub open spec fn remaining(self) -> int {
        self.end - self.position
    }

    /// The cursor behind `count` bytes that are not looked at.
    pub open spec fn skip(self, count: int) -> ByteCursor {
        if self.error is Some {
            self
        } else if self.position + count > u64::MAX {
            self.fail(Mp4Error::IntegerOverflow)
        } else if count > self.remaining() {
            self.fail(Mp4Error::InvalidData("MP4 field exceeds its box"))
        } else {
            ByteCursor { position: self.position + count, ..self }
        }
    }

    /// The next `count` bytes and the cursor behind them.
    pub open spec fn bytes(self, count: int) -> (Seq<u8>, ByteCursor) {
        if self.error is Some {
            (Seq::empty(), self)
        } else if count > self.remaining() {
            (Seq::empty(), self.fail(Mp4Error::InvalidData("MP4 field exceeds its box")))
        } else if count == 0 {
            (Seq::empty(), self)
        } else if self.position + count > self.content.len() {
            (Seq::empty(), self.fail(Mp4Error::InvalidData("unexpected end of MP4 input")))
        } else {
            (
                self.content.subrange(self.position, self.position + count),
                ByteCursor { position: self.position + count, ..self },
            )
        }
    }

    /// An 8-bit number.
    pub open spec fn u8(self) -> (u8, ByteCursor) {
        let (bytes, cursor) = self.bytes(1);
        (bytes[0], cursor)
    }

    /// A 16-bit number.
    pub open spec fn u16(self) -> (u16, ByteCursor) {
        let (bytes, cursor) = self.bytes(2);
        ((bytes[0] * 0x100 + bytes[1]) as u16, cursor)
    }

    /// A signed 16-bit number.
    pub open spec fn i16(self) -> (i16, ByteCursor) {
        let (value, cursor) = self.u16();
        (signed(value as int, 0x8000) as i16, cursor)
    }

    /// A 24-bit number.
    pub open spec fn u24(self) -> (u32, ByteCursor) {
        let (bytes, cursor) = self.bytes(3);
        ((bytes[0] * 0x1_0000 + bytes[1] * 0x100 + bytes[2]) as u32, cursor)
    }

    /// A 32-bit number.
    pub open spec fn u32(self) -> (u32, ByteCursor) {
        let (bytes, cursor) = self.bytes(4);
        (big_endian_4(bytes) as u32, cursor)
    }

    /// A signed 32-bit number.
    pub open spec fn i32(self) -> (i32, ByteCursor) {
        let (value, cursor) = self.u32();
        (signed(value as int, 0x8000_0000) as i32, cursor)
    }

    /// A 64-bit number.
    pub open spec fn u64(self) -> (u64, ByteCursor) {
        let (bytes, cursor) = self.bytes(8);
        (big_endian_8(bytes) as u64, cursor)
    }

    /// A signed 64-bit number.
    pub open spec fn i64(self) -> (i64, ByteCursor) {
        let (value, cursor) = self.u64();
        (signed(value as int, 0x8000_0000_0000_0000) as i64, cursor)
    }

    /// A four-character code.
    pub open spec fn fourcc(self) -> (FourCc, ByteCursor) {
        let (value, cursor) = self.u32();
        (FourCc { code: value }, cursor)
    }

    /// The next `length` bytes, if they are no more than `maximum`.
    pub open spec fn vector(self, length: int, maximum: int) -> (Seq<u8>, ByteCursor) {
        self.require(
            length <= usize::MAX,
            Mp4Error::IntegerOverflow,
        ).require(
            length <= maximum,
            Mp4Error::InvalidData("MP4 allocation exceeds its limit"),
        ).bytes(length)
    }

    /// The version and the flags of a full box.
    pub open spec fn full_box(self) -> ((u8, u32), ByteCursor) {
        let (version, cursor) = self.u8();
        let (flags, cursor) = cursor.u24();
        ((version, flags), cursor)
    }

    /// The cursor, which must be at the end of its box.
    pub open spec fn finished(self, message: &'static str) -> ByteCursor {
        self.require(self.remaining() == 0, Mp4Error::InvalidData(message))
    }

    /// A value that was read, or the error that was met.
    pub open spec fn outcome<T>(self, value: T) -> Result<T> {
        match self.error {
            Some(error) => Err(error),
            None => Ok(value),
        }
    }
}

/// A number in two's complement with the sign at `half`.
pub open spec fn signed(value: int, half: int) -> int {
    if value < half {
        value
    } else {
        value - 2 * half
    }
}

/// Eight bytes as one number, the first of them the highest.
pub open spec fn big_endian_8(bytes: Seq<u8>) -> int {
    big_endian_4(bytes) * 0x1_0000_0000 + big_endian_4(bytes.skip(4))
}

/// A reader did what the syntax says: it delivered the value and stands behind
/// it, or it met the error. An input that is not dependable may fail instead.
pub open spec fn reads<T>(
    result: Result<T>,
    after: ByteCursor,
    step: (T, ByteCursor),
    dependable: bool,
) -> bool {
    match result {
        Ok(value) => step.1.error is None && value == step.0 && after == step.1,
        Err(error) => step.1.error == Some(error) || !dependable && is_fault(error),
    }
}

/// As `reads`, of the view of a value.
pub open spec fn reads_view<T: View>(
    result: Result<T>,
    after: ByteCursor,
    step: (T::V, ByteCursor),
    dependable: bool,
) -> bool {
    match result {
        Ok(value) => step.1.error is None && value@ == step.0 && after == step.1,
        Err(error) => step.1.error == Some(error) || !dependable && is_fault(error),
    }
}

/// Reads the fields of one box.
pub struct BoundedReader<'input, I: MediaInput> {
    input: &'input I,
    position: u64,
    end: u64,
}

impl<'input, I: MediaInput> View for BoundedReader<'input, I> {
    type V = ByteCursor;

    closed spec fn view(&self) -> ByteCursor {
        ByteCursor {
            content: self.input.content(),
            position: self.position as int,
            end: self.end as int,
            error: None,
        }
    }
}

impl<'input, I: MediaInput> BoundedReader<'input, I> {
    /// The input never fails.
    pub closed spec fn dependable(self) -> bool {
        self.input.dependable()
    }

    /// The place is in the box.
    pub closed spec fn well_formed(self) -> bool {
        self.position <= self.end
    }

    pub fn new(input: &'input I, start: u64, end: u64) -> (result: Result<Self>)
        ensures
            match result {
                Ok(reader) => reader.well_formed() && reader.dependable() == input.dependable()
                    && start <= end && reader@ == ByteCursor::at(
                    input.content(),
                    start as int,
                    end as int,
                ),
                Err(error) => start > end && error == Mp4Error::InvalidData(
                    "reader range is reversed",
                ),
            },
    {
        if start > end {
            return Err(Mp4Error::InvalidData("reader range is reversed"));
        }
        Ok(BoundedReader { input, position: start, end })
    }

    #[inline]
    pub fn position(&self) -> (position: u64)
        ensures
            position == self@.position,
    {
        self.position
    }

    #[inline]
    pub fn remaining(&self) -> (remaining: u64)
        requires
            self.well_formed(),
        ensures
            remaining == self@.remaining(),
    {
        self.end - self.position
    }

    pub fn skip(&mut self, count: u64) -> (result: Result<()>)
        requires
            old(self).well_formed(),
        ensures
            final(self).well_formed(),
            final(self).dependable() == old(self).dependable(),
            reads(
                result,
                final(self)@,
                ((), old(self)@.skip(count as int)),
                old(self).dependable(),
            ),
    {
        let position: u64 = match self.position.checked_add(count) {
            Some(position) => position,
            None => return Err(Mp4Error::IntegerOverflow),
        };
        if position > self.end {
            return Err(Mp4Error::InvalidData("MP4 field exceeds its box"));
        }
        self.position = position;
        Ok(())
    }

    pub fn read_u8(&mut self) -> (result: Result<u8>)
        requires
            old(self).well_formed(),
        ensures
            final(self).well_formed(),
            final(self).dependable() == old(self).dependable(),
            reads(result, final(self)@, old(self)@.u8(), old(self).dependable()),
    {
        let bytes = self.read_bytes(1)?;
        Ok(bytes[0])
    }

    pub fn read_u16(&mut self) -> (result: Result<u16>)
        requires
            old(self).well_formed(),
        ensures
            final(self).well_formed(),
            final(self).dependable() == old(self).dependable(),
            reads(result, final(self)@, old(self)@.u16(), old(self).dependable()),
    {
        let bytes = self.read_bytes(2)?;
        Ok(bytes[0] as u16 * 0x100 + bytes[1] as u16)
    }

    pub fn read_i16(&mut self) -> (result: Result<i16>)
        requires
            old(self).well_formed(),
        ensures
            final(self).well_formed(),
            final(self).dependable() == old(self).dependable(),
            reads(result, final(self)@, old(self)@.i16(), old(self).dependable()),
    {
        let value: u16 = self.read_u16()?;
        if value < 0x8000 {
            Ok(value as i16)
        } else {
            Ok((value as i32 - 0x1_0000) as i16)
        }
    }

    pub fn read_u24(&mut self) -> (result: Result<u32>)
        requires
            old(self).well_formed(),
        ensures
            final(self).well_formed(),
            final(self).dependable() == old(self).dependable(),
            reads(result, final(self)@, old(self)@.u24(), old(self).dependable()),
            result matches Ok(value) ==> value < 0x100_0000,
    {
        let bytes = self.read_bytes(3)?;
        Ok(bytes[0] as u32 * 0x1_0000 + bytes[1] as u32 * 0x100 + bytes[2] as u32)
    }

    pub fn read_u32(&mut self) -> (result: Result<u32>)
        requires
            old(self).well_formed(),
        ensures
            final(self).well_formed(),
            final(self).dependable() == old(self).dependable(),
            reads(result, final(self)@, old(self)@.u32(), old(self).dependable()),
    {
        let bytes = self.read_bytes(4)?;
        Ok(
            bytes[0] as u32 * 0x100_0000 + bytes[1] as u32 * 0x1_0000 + bytes[2] as u32 * 0x100
                + bytes[3] as u32,
        )
    }

    pub fn read_i32(&mut self) -> (result: Result<i32>)
        requires
            old(self).well_formed(),
        ensures
            final(self).well_formed(),
            final(self).dependable() == old(self).dependable(),
            reads(result, final(self)@, old(self)@.i32(), old(self).dependable()),
    {
        let value: u32 = self.read_u32()?;
        if value < 0x8000_0000 {
            Ok(value as i32)
        } else {
            Ok((value as i64 - 0x1_0000_0000) as i32)
        }
    }

    pub fn read_u64(&mut self) -> (result: Result<u64>)
        requires
            old(self).well_formed(),
        ensures
            final(self).well_formed(),
            final(self).dependable() == old(self).dependable(),
            reads(result, final(self)@, old(self)@.u64(), old(self).dependable()),
    {
        let bytes = self.read_bytes(8)?;
        let high: u32 = bytes[0] as u32 * 0x100_0000 + bytes[1] as u32 * 0x1_0000 + bytes[2] as u32
            * 0x100 + bytes[3] as u32;
        let low: u32 = bytes[4] as u32 * 0x100_0000 + bytes[5] as u32 * 0x1_0000 + bytes[6] as u32
            * 0x100 + bytes[7] as u32;
        assert(low == big_endian_4(bytes@.skip(4)));
        Ok(high as u64 * 0x1_0000_0000 + low as u64)
    }

    pub fn read_i64(&mut self) -> (result: Result<i64>)
        requires
            old(self).well_formed(),
        ensures
            final(self).well_formed(),
            final(self).dependable() == old(self).dependable(),
            reads(result, final(self)@, old(self)@.i64(), old(self).dependable()),
    {
        let value: u64 = self.read_u64()?;
        if value < 0x8000_0000_0000_0000 {
            Ok(value as i64)
        } else {
            Ok((value as i128 - 0x1_0000_0000_0000_0000) as i64)
        }
    }

    pub fn read_fourcc(&mut self) -> (result: Result<FourCc>)
        requires
            old(self).well_formed(),
        ensures
            final(self).well_formed(),
            final(self).dependable() == old(self).dependable(),
            reads(result, final(self)@, old(self)@.fourcc(), old(self).dependable()),
    {
        let code: u32 = self.read_u32()?;
        Ok(FourCc { code })
    }

    pub fn read_vec(&mut self, length: u64, maximum: usize) -> (result: Result<Vec<u8>>)
        requires
            old(self).well_formed(),
        ensures
            final(self).well_formed(),
            final(self).dependable() == old(self).dependable(),
            reads_view(
                result,
                final(self)@,
                old(self)@.vector(length as int, maximum as int),
                old(self).dependable(),
            ),
    {
        if length > usize::MAX as u64 {
            return Err(Mp4Error::IntegerOverflow);
        }
        if length as usize > maximum {
            return Err(Mp4Error::InvalidData("MP4 allocation exceeds its limit"));
        }
        self.read_bytes(length as usize)
    }

    /// The version and the flags of a full box.
    pub fn read_full_box(&mut self) -> (result: Result<(u8, u32)>)
        requires
            old(self).well_formed(),
        ensures
            final(self).well_formed(),
            final(self).dependable() == old(self).dependable(),
            reads(result, final(self)@, old(self)@.full_box(), old(self).dependable()),
    {
        let version: u8 = self.read_u8()?;
        let flags: u32 = self.read_u24()?;
        Ok((version, flags))
    }

    /// Fails where there are bytes left.
    pub fn require_finished(&self, message: &'static str) -> (result: Result<()>)
        requires
            self.well_formed(),
        ensures
            match result {
                Ok(()) => self@.remaining() == 0,
                Err(error) => self@.remaining() != 0 && error == Mp4Error::InvalidData(message),
            },
    {
        if self.end != self.position {
            return Err(Mp4Error::InvalidData(message));
        }
        Ok(())
    }

    fn read_bytes(&mut self, count: usize) -> (result: Result<Vec<u8>>)
        requires
            old(self).well_formed(),
        ensures
            final(self).well_formed(),
            final(self).dependable() == old(self).dependable(),
            reads_view(
                result,
                final(self)@,
                old(self)@.bytes(count as int),
                old(self).dependable(),
            ),
    {
        if count as u64 > self.end - self.position {
            return Err(Mp4Error::InvalidData("MP4 field exceeds its box"));
        }
        let ghost start = self.position as int;
        let bytes = read_exact_at(self.input, self.position, count, "unexpected end of MP4 input")?;
        self.position = self.position + count as u64;
        Ok(bytes)
    }
}

/// The `count` bytes from `offset` on, or the error of an input that ends
/// before them.
pub open spec fn exact_bytes(
    content: Seq<u8>,
    offset: int,
    count: int,
    ended: &'static str,
) -> Result<Seq<u8>> {
    if count == 0 {
        Ok(Seq::empty())
    } else if offset + count > content.len() {
        Err(Mp4Error::InvalidData(ended))
    } else {
        Ok(content.subrange(offset, offset + count))
    }
}

/// Reads bytes, in as many steps as the input takes.
pub fn read_exact_at<I: MediaInput>(
    input: &I,
    offset: u64,
    count: usize,
    ended: &'static str,
) -> (result: Result<Vec<u8>>)
    requires
        offset + count <= u64::MAX,
    ensures
        match result {
            Ok(bytes) => exact_bytes(input.content(), offset as int, count as int, ended) == Ok::<
                Seq<u8>,
                Mp4Error,
            >(bytes@),
            Err(error) => {
                ||| exact_bytes(input.content(), offset as int, count as int, ended) == Err::<
                    Seq<u8>,
                    Mp4Error,
                >(error)
                ||| !input.dependable() && (error is Io || error == Mp4Error::InvalidData(ended)
                    || error == Mp4Error::InvalidData(
                    "MediaInput returned more bytes than requested",
                ))
            },
        },
{
    let ghost content = input.content();
    let mut bytes: Vec<u8> = Vec::with_capacity(count);
    while bytes.len() < count
        invariant
            content == input.content(),
            offset + count <= u64::MAX,
            bytes@.len() <= count,
            bytes@.len() > 0 ==> offset + bytes@.len() <= content.len() && bytes@
                == content.subrange(offset as int, offset + bytes@.len()),
        decreases count - bytes@.len(),
    {
        let done: usize = bytes.len();
        let wanted: usize = count - done;
        let mut chunk: Vec<u8> = filled(0u8, wanted);
        let read: usize = match input.read_at(offset + done as u64, chunk.as_mut_slice()) {
            Ok(read) => read,
            Err(error) => return Err(Mp4Error::Io(error)),
        };
        if read == 0 {
            return Err(Mp4Error::InvalidData(ended));
        }
        if read > wanted {
            return Err(Mp4Error::InvalidData("MediaInput returned more bytes than requested"));
        }
        let ghost before = bytes@;
        let ghost part = chunk@.take(read as int);
        let mut index: usize = 0;
        while index < read
            invariant
                index <= read <= chunk@.len(),
                part == chunk@.take(read as int),
                bytes@ == before + part.take(index as int),
            decreases read - index,
        {
            bytes.push(chunk[index]);
            index = index + 1;
            assert(bytes@ =~= before + part.take(index as int));
        }
        assert(part.take(read as int) =~= part);
        assert(bytes@ =~= content.subrange(offset as int, offset + bytes@.len()));
    }
    assert(count == 0 ==> bytes@ =~= Seq::<u8>::empty());
    Ok(bytes)
}

} // verus!
