//! Random-access inputs.

use vstd::prelude::*;

verus! {

/// The error of an input.
#[verifier::external_type_specification]
#[verifier::external_body]
pub struct ExIoError(std::io::Error);

/// `std::io::Error` as text. What it says is up to the system or the source, so
/// that nothing is claimed of the result.
#[verifier::external_body]
pub(crate) fn io_error_text(error: &std::io::Error) -> (text: String) {
    error.to_string()
}

/// What there is to know of an input.
pub struct InputView {
    pub content: Seq<u8>,
    pub dependable: bool,
    pub measured: bool,
}

/// What holds of an input that does not describe itself: it is a function of
/// the input, and nothing more is known.
pub open spec fn undescribed<I: ?Sized>(input: &I) -> InputView {
    arbitrary::<spec_fn(&I) -> InputView>()(input)
}

/// A random-access source of bytes, in memory, on disk or elsewhere.
///
/// Reads may fail and may deliver less than they are asked for, but what they
/// deliver are the bytes of the source. Where a source does not
/// describe itself, nothing is known of its bytes beforehand.
pub trait MediaInput {
    /// The bytes of the source.
    open spec fn content(&self) -> Seq<u8> {
        undescribed(self).content
    }

    /// Reads never fail, and deliver something wherever there is something.
    open spec fn dependable(&self) -> bool {
        undescribed(self).dependable
    }

    /// The source can tell how many bytes it has.
    open spec fn measured(&self) -> bool {
        undescribed(self).measured
    }

    /// The number of bytes, where it is known.
    fn len(&self) -> (result: std::io::Result<Option<u64>>)
        ensures
            self.dependable() ==> (result matches Ok(length) && match length {
                Some(length) => self.measured() && length == self.content().len(),
                None => !self.measured(),
            }),
    ;

    /// Announces that a range will be read soon.
    fn prefetch(&self, offset: u64, length: usize) -> (result: std::io::Result<()>)
        ensures
            self.dependable() ==> result is Ok,
    ;

    /// Reads bytes from `offset` on and returns how many were read.
    fn read_at(&self, offset: u64, buffer: &mut [u8]) -> (result: std::io::Result<usize>)
        ensures
            final(buffer)@.len() == old(buffer)@.len(),
            match result {
                Ok(count) => 0 < count <= old(buffer)@.len() ==> offset + count
                    <= self.content().len() && final(buffer)@.take(count as int)
                    == self.content().subrange(offset as int, offset + count),
                Err(_) => true,
            },
            self.dependable() ==> (result matches Ok(count) && count <= old(buffer)@.len() && (count
                == 0 <==> old(buffer)@.len() == 0 || offset >= self.content().len())),
    ;
}

impl MediaInput for Vec<u8> {
    open spec fn content(&self) -> Seq<u8> {
        self@
    }

    open spec fn dependable(&self) -> bool {
        true
    }

    open spec fn measured(&self) -> bool {
        true
    }

    fn len(&self) -> (result: std::io::Result<Option<u64>>) {
        let length: usize = self.as_slice().len();
        Ok(Some(length as u64))
    }

    fn prefetch(&self, offset: u64, length: usize) -> (result: std::io::Result<()>) {
        Ok(())
    }

    fn read_at(&self, offset: u64, buffer: &mut [u8]) -> (result: std::io::Result<usize>) {
        let length: usize = self.as_slice().len();
        if offset >= length as u64 {
            return Ok(0);
        }
        let start: usize = offset as usize;
        let available: usize = length - start;
        let count: usize = if buffer.len() < available {
            buffer.len()
        } else {
            available
        };
        let ghost before = buffer@;
        let mut index: usize = 0;
        while index < count
            invariant
                index <= count,
                count <= buffer@.len(),
                buffer@.len() == before.len(),
                start + count <= self@.len() == length,
                forall|i: int| 0 <= i < index ==> buffer@[i] == self@[start + i],
            decreases count - index,
        {
            buffer[index] = self[start + index];
            index = index + 1;
        }
        assert(buffer@.take(count as int) =~= self@.subrange(start as int, start + count));
        Ok(count)
    }
}

} // verus!
