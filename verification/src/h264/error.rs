//! The errors of the H.264 layer.

use vstd::prelude::*;

verus! {

/// Why a piece of an H.264 stream was refused.
#[derive(Debug, Clone, Copy, PartialEq, Eq)]
#[non_exhaustive]
pub enum H264Error {
    /// A value does not fit the integer that holds it.
    IntegerOverflow,
    /// The first byte of a NAL unit breaks the header syntax.
    InvalidNalHeader,
    /// A byte sequence that emulation prevention rules out.
    InvalidRbspEscape,
    /// A syntax element with a value outside its range.
    InvalidSyntax(&'static str),
    /// The payload does not end in a stop bit and zero bits.
    InvalidTrailingBits,
    /// A picture parameter set that was never received.
    MissingPps(u32),
    /// A sequence parameter set that was never received.
    MissingSps(u32),
    /// The data ends inside a syntax element.
    UnexpectedEof,
    /// Valid syntax that this library does not handle.
    UnsupportedFeature(&'static str),
    /// A profile that this library does not handle.
    UnsupportedProfile(u8),
}

/// Result of the H.264 layer.
pub type Result<T> = std::result::Result<T, H264Error>;

/// The first error, or none.
pub open spec fn or_error(first: Option<H264Error>, second: Option<H264Error>) -> Option<
    H264Error,
> {
    if first is Some {
        first
    } else {
        second
    }
}

/// The first error of `count` steps.
pub open spec fn first_error(errors: spec_fn(int) -> Option<H264Error>, count: int) -> Option<
    H264Error,
>
    decreases count,
{
    if count <= 0 {
        None
    } else {
        or_error(first_error(errors, count - 1), errors(count - 1))
    }
}

/// One error is the first where none came before, and stays it.
pub proof fn lemma_first_error(errors: spec_fn(int) -> Option<H264Error>, index: int, count: int)
    requires
        0 <= index < count,
        first_error(errors, index) is None,
        errors(index) is Some,
    ensures
        first_error(errors, count) == errors(index),
    decreases count,
{
    if count > index + 1 {
        lemma_first_error(errors, index, count - 1);
    }
}

} // verus!
