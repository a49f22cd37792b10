//! The errors of the MP4 layer.

use vstd::prelude::*;

use crate::input::io_error_text;
use crate::text::{decimal, decimal_text};

verus! {

/// Why an MP4 file, or a request of it, was refused.
#[derive(Debug)]
#[non_exhaustive]
pub enum Mp4Error {
    Io(std::io::Error),
    InvalidData(&'static str),
    UnsupportedFeature(&'static str),
    IndexOutOfRange { kind: &'static str, index: usize },
    IntegerOverflow,
    UnknownInputLength,
}

/// Result of the MP4 layer.
pub type Result<T> = std::result::Result<T, Mp4Error>;

impl From<std::io::Error> for Mp4Error {
    fn from(error: std::io::Error) -> (converted: Self) {
        Mp4Error::Io(error)
    }
}

impl vstd::std_specs::convert::FromSpecImpl<std::io::Error> for Mp4Error {
    open spec fn obeys_from_spec() -> bool {
        true
    }

    open spec fn from_spec(error: std::io::Error) -> Mp4Error {
        Mp4Error::Io(error)
    }
}

impl Mp4Error {
    /// What the error says, but for the words of an input's own error.
    pub open spec fn says(self, text: Seq<char>) -> bool {
        match self {
            Mp4Error::Io(_) => exists|words: Seq<char>|
                text == #[trigger] ("MP4 input error: "@ + words),
            Mp4Error::InvalidData(message) => text == "invalid MP4 data: "@ + message@,
            Mp4Error::UnsupportedFeature(message) => text == "unsupported MP4 feature: "@
                + message@,
            Mp4Error::IndexOutOfRange { kind, index } => text == "MP4 "@ + kind@ + " index "@
                + decimal(index as nat) + " is out of range"@,
            Mp4Error::IntegerOverflow => text == "MP4 integer overflow"@,
            Mp4Error::UnknownInputLength => text
                == "MP4 top-level parsing requires a known input length"@,
        }
    }

    pub fn to_string(&self) -> (text: String)
        ensures
            self.says(text@),
    {
        match self {
            Mp4Error::Io(error) => {
                let mut text: String = String::from_str("MP4 input error: ");
                text.append(io_error_text(error).as_str());
                text
            },
            Mp4Error::InvalidData(message) => {
                let mut text: String = String::from_str("invalid MP4 data: ");
                text.append(message);
                text
            },
            Mp4Error::UnsupportedFeature(message) => {
                let mut text: String = String::from_str("unsupported MP4 feature: ");
                text.append(message);
                text
            },
            Mp4Error::IndexOutOfRange { kind, index } => {
                let mut text: String = String::from_str("MP4 ");
                text.append(kind);
                text.append(" index ");
                text.append(decimal_text(*index as u64).as_str());
                text.append(" is out of range");
                text
            },
            Mp4Error::IntegerOverflow => String::from_str("MP4 integer overflow"),
            Mp4Error::UnknownInputLength => String::from_str(
                "MP4 top-level parsing requires a known input length",
            ),
        }
    }
}

/// The errors of an input that fails or delivers too little or too much. Behind
/// the sample descriptions a failed read counts as one more of them.
pub open spec fn is_fault(error: Mp4Error) -> bool {
    ||| error is Io
    ||| error == Mp4Error::InvalidData("unexpected end of MP4 input")
    ||| error == Mp4Error::InvalidData("unexpected end of MP4 sample data")
    ||| error == Mp4Error::InvalidData("MediaInput returned more bytes than requested")
    ||| error == Mp4Error::InvalidData("stsd has more entries than declared")
}

/// A result is the expected one, or a fault of an input that is not
/// dependable.
pub open spec fn meets<T>(result: Result<T>, expected: Result<T>, dependable: bool) -> bool {
    match (result, expected) {
        (Ok(value), Ok(wanted)) => value == wanted,
        (Ok(_), Err(_)) => false,
        (Err(error), Ok(_)) => !dependable && is_fault(error),
        (Err(error), Err(wanted)) => error == wanted || !dependable && is_fault(error),
    }
}

/// As `meets`, of the view of a value.
pub open spec fn meets_view<T: View>(
    result: Result<T>,
    expected: Result<T::V>,
    dependable: bool,
) -> bool {
    match (result, expected) {
        (Ok(value), Ok(wanted)) => value@ == wanted,
        (Ok(_), Err(_)) => false,
        (Err(error), Ok(_)) => !dependable && is_fault(error),
        (Err(error), Err(wanted)) => error == wanted || !dependable && is_fault(error),
    }
}

/// As `meets`, of what a value stands for.
pub open spec fn meets_as<T, W>(
    result: Result<T>,
    image: spec_fn(T) -> W,
    expected: Result<W>,
    dependable: bool,
) -> bool {
    match (result, expected) {
        (Ok(value), Ok(wanted)) => image(value) == wanted,
        (Ok(_), Err(_)) => false,
        (Err(error), Ok(_)) => !dependable && is_fault(error),
        (Err(error), Err(wanted)) => error == wanted || !dependable && is_fault(error),
    }
}

/// The first error of `count` steps.
pub open spec fn first_error(errors: spec_fn(int) -> Option<Mp4Error>, count: int) -> Option<Mp4Error>
    decreases count,
{
    if count <= 0 {
        None
    } else if first_error(errors, count - 1) is Some {
        first_error(errors, count - 1)
    } else {
        errors(count - 1)
    }
}

/// One error is the first where none came before, and stays it.
pub proof fn lemma_first_error(errors: spec_fn(int) -> Option<Mp4Error>, index: int, count: int)
    requires
        0 <= index < count,
        first_error(errors, index) is None,
        errors(index) is Some,
    ensures
        first_error(errors, count) == errors(index),
    decreases count,
{
    if count > index + 1 {
        lemma_first_error(errors, index, count - 1);
    }
}

} // verus!
