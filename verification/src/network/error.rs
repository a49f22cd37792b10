//! The errors of the network layer.

use vstd::prelude::*;

use crate::input::io_error_text;
use crate::text::{decimal, decimal_text};

verus! {

/// What kind of failure an error is.
#[derive(Debug, Clone, Copy, PartialEq, Eq, Structural)]
#[non_exhaustive]
pub enum ErrorKind {
    /// The source failed in its own way.
    Source,
    InvalidInput,
    InvalidData,
    UnexpectedEof,
}

/// Why a range of a remote object was not read.
#[derive(Debug)]
#[non_exhaustive]
pub enum NetworkError {
    /// The error of the source.
    Source(std::io::Error),
    IntegerOverflow,
    /// A block that is not as long as it must be.
    BlockLength { returned: usize, expected: usize },
    InvalidInput(&'static str),
    InvalidResponse(&'static str),
}

/// Result of the network layer.
pub type Result<T> = std::result::Result<T, NetworkError>;

impl NetworkError {
    pub open spec fn kind_of(self) -> ErrorKind {
        match self {
            NetworkError::Source(_) => ErrorKind::Source,
            NetworkError::IntegerOverflow => ErrorKind::InvalidInput,
            NetworkError::BlockLength { .. } => ErrorKind::UnexpectedEof,
            NetworkError::InvalidInput(_) => ErrorKind::InvalidInput,
            NetworkError::InvalidResponse(_) => ErrorKind::InvalidData,
        }
    }

    pub fn kind(&self) -> (kind: ErrorKind)
        ensures
            kind == self.kind_of(),
    {
        match self {
            NetworkError::Source(_) => ErrorKind::Source,
            NetworkError::IntegerOverflow => ErrorKind::InvalidInput,
            NetworkError::BlockLength { .. } => ErrorKind::UnexpectedEof,
            NetworkError::InvalidInput(_) => ErrorKind::InvalidInput,
            NetworkError::InvalidResponse(_) => ErrorKind::InvalidData,
        }
    }

    /// What the error says, but for the words of a source's own error.
    pub open spec fn says(self, text: Seq<char>) -> bool {
        match self {
            NetworkError::Source(_) => true,
            NetworkError::IntegerOverflow => text == "range input integer overflow"@,
            NetworkError::BlockLength { returned, expected } => text == "range source returned "@
                + decimal(returned as nat) + " bytes for expected "@ + decimal(expected as nat)
                + "-byte block"@,
            NetworkError::InvalidInput(message) => text == message@,
            NetworkError::InvalidResponse(message) => text == message@,
        }
    }

    pub fn to_string(&self) -> (text: String)
        ensures
            self.says(text@),
    {
        match self {
            NetworkError::Source(error) => io_error_text(error),
            NetworkError::IntegerOverflow => String::from_str("range input integer overflow"),
            NetworkError::BlockLength { returned, expected } => {
                let mut text: String = String::from_str("range source returned ");
                text.append(decimal_text(*returned as u64).as_str());
                text.append(" bytes for expected ");
                text.append(decimal_text(*expected as u64).as_str());
                text.append("-byte block");
                text
            },
            NetworkError::InvalidInput(message) => String::from_str(message),
            NetworkError::InvalidResponse(message) => String::from_str(message),
        }
    }
}

} // verus!
