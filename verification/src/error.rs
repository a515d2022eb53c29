//! The error taxonomy of the library.

use vstd::prelude::*;

verus! {

/// Everything that can go wrong while locating, parsing, serializing or
/// rewriting a tag block.
#[derive(Clone, Copy, Debug, PartialEq, Eq, Structural)]
pub enum LoftyError {
    /// The file-type probe rejected the container.
    UnsupportedContainer,
    /// An offset computation underflowed or a declared block size does not
    /// fit inside the file.
    MalformedSize,
    /// The serialized tag would not fit the 32-bit size field.
    TooMuchData,
    /// Bytes that must decode strictly as UTF-8 did not.
    InvalidEncoding,
    /// A read or seek ran past the available data.
    EndOfStream,
}

impl LoftyError {
    /// A short description of the error, for callers that report it.
    pub fn message(&self) -> &'static str {
        match self {
            LoftyError::UnsupportedContainer => "unsupported container format",
            LoftyError::MalformedSize => "tag block declares an invalid size",
            LoftyError::TooMuchData => "serialized tag exceeds the 32-bit size field",
            LoftyError::InvalidEncoding => "expected strictly valid UTF-8",
            LoftyError::EndOfStream => "read or seek past the end of the data",
        }
    }
}

} // verus!
