//! The error taxonomy of the transcoder. Every failure of a pipeline stage is
//! reported as exactly one of these variants; no stage retries.

use vstd::prelude::*;

verus! {

/// One terminal error per way a render or open invocation can fail.
#[derive(Clone, Copy, Debug, PartialEq, Eq, Structural)]
pub enum TranscodeError {
    /// A scale factor was negative.
    InvalidScale,
    /// A target dimension would be zero, or too large to index in memory.
    DegenerateDimension,
    /// The source bytes could not be decoded as an image.
    SourceUnreadable,
    /// The destination file could not be created or written.
    DestinationUnwritable,
    /// The compressed container stream is malformed or truncated.
    CorruptContainer,
    /// The decompressed payload is not valid UTF-8 text.
    InvalidEncoding,
}

impl TranscodeError {
    /// The description `message` returns for each variant.
    pub open spec fn message_spec(&self) -> Seq<char> {
        match self {
            TranscodeError::InvalidScale => "Scale cannot be negative"@,
            TranscodeError::DegenerateDimension => "Scaled dimensions are out of range"@,
            TranscodeError::SourceUnreadable => "Could not decode the source image"@,
            TranscodeError::DestinationUnwritable => "Could not write the destination file"@,
            TranscodeError::CorruptContainer => "Compressed data is corrupt"@,
            TranscodeError::InvalidEncoding => "Decompressed data is not valid UTF-8"@,
        }
    }

    /// A fixed human-readable description of the variant.
    pub fn message(&self) -> (r: &'static str)
        ensures
            r@ == self.message_spec(),
    {
        match self {
            TranscodeError::InvalidScale => "Scale cannot be negative",
            TranscodeError::DegenerateDimension => "Scaled dimensions are out of range",
            TranscodeError::SourceUnreadable => "Could not decode the source image",
            TranscodeError::DestinationUnwritable => "Could not write the destination file",
            TranscodeError::CorruptContainer => "Compressed data is corrupt",
            TranscodeError::InvalidEncoding => "Decompressed data is not valid UTF-8",
        }
    }
}

} // verus!
