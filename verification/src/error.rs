//! What can go wrong while a TIFF stream is read.

use vstd::prelude::*;

verus! {

/// The two classes of failure: the stream is too short, or what it holds is
/// not a TIFF stream that this reader accepts.
#[derive(Debug, Clone, Copy, PartialEq, Eq, Structural)]
pub enum ErrorKind {
    /// The stream ended inside a value.
    UnexpectedEof,
    /// The bytes were read, and are not acceptable.
    InvalidData,
}

/// Why reading a TIFF stream failed.
#[derive(Debug, Clone, Copy, PartialEq, Eq, Structural)]
pub enum TiffError {
    /// The stream ended inside a value.
    UnexpectedEof,
    /// The first two bytes are neither `II` nor `MM`.
    InvalidByteOrder,
    /// The version number is below 42.
    InvalidMagicNumber,
    /// The version number is neither 42 nor 43, so the width of the
    /// value/offset field of a directory entry is not known.
    UnsupportedVersion,
    /// A directory announces no entry.
    InvalidEntryCount,
    /// A directory entry names a field type that is not one of the twelve.
    InvalidFieldType,
    /// An ASCII value is not valid UTF-8.
    InvalidAsciiString,
    /// The chain of directories has as many links as the stream has bytes,
    /// and still goes on: it runs in a circle.
    EndlessIfdChain,
}

impl TiffError {
    /// The class of this failure.
    pub open spec fn spec_kind(self) -> ErrorKind {
        match self {
            TiffError::UnexpectedEof => ErrorKind::UnexpectedEof,
            _ => ErrorKind::InvalidData,
        }
    }

    /// The class of this failure.
    pub fn kind(self) -> (k: ErrorKind)
        ensures
            k == self.spec_kind(),
    {
        match self {
            TiffError::UnexpectedEof => ErrorKind::UnexpectedEof,
            _ => ErrorKind::InvalidData,
        }
    }

    /// The text of [`TiffError::message`].
    pub open spec fn spec_message(self) -> Seq<char> {
        match self {
            TiffError::UnexpectedEof => "failed to fill whole buffer"@,
            TiffError::InvalidByteOrder => "Invalid TIFF byte order"@,
            TiffError::InvalidMagicNumber => "Invalid TIFF magic number"@,
            TiffError::UnsupportedVersion => "Unsupported TIFF version"@,
            TiffError::InvalidEntryCount => "Invalid IFD entry count"@,
            TiffError::InvalidFieldType => "Invalid field type"@,
            TiffError::InvalidAsciiString => "Invalid ASCII string"@,
            TiffError::EndlessIfdChain => "Endless IFD chain"@,
        }
    }

    /// A short description of the failure, for a diagnostic.
    pub fn message(self) -> (m: &'static str)
        ensures
            m@ == self.spec_message(),
    {
        match self {
            TiffError::UnexpectedEof => "failed to fill whole buffer",
            TiffError::InvalidByteOrder => "Invalid TIFF byte order",
            TiffError::InvalidMagicNumber => "Invalid TIFF magic number",
            TiffError::UnsupportedVersion => "Unsupported TIFF version",
            TiffError::InvalidEntryCount => "Invalid IFD entry count",
            TiffError::InvalidFieldType => "Invalid field type",
            TiffError::InvalidAsciiString => "Invalid ASCII string",
            TiffError::EndlessIfdChain => "Endless IFD chain",
        }
    }
}

} // verus!
