//! The failures the reader reports.
use vstd::prelude::*;

verus! {

#[verifier::external_type_specification]
#[verifier::external_body]
pub struct ExIoErrorKind(std::io::ErrorKind);

/// A blob declares a codec that this reader cannot honour.
#[derive(Debug, PartialEq, Eq, Clone, Copy)]
pub enum InvalidExtension {
    /// zlib decompression is switched off.
    ZlibNotCompiled,
    /// bzip2 decompression is switched off.
    Bz2NotCompiled,
    /// The compression byte names no known codec.
    InvalidCompressionSetting(u8),
}

/// Everything that can go wrong while reading a stream.
///
/// Two `Reader` errors are equal when their kinds are; two
/// `InvalidExtension` errors when their inner values are.
#[derive(Debug, PartialEq, Eq, Clone, Copy)]
pub enum Error {
    /// The stream ends before a required region (the header, an element).
    MissingData,
    /// The stream does not start with the format's prefix.
    InvalidHeader,
    /// The stream ends inside a fixed-width field.
    Eof,
    /// A size byte lies in the reserved range.
    InvalidSize,
    /// String bytes are not UTF-8.
    InvalidUtf8,
    /// A blob's stored bytes do not match its digest.
    InvalidBlobHash,
    /// A blob needs a codec that is unknown or switched off.
    InvalidExtension(InvalidExtension),
    /// The byte source, or a decoder reading from it, failed.
    Reader(std::io::ErrorKind),
}

impl From<InvalidExtension> for Error {
    fn from(err: InvalidExtension) -> (r: Error)
        ensures
            r == Error::InvalidExtension(err),
    {
        Error::InvalidExtension(err)
    }
}

impl vstd::std_specs::convert::FromSpecImpl<InvalidExtension> for Error {
    open spec fn obeys_from_spec() -> bool {
        true
    }

    open spec fn from_spec(v: InvalidExtension) -> Error {
        Error::InvalidExtension(v)
    }
}

} // verus!
