//! Error taxonomy of the store: I/O, compression, decoding and conversion
//! failures, each returned to the caller, never thrown.

use crate::datatype::DataKind;
use vstd::prelude::*;

verus! {

/// Error type for smolldb.
#[derive(Clone, Copy, PartialEq, Eq, Structural, Debug)]
pub enum Error {
    /// The compression primitive rejected its input or its input stream was
    /// malformed.
    CompressionError,
    /// The decompressed byte layout violates the framing contract.
    DecodeError,
    /// An underlying file or stream operation failed.
    FileError,
    /// A caller requested a type that does not match the stored variant;
    /// carries the kind actually stored.
    ConversionError(DataKind),
}

/// Coarse error type for smolldb.
pub enum SmollError {
    InsertError,
    CompressionError,
    DecompressionError,
    DecodeError,
    SaveFileError,
    ReadFileError,
}

impl SmollError {
    /// Returns the fixed description of each error case.
    pub fn string(&self) -> (r: String)
        ensures
            r@ == match self {
                SmollError::InsertError => "Insert Error"@,
                SmollError::CompressionError => "Compression Error"@,
                SmollError::DecompressionError => "Decompression Error"@,
                SmollError::DecodeError => "Decode Error"@,
                SmollError::SaveFileError => "Save File Error"@,
                SmollError::ReadFileError => "Read File Error"@,
            },
    {
        match self {
            SmollError::InsertError => "Insert Error".to_owned(),
            SmollError::CompressionError => "Compression Error".to_owned(),
            SmollError::DecompressionError => "Decompression Error".to_owned(),
            SmollError::DecodeError => "Decode Error".to_owned(),
            SmollError::SaveFileError => "Save File Error".to_owned(),
            SmollError::ReadFileError => "Read File Error".to_owned(),
        }
    }
}

} // verus!
