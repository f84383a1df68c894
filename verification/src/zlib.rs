//! The trusted boundary to the external DEFLATE/zlib primitive.
//!
//! Compression is a black box here: its output is only named, never
//! described, and the one fact the library relies on is that the primitive
//! is lossless — decompressing a compressed image yields the original
//! bytes.

use crate::error::Error;
use vstd::prelude::*;

verus! {

/// The zlib-compressed image of a byte sequence, at the fastest
/// compression level.
pub uninterp spec fn zlib_deflate(b: Seq<u8>) -> Seq<u8>;

/// The bytes a zlib stream decompresses to, or `None` if the stream is
/// malformed.
pub uninterp spec fn zlib_inflate(b: Seq<u8>) -> Option<Seq<u8>>;

/// Relies on yazi::compress with `Format::Zlib` and
/// `CompressionLevel::BestSpeed`: the output is a deterministic function
/// of the input bytes alone, and yazi::decompress recovers the input from
/// it (DEFLATE is lossless).  Compression never fails because of the
/// input's content, only on environment failures.
#[verifier::external_body]
pub(crate) fn zlib_compress(data: &[u8]) -> (r: Result<Vec<u8>, Error>)
    ensures
        r matches Ok(out) ==> {
            &&& out@ == zlib_deflate(data@)
            &&& zlib_inflate(out@) == Some(data@)
        },
        r matches Err(e) ==> e == Error::CompressionError,
{
    match yazi::compress(data, yazi::Format::Zlib, yazi::CompressionLevel::BestSpeed) {
        Ok(v) => Ok(v),
        Err(_) => Err(Error::CompressionError),
    }
}

/// Relies on yazi::decompress with `Format::Zlib`: the result is a
/// deterministic function of the input bytes alone, and it fails exactly
/// when the input is not a well-formed zlib stream.
#[verifier::external_body]
pub(crate) fn zlib_decompress(data: &[u8]) -> (r: Result<Vec<u8>, Error>)
    ensures
        r matches Ok(out) ==> zlib_inflate(data@) == Some(out@),
        r matches Err(e) ==> {
            &&& e == Error::CompressionError
            &&& zlib_inflate(data@) is None
        },
{
    match yazi::decompress(data, yazi::Format::Zlib) {
        Ok((v, _)) => Ok(v),
        Err(_) => Err(Error::CompressionError),
    }
}

} // verus!
