//! gzip and zlib streams, through flate2.

use vstd::prelude::*;

use crate::error::{LibraryError, Result};
use flate2::read::{GzDecoder, ZlibDecoder};
use flate2::write::GzEncoder;
use flate2::Compression;
use std::io::{Read, Write};

verus! {

/// The gzip stream that flate2 writes for `data` at the default level.
pub uninterp spec fn gzip_of(data: Seq<u8>) -> Seq<u8>;

/// What flate2's gzip decoder reads from `data`: the inflated bytes of its
/// first member, or `None` where the stream is malformed or cut short.
pub uninterp spec fn gunzip_of(data: Seq<u8>) -> Option<Seq<u8>>;

/// What flate2's zlib decoder reads from `data`, or `None` where the stream
/// is malformed or cut short.
pub uninterp spec fn unzlib_of(data: Seq<u8>) -> Option<Seq<u8>>;

/// Relies on flate2's `GzEncoder` over a `Vec` at `Compression::default()`:
/// the bytes it writes depend on the input alone, and its decoder reads the
/// input back from them.
#[verifier::external_body]
pub fn compress_gzip(data: &[u8]) -> (r: Result<Vec<u8>>)
    ensures
        r matches Ok(v) ==> v@ == gzip_of(data@) && gunzip_of(v@) == Some(data@),
        r matches Err(e) ==> e is Compression,
{
    let mut encoder = GzEncoder::new(Vec::new(), Compression::default());
    match encoder.write_all(data).and_then(|_| encoder.finish()) {
        Ok(v) => Ok(v),
        Err(e) => Err(LibraryError::Compression(e.to_string())),
    }
}

/// Relies on flate2's `GzDecoder` and `Read::read_to_end`: the inflated
/// bytes of a well-formed stream, an error otherwise.
#[verifier::external_body]
pub fn decompress_gzip(data: &[u8]) -> (r: Result<Vec<u8>>)
    ensures
        r matches Ok(v) ==> gunzip_of(data@) == Some(v@),
        r matches Err(e) ==> gunzip_of(data@) is None && e is Compression,
{
    let mut output = Vec::new();
    match GzDecoder::new(data).read_to_end(&mut output) {
        Ok(_) => Ok(output),
        Err(e) => Err(LibraryError::Compression(e.to_string())),
    }
}

/// Relies on flate2's `ZlibDecoder` and `Read::read_to_end`: the inflated
/// bytes of a well-formed stream, an error otherwise.
#[verifier::external_body]
pub fn decompress_zlib(data: &[u8]) -> (r: Result<Vec<u8>>)
    ensures
        r matches Ok(v) ==> unzlib_of(data@) == Some(v@),
        r matches Err(e) ==> unzlib_of(data@) is None && e is Compression,
{
    let mut output = Vec::new();
    match ZlibDecoder::new(data).read_to_end(&mut output) {
        Ok(_) => Ok(output),
        Err(e) => Err(LibraryError::Compression(e.to_string())),
    }
}

} // verus!
