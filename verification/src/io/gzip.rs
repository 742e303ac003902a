//! Gzip compression.
use super::{Compressor, Decompressor};
use crate::errors::ClientError;
use std::io::{Read, Write};
use vstd::prelude::*;

verus! {

/// The gzip stream `flate2` writes for `data` at the default level.
pub uninterp spec fn gzip_compressed(data: Seq<u8>) -> Seq<u8>;

/// The data `flate2` reads back from the gzip stream `data`, or `None`
/// where it reports an error.
pub uninterp spec fn gzip_decompressed(data: Seq<u8>) -> Option<Seq<u8>>;

/// Compresses `data` into a gzip stream.
///
/// Calls `flate2::write::GzEncoder::new` (default level), `write_all` and
/// `finish`. Trusted: writing into a `Vec` cannot fail, so it returns the
/// named `gzip_compressed` of the data, and reading that back with
/// `GzDecoder` gives the data.
#[verifier::external_body]
fn gzip_encode(data: &[u8]) -> (r: Result<Vec<u8>, String>)
    ensures
        r is Ok,
        r matches Ok(v) ==> v@ == gzip_compressed(data@) && gzip_decompressed(v@) == Some(data@),
{
    let mut writer = flate2::write::GzEncoder::new(Vec::new(), flate2::Compression::default());
    match writer.write_all(data) {
        Ok(()) => {},
        Err(e) => return Err(e.to_string()),
    }
    match writer.finish() {
        Ok(v) => Ok(v),
        Err(e) => Err(e.to_string()),
    }
}

/// Reads the data back from the gzip stream `data`.
///
/// Calls `flate2::read::GzDecoder::new` and `read_to_end`. Trusted: it
/// succeeds exactly where the named `gzip_decompressed` of the stream is
/// some data, and returns that data. The error text is left unsaid.
#[verifier::external_body]
fn gzip_decode(data: &[u8]) -> (r: Result<Vec<u8>, String>)
    ensures
        r is Ok <==> gzip_decompressed(data@) is Some,
        r matches Ok(v) ==> Some(v@) == gzip_decompressed(data@),
{
    let mut reader = flate2::read::GzDecoder::new(data);
    let mut buffer = Vec::new();
    match reader.read_to_end(&mut buffer) {
        Ok(_) => Ok(buffer),
        Err(e) => Err(e.to_string()),
    }
}

/// Gzip compression implementation for Deboa.
#[derive(PartialEq, Eq, Debug)]
pub struct GzipCompressor;

/// Gzip decompression implementation for Deboa.
#[derive(PartialEq, Eq, Debug)]
pub struct GzipDecompressor;

impl Compressor for GzipCompressor {
    open spec fn name_spec(&self) -> Seq<char> {
        "gzip"@
    }

    open spec fn compressed(&self, data: Seq<u8>) -> Seq<u8> {
        gzip_compressed(data)
    }

    fn name(&self) -> (r: String) {
        "gzip".to_owned()
    }

    /// Compression into memory always succeeds, and what it returns reads
    /// back to `data`.
    fn compress(&self, data: &[u8]) -> (r: Result<Vec<u8>, ClientError>)
        ensures
            r matches Ok(v) && v@ == gzip_compressed(data@) && GzipDecompressor.decompressed(v@) == Some(
                data@,
            ),
    {
        match gzip_encode(data) {
            Ok(v) => Ok(v),
            Err(message) => Err(ClientError::Compress { message }),
        }
    }
}

impl Decompressor for GzipDecompressor {
    open spec fn name_spec(&self) -> Seq<char> {
        "gzip"@
    }

    open spec fn decompressed(&self, data: Seq<u8>) -> Option<Seq<u8>> {
        gzip_decompressed(data)
    }

    fn name(&self) -> (r: String) {
        "gzip".to_owned()
    }

    fn decompress(&self, data: &[u8]) -> (r: Result<Vec<u8>, ClientError>) {
        match gzip_decode(data) {
            Ok(v) => Ok(v),
            Err(message) => Err(ClientError::Decompress { message }),
        }
    }
}

} // verus!
