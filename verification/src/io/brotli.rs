//! Brotli compression.
use super::{Compressor, Decompressor};
use crate::errors::ClientError;
use std::io::{Read, Write};
use vstd::prelude::*;

verus! {

/// The brotli stream the `brotli` crate writes for `data` (quality 11,
/// window 22).
pub uninterp spec fn brotli_compressed(data: Seq<u8>) -> Seq<u8>;

/// The data the `brotli` crate reads back from the brotli stream `data`, or
/// `None` where it reports an error.
pub uninterp spec fn brotli_decompressed(data: Seq<u8>) -> Option<Seq<u8>>;

/// Compresses `data` into a brotli stream.
///
/// Calls `brotli::CompressorWriter::new` (default buffer, quality 11,
/// window 22), `write_all`, `flush` and `into_inner`. Trusted: with these
/// parameters and a `Vec` to write into it cannot fail, so it returns the
/// named `brotli_compressed` of the data, and reading that back with
/// `brotli::Decompressor` gives the data.
#[verifier::external_body]
fn brotli_encode(data: &[u8]) -> (r: Result<Vec<u8>, String>)
    ensures
        r is Ok,
        r matches Ok(v) ==> v@ == brotli_compressed(data@) && brotli_decompressed(v@) == Some(data@),
{
    let mut writer = brotli::CompressorWriter::new(Vec::new(), 0, 11, 22);
    match writer.write_all(data) {
        Ok(()) => {},
        Err(e) => return Err(e.to_string()),
    }
    match writer.flush() {
        Ok(()) => Ok(writer.into_inner()),
        Err(e) => Err(e.to_string()),
    }
}

/// Reads the data back from the brotli stream `data`.
///
/// Calls `brotli::Decompressor::new` (default buffer) and `read_to_end`.
/// Trusted: it succeeds exactly where the named `brotli_decompressed` of the
/// stream is some data, and returns that data. The error text is left
/// unsaid.
#[verifier::external_body]
fn brotli_decode(data: &[u8]) -> (r: Result<Vec<u8>, String>)
    ensures
        r is Ok <==> brotli_decompressed(data@) is Some,
        r matches Ok(v) ==> Some(v@) == brotli_decompressed(data@),
{
    let mut reader = brotli::Decompressor::new(data, 0);
    let mut buffer = Vec::new();
    match reader.read_to_end(&mut buffer) {
        Ok(_) => Ok(buffer),
        Err(e) => Err(e.to_string()),
    }
}

/// Brotli compression implementation for Deboa.
#[derive(PartialEq, Eq, Debug)]
pub struct BrotliCompressor;

/// Brotli decompression implementation for Deboa.
#[derive(PartialEq, Eq, Debug)]
pub struct BrotliDecompressor;

impl Compressor for BrotliCompressor {
    open spec fn name_spec(&self) -> Seq<char> {
        "br"@
    }

    open spec fn compressed(&self, data: Seq<u8>) -> Seq<u8> {
        brotli_compressed(data)
    }

    fn name(&self) -> (r: String) {
        "br".to_owned()
    }

    /// Compression into memory always succeeds, and what it returns reads
    /// back to `data`.
    fn compress(&self, data: &[u8]) -> (r: Result<Vec<u8>, ClientError>)
        ensures
            r matches Ok(v) && v@ == brotli_compressed(data@) && BrotliDecompressor.decompressed(v@) == Some(
                data@,
            ),
    {
        match brotli_encode(data) {
            Ok(v) => Ok(v),
            Err(message) => Err(ClientError::Compress { message }),
        }
    }
}

impl Decompressor for BrotliDecompressor {
    open spec fn name_spec(&self) -> Seq<char> {
        "br"@
    }

    open spec fn decompressed(&self, data: Seq<u8>) -> Option<Seq<u8>> {
        brotli_decompressed(data)
    }

    fn name(&self) -> (r: String) {
        "br".to_owned()
    }

    fn decompress(&self, data: &[u8]) -> (r: Result<Vec<u8>, ClientError>) {
        match brotli_decode(data) {
            Ok(v) => Ok(v),
            Err(message) => Err(ClientError::Decompress { message }),
        }
    }
}

} // verus!
