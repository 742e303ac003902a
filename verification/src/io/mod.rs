//! Compression and decompression of bodies.
pub mod brotli;
pub mod gzip;

use crate::errors::ClientError;
use vstd::prelude::*;

verus! {

/// A compression a request body can be sent with.
pub trait Compressor {
    /// The name of the encoding (as in `Content-Encoding`).
    spec fn name_spec(&self) -> Seq<char>;

    /// The compressed form of `data`.
    spec fn compressed(&self, data: Seq<u8>) -> Seq<u8>;

    /// The name of the encoding.
    fn name(&self) -> (r: String)
        ensures
            r@ == self.name_spec(),
    ;

    /// Compresses `data`.
    fn compress(&self, data: &[u8]) -> (r: Result<Vec<u8>, ClientError>)
        ensures
            r matches Ok(v) ==> v@ == self.compressed(data@),
            r matches Err(e) ==> e is Compress,
    ;
}

/// A decompression a response body can be read with.
pub trait Decompressor {
    /// The name of the encoding (as in `Content-Encoding`).
    spec fn name_spec(&self) -> Seq<char>;

    /// The data `data` is the compressed form of, or `None` where `data` is
    /// not in this encoding.
    spec fn decompressed(&self, data: Seq<u8>) -> Option<Seq<u8>>;

    /// The name of the encoding.
    fn name(&self) -> (r: String)
        ensures
            r@ == self.name_spec(),
    ;

    /// Decompresses `data`.
    fn decompress(&self, data: &[u8]) -> (r: Result<Vec<u8>, ClientError>)
        ensures
            r is Ok <==> self.decompressed(data@) is Some,
            r matches Ok(v) ==> Some(v@) == self.decompressed(data@),
            r matches Err(e) ==> e is Decompress,
    ;
}

} // verus!
