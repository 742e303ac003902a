use deboa_extras::catcher::encoding::EncodingCatcher;
use deboa_extras::errors::ClientError;
use deboa_extras::io::brotli::{BrotliCompressor, BrotliDecompressor};
use deboa_extras::io::gzip::{GzipCompressor, GzipDecompressor};
use deboa_extras::io::{Compressor, Decompressor};

const TEXT: &[u8] = b"The quick brown fox jumps over the lazy dog. The quick brown fox jumps over the lazy dog.";

#[test]
fn gzip_roundtrip() {
    let c = GzipCompressor;
    assert_eq!(c.name(), "gzip");
    let packed = c.compress(TEXT).unwrap();
    assert_ne!(packed.as_slice(), TEXT);
    assert_eq!(&packed[..2], &[0x1f, 0x8b]);
    let d = GzipDecompressor;
    assert_eq!(d.name(), "gzip");
    assert_eq!(d.decompress(&packed).unwrap(), TEXT.to_vec());
}

#[test]
fn brotli_roundtrip() {
    let c = BrotliCompressor;
    assert_eq!(c.name(), "br");
    let packed = c.compress(TEXT).unwrap();
    assert_ne!(packed.as_slice(), TEXT);
    let d = BrotliDecompressor;
    assert_eq!(d.name(), "br");
    assert_eq!(d.decompress(&packed).unwrap(), TEXT.to_vec());
}

#[test]
fn corrupt_streams_are_refused() {
    assert!(matches!(GzipDecompressor.decompress(b"not gzip"), Err(ClientError::Decompress { .. })));
    assert!(matches!(
        BrotliDecompressor.decompress(&[0xff, 0xff, 0xff, 0xff]),
        Err(ClientError::Decompress { .. })
    ));
}

#[test]
fn test_gzip_catcher_decodes_body() {
    let catcher = EncodingCatcher::register_decoders(vec![GzipDecompressor]);
    let packed = GzipCompressor.compress(TEXT).unwrap();
    assert_eq!(catcher.decode(Some(b"gzip"), &packed).unwrap(), TEXT.to_vec());
    assert_eq!(catcher.accept_encoding(), "gzip");
}

#[test]
fn test_brotli_catcher_decodes_body() {
    let catcher = EncodingCatcher::register_decoders(vec![BrotliDecompressor]);
    let packed = BrotliCompressor.compress(TEXT).unwrap();
    assert_eq!(catcher.decode(Some(b"br"), &packed).unwrap(), TEXT.to_vec());
}

#[test]
fn catcher_errors() {
    let catcher = EncodingCatcher::register_decoders(vec![GzipDecompressor]);
    assert_eq!(
        catcher.decode(None, TEXT),
        Err(ClientError::Decompress { message: "Content encoding not found".to_string() })
    );
    assert_eq!(
        catcher.decode(Some(b"br"), TEXT),
        Err(ClientError::Decompress { message: "No decompressor found".to_string() })
    );
    assert!(matches!(catcher.decode(Some(b"gzip"), TEXT), Err(ClientError::Decompress { .. })));
}

#[test]
fn catcher_later_decoder_replaces_earlier() {
    let catcher = EncodingCatcher::register_decoders(vec![
        GzipDecompressor,
        GzipDecompressor,
    ]);
    assert_eq!(catcher.accept_encoding(), "gzip");
    let packed = GzipCompressor.compress(TEXT).unwrap();
    assert_eq!(catcher.decode(Some(b"gzip"), &packed).unwrap(), TEXT.to_vec());
}

#[test]
fn empty_catcher_announces_nothing() {
    let catcher: EncodingCatcher<GzipDecompressor> = EncodingCatcher::register_decoders(vec![]);
    assert_eq!(catcher.accept_encoding(), "");
}

#[test]
fn empty_bodies_compress_and_read_back() {
    let gz = GzipCompressor.compress(b"").unwrap();
    assert_eq!(GzipDecompressor.decompress(&gz).unwrap(), Vec::<u8>::new());
    let br = BrotliCompressor.compress(b"").unwrap();
    assert_eq!(BrotliDecompressor.decompress(&br).unwrap(), Vec::<u8>::new());
}
