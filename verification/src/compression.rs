use crate::error::IoErrorKind;
use std::io::{Read, Write};
use vstd::prelude::*;

verus! {

/// The zlib stream `flate2` produces for `data` the way this library asks
/// for it (a `ZlibEncoder` at the default level, one `write`, then
/// `finish`), or the kind of the error the encoder reports.
pub uninterp spec fn zlib_deflate(data: Seq<u8>) -> std::result::Result<Seq<u8>, IoErrorKind>;

/// What `flate2`'s `ZlibDecoder` reads to the end from `data`: the
/// decompressed bytes, or the kind of the error it reports.
pub uninterp spec fn zlib_inflate(data: Seq<u8>) -> std::result::Result<Seq<u8>, IoErrorKind>;

/// Compresses `data` with `flate2::write::ZlibEncoder` (default level): one
/// `write` of the whole input, then `finish`. Trusted: the result is
/// `zlib_deflate` of the input (an error taken by its kind); nothing is said
/// of the stream's contents.
#[verifier::external_body]
pub(crate) fn zlib_compress(data: &[u8]) -> (r: std::result::Result<Vec<u8>, IoErrorKind>)
    ensures
        match r {
            Ok(c) => zlib_deflate(data@) == Ok::<Seq<u8>, IoErrorKind>(c@),
            Err(k) => zlib_deflate(data@) == Err::<Seq<u8>, IoErrorKind>(k),
        },
{
    let mut encoder = flate2::write::ZlibEncoder::new(Vec::new(), flate2::Compression::default());
    let result = match encoder.write(data) {
        Ok(_) => encoder.finish(),
        Err(e) => Err(e),
    };
    match result {
        Ok(compressed) => Ok(compressed),
        Err(e) => Err(match e.kind() {
            std::io::ErrorKind::UnexpectedEof => IoErrorKind::UnexpectedEof,
            std::io::ErrorKind::InvalidInput => IoErrorKind::InvalidInput,
            _ => IoErrorKind::Other,
        }),
    }
}

/// Decompresses `data` by reading a `flate2::read::ZlibDecoder` to the end.
/// Trusted: the result is `zlib_inflate` of the input (an error taken by its
/// kind: flate2 reports a stream that stops short as `UnexpectedEof` and a
/// corrupt one as `InvalidInput`).
#[verifier::external_body]
pub(crate) fn zlib_decompress(data: Vec<u8>) -> (r: std::result::Result<Vec<u8>, IoErrorKind>)
    ensures
        match r {
            Ok(u) => zlib_inflate(data@) == Ok::<Seq<u8>, IoErrorKind>(u@),
            Err(k) => zlib_inflate(data@) == Err::<Seq<u8>, IoErrorKind>(k),
        },
{
    let mut decoder = flate2::read::ZlibDecoder::new(std::io::Cursor::new(data));
    let mut out = Vec::new();
    match decoder.read_to_end(&mut out) {
        Ok(_) => Ok(out),
        Err(e) => Err(match e.kind() {
            std::io::ErrorKind::UnexpectedEof => IoErrorKind::UnexpectedEof,
            std::io::ErrorKind::InvalidInput => IoErrorKind::InvalidInput,
            _ => IoErrorKind::Other,
        }),
    }
}

} // verus!
