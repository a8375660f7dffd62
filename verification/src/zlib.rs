//! The compression boundary: zlib deflate and inflate, supplied by the
//! `flate2` crate.  The library gives the two transformations names — both
//! are functions of their input bytes (and, for deflate, the level) alone —
//! and relies on the documented fact that inflating a deflated stream gives
//! the original bytes back.

use vstd::prelude::*;

use flate2::read::ZlibDecoder;
use flate2::write::ZlibEncoder;
use flate2::Compression;
use std::io::Read;
use std::io::Write;

use crate::ProtocolError;

verus! {

/// The zlib stream that deflating `data` at `level` produces.
pub uninterp spec fn zlib_deflate(data: Seq<u8>, level: u32) -> Seq<u8>;

/// What inflating `data` yields: the decompressed bytes, or nothing when the
/// input is not a well-formed zlib stream.
pub uninterp spec fn zlib_inflate(data: Seq<u8>) -> Option<Seq<u8>>;

/// Relies on flate2's `ZlibEncoder` writing into a `Vec`: the compressed
/// stream is a function of the input bytes and the level alone, and
/// decompressing it yields the input again.  Levels stop at 9 — the backend
/// asserts as much in debug builds — so higher ones are refused here.
#[verifier::external_body]
pub(crate) fn compress_zlib(bytes: &[u8], compression: u32) -> (r: Result<Vec<u8>, ProtocolError>)
    requires
        compression <= 9,
    ensures
        r is Ok ==> r->Ok_0@ == zlib_deflate(bytes@, compression),
        r is Ok ==> zlib_inflate(r->Ok_0@) == Some(bytes@),
        r is Err ==> r->Err_0 == ProtocolError::ZlibError,
{
    let mut encoder = ZlibEncoder::new(Vec::new(), Compression::new(compression));
    encoder.write_all(bytes).or(Err(ProtocolError::ZlibError))?;
    encoder.finish().or(Err(ProtocolError::ZlibError))
}

/// Relies on flate2's `ZlibDecoder` over a byte slice: decompression is a
/// function of the input bytes alone, and fails exactly on input that is not
/// a well-formed zlib stream.
#[verifier::external_body]
pub(crate) fn decompress_zlib(bytes: &[u8]) -> (r: Result<Vec<u8>, ProtocolError>)
    ensures
        r is Ok <==> zlib_inflate(bytes@) is Some,
        r is Ok ==> Some(r->Ok_0@) == zlib_inflate(bytes@),
        r is Err ==> r->Err_0 == ProtocolError::ZlibError,
{
    let mut decoder = ZlibDecoder::new(bytes);
    let mut output = Vec::new();
    decoder.read_to_end(&mut output).or(Err(ProtocolError::ZlibError))?;
    Ok(output)
}

} // verus!
