//! Payload compression with zstd.
use vstd::prelude::*;
use crate::error::ProtocolError;
use crate::wire::copy_range;

verus! {

/// zstd compression level used for payloads.
pub const COMPRESSION_LEVEL: i32 = 3;

/// What zstd's `encode_all` produces from `data` at `level`, or nothing when
/// zstd reports an error.
pub uninterp spec fn zstd_compressed(data: Seq<u8>, level: int) -> Option<Seq<u8>>;

/// What zstd's `decode_all` produces from `data`.
pub uninterp spec fn zstd_decompressed(data: Seq<u8>) -> Seq<u8>;

/// Relies on `std::io::Error`, the error type of zstd's streaming functions.
#[verifier::external_type_specification]
#[verifier::external_body]
pub struct ExIoError(std::io::Error);

/// Relies on `zstd::stream::encode_all`: one zstd frame holding `data`,
/// compressed at `level`, or the error zstd reported.
#[verifier::external_body]
fn zstd_encode(data: &[u8], level: i32) -> (r: Result<Vec<u8>, std::io::Error>)
    ensures
        match r {
            Ok(c) => zstd_compressed(data@, level as int) == Some(c@),
            Err(_) => zstd_compressed(data@, level as int) is None,
        },
{
    zstd::stream::encode_all(data, level)
}

/// Relies on `zstd::stream::decode_all`: the bytes that the zstd frames in
/// `data` hold.
#[verifier::external_body]
fn zstd_decode(data: &[u8]) -> (r: Result<Vec<u8>, std::io::Error>)
    ensures
        r matches Ok(p) ==> p@ == zstd_decompressed(data@),
{
    zstd::stream::decode_all(data)
}

/// Relies on the `Display` text of `std::io::Error`, kept as the error's detail.
#[verifier::external_body]
pub(crate) fn io_error_text(e: &std::io::Error) -> (r: String) {
    e.to_string()
}

/// Compresses `data` into one zstd frame.
pub fn compress(data: &[u8]) -> (r: Result<Vec<u8>, ProtocolError>)
    ensures
        match r {
            Ok(c) => zstd_compressed(data@, COMPRESSION_LEVEL as int) == Some(c@),
            Err(e) => zstd_compressed(data@, COMPRESSION_LEVEL as int) is None
                && e is CompressionError,
        },
{
    match zstd_encode(data, COMPRESSION_LEVEL) {
        Ok(c) => Ok(c),
        Err(e) => Err(ProtocolError::CompressionError(io_error_text(&e))),
    }
}

/// Decompresses zstd-compressed `data`.
pub fn decompress(data: &[u8]) -> (r: Result<Vec<u8>, ProtocolError>)
    ensures
        match r {
            Ok(p) => p@ == zstd_decompressed(data@),
            Err(e) => e is CompressionError,
        },
{
    match zstd_decode(data) {
        Ok(p) => Ok(p),
        Err(e) => Err(ProtocolError::CompressionError(io_error_text(&e))),
    }
}

/// `compressed` when it is strictly shorter than `data`, else `data`.
pub open spec fn smaller_of(data: Seq<u8>, compressed: Seq<u8>) -> Seq<u8> {
    if compressed.len() < data.len() {
        compressed
    } else {
        data
    }
}

/// What `compress_if_beneficial` gives for `data`: nothing when zstd fails,
/// else the shorter of `data` and its compressed form.
pub open spec fn beneficial(data: Seq<u8>) -> Option<Seq<u8>> {
    match zstd_compressed(data, COMPRESSION_LEVEL as int) {
        Some(c) => Some(smaller_of(data, c)),
        None => None,
    }
}

/// Keeps the compressed form of `data` only when it is strictly shorter.
pub fn choose_smaller(data: &[u8], compressed: Vec<u8>) -> (r: Vec<u8>)
    ensures
        r@ == smaller_of(data@, compressed@),
        r@.len() <= data@.len(),
{
    assert(data@.subrange(0, data@.len() as int) =~= data@);
    if compressed.len() < data.len() {
        compressed
    } else {
        copy_range(data, 0, data.len())
    }
}

/// Compresses `data` when that makes it strictly shorter, and otherwise
/// returns it unchanged; either way the result is no longer than `data`.
pub fn compress_if_beneficial(data: &[u8]) -> (r: Result<Vec<u8>, ProtocolError>)
    ensures
        match r {
            Ok(out) => beneficial(data@) == Some(out@) && out@.len() <= data@.len(),
            Err(e) => beneficial(data@) is None && e is CompressionError,
        },
{
    let compressed = compress(data)?;
    Ok(choose_smaller(data, compressed))
}

} // verus!
