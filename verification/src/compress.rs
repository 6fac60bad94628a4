//! Decompression of policy configuration payloads.

use vstd::prelude::*;

verus! {

/// What brotli decompression returns for a payload: a function of the
/// bytes alone, `None` when the payload is not a valid brotli stream.
pub uninterp spec fn brotli_plain(data: Seq<u8>) -> Option<Seq<u8>>;

/// Relies on `brotli_decompressor::BrotliDecompress`: decompresses a
/// brotli stream, deterministic in the input bytes, failing exactly on
/// corrupt payloads.
#[verifier::external_body]
pub(crate) fn brotli_decompress(data: &Vec<u8>) -> (r: Option<Vec<u8>>)
    ensures
        (r is Some) == (brotli_plain(data@) is Some),
        (r matches Some(p) ==> brotli_plain(data@) == Some(p@)),
{
    let mut out = Vec::new();
    match brotli_decompressor::BrotliDecompress(&mut data.as_slice(), &mut out) {
        Ok(()) => Some(out),
        Err(_) => None,
    }
}

} // verus!
