//! Zlib streams, written and read by the `flate2` crate.
use flate2::{read::ZlibDecoder, write::ZlibEncoder, Compression};
use std::io::{Read, Write};
use vstd::prelude::*;

verus! {

/// The zlib stream that `flate2` writes for `data` at the default level.
pub uninterp spec fn zlib_compressed(data: Seq<u8>) -> Seq<u8>;

/// What `flate2` reads from the zlib stream at the start of `data`: the
/// decompressed bytes and the number of input bytes the stream took, or `None`
/// where the stream is corrupt or incomplete.
pub uninterp spec fn zlib_inflated(data: Seq<u8>) -> Option<(Seq<u8>, nat)>;

/// `flate2::write::ZlibEncoder` over a `Vec`, default level: `write_all` then
/// `finish`. This always succeeds: the encoder's errors come only from the
/// inner writer, and a `Vec` never refuses a write, or from miniz_oxide's
/// `deflate` reporting a bad parameter or a failed output buffer, which the
/// encoder's own settings and buffers never cause. The output is the named
/// stream for `data`, and reading that stream back gives `data` and takes the
/// whole output (zlib is lossless).
#[verifier::external_body]
pub(crate) fn zlib_compress(data: &[u8]) -> (r: Option<Vec<u8>>)
    ensures
        r is Some,
        r matches Some(v) ==> v@ == zlib_compressed(data@) && zlib_inflated(v@) == Some(
            (data@, v@.len()),
        ),
{
    let mut encoder = ZlibEncoder::new(Vec::new(), Compression::default());
    match encoder.write_all(data) {
        Ok(()) => encoder.finish().ok(),
        Err(_) => None,
    }
}

/// `flate2::read::ZlibDecoder` over `data`: `read_to_end`, then `total_in`.
/// The result is the named one; the count of input bytes taken never exceeds
/// the input's length.
#[verifier::external_body]
pub(crate) fn zlib_decompress(data: &[u8]) -> (r: Option<(Vec<u8>, usize)>)
    ensures
        match r {
            Some((v, n)) => zlib_inflated(data@) == Some((v@, n as nat)) && n <= data@.len(),
            None => zlib_inflated(data@) is None,
        },
{
    let mut decoder = ZlibDecoder::new(data);
    let mut out = Vec::new();
    match decoder.read_to_end(&mut out) {
        Ok(_) => Some((out, decoder.total_in() as usize)),
        Err(_) => None,
    }
}

} // verus!
