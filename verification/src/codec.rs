//! Zlib compression of stored objects.
use crate::error::GitError;
use crate::zlib::{zlib_compress, zlib_compressed, zlib_decompress, zlib_inflated};
use vstd::prelude::*;

verus! {

/// The bytes that the zlib stream at the start of `data` holds.
pub fn unzip(data: &[u8]) -> (r: Result<Vec<u8>, GitError>)
    ensures
        match r {
            Ok(v) => zlib_inflated(data@) matches Some((d, _)) && v@ == d,
            Err(e) => zlib_inflated(data@) is None && e == GitError::Decompress,
        },
{
    match zlib_decompress(data) {
        Some((v, _)) => Ok(v),
        None => Err(GitError::Decompress),
    }
}

/// The bytes that the zlib stream at the start of `data` holds, and how many
/// bytes of `data` the stream takes.
pub fn unzip_count(data: &[u8]) -> (r: Result<(Vec<u8>, usize), GitError>)
    ensures
        match r {
            Ok((v, n)) => zlib_inflated(data@) == Some((v@, n as nat)) && n <= data@.len(),
            Err(e) => zlib_inflated(data@) is None && e == GitError::Decompress,
        },
{
    match zlib_decompress(data) {
        Some((v, n)) => Ok((v, n)),
        None => Err(GitError::Decompress),
    }
}

/// `data` compressed as a zlib stream at the default level; this never fails.
/// Reading the stream back gives `data`.
pub fn zip(data: &[u8]) -> (r: Result<Vec<u8>, GitError>)
    ensures
        r matches Ok(v) && v@ == zlib_compressed(data@) && zlib_inflated(v@) == Some(
            (data@, v@.len()),
        ),
{
    match zlib_compress(data) {
        Some(v) => Ok(v),
        None => Err(GitError::Compress),
    }
}

} // verus!
