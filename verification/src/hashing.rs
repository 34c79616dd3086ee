//! SHA-1 digests, computed by the `sha1` crate.
use sha1::{Digest, Sha1};
use vstd::prelude::*;

verus! {

/// The SHA-1 digest of `data`.
pub uninterp spec fn sha1_of(data: Seq<u8>) -> Seq<u8>;

/// `<Sha1 as Digest>::digest`: the SHA-1 digest of `data`, whose output size
/// is 20 bytes (`OutputSize = U20` in the crate).
#[verifier::external_body]
pub(crate) fn sha1_digest(data: &[u8]) -> (d: Vec<u8>)
    ensures
        d@ == sha1_of(data@),
        d@.len() == 20,
{
    Sha1::digest(data).to_vec()
}

} // verus!
