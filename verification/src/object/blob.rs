//! Blobs: file contents, kept as they are.
use crate::buffers::{bytes_mut_contents, put_slice};
use crate::error::GitError;
use crate::seqs::copy_range;
use bytes::BytesMut;
use vstd::prelude::*;

verus! {

/// The contents of a file.
#[derive(Debug)]
pub struct Blob(Vec<u8>);

impl View for Blob {
    type V = Seq<u8>;

    closed spec fn view(&self) -> Seq<u8> {
        self.0@
    }
}

impl Blob {
    /// The contents.
    pub fn as_bytes(&self) -> (b: &[u8])
        ensures
            b@ == self@,
    {
        self.0.as_slice()
    }

    /// Writes the contents as they are.
    pub fn encode(&self, buffer: &mut BytesMut)
        requires
            bytes_mut_contents(*old(buffer)).len() + self@.len() <= isize::MAX,
        ensures
            bytes_mut_contents(*final(buffer)) == bytes_mut_contents(*old(buffer)) + self@,
    {
        put_slice(buffer, self.0.as_slice());
    }

    /// Reads a blob: every byte of `chunk` is its contents.
    pub fn decode(chunk: &[u8]) -> (r: Result<Blob, GitError>)
        ensures
            r matches Ok(b) && b@ == chunk@,
    {
        Ok(Blob(copy_range(chunk, 0, chunk.len())))
    }
}

} // verus!
